# mina_mesh

The decisions of a Rosetta (Mesh) server for the Mina blockchain, verified with Verus.

The server answers block, mempool and search requests. History comes from a Postgres archive or
from a trustless indexer, live state from a daemon or from a trustless light node. The library in
`src/` decides which backend and which query comes next, and computes what the answers amount to;
it does no I/O. `app/` connects the backends and carries queries and answers.

| Module | What it holds |
| --- | --- |
| `config` | the configuration, the start of the server and the search for the genesis block |
| `mesh` | the configured server and its backends |
| `api::block` | where a block comes from, and a block of the archive |
| `api::indexer_block` | a block of the indexer, with the fees netted |
| `api::search_transactions` | the filters of a search and the queries to the archive |
| `api::archive_search` | a search over the archive, step by step |
| `api::indexer_search` | a search over the indexer: united, filtered, ordered and paged |
| `api::mempool`, `api::best_tip` | live state |
| `light_node` | requests to the light node and what comes of them |
| `commands` | commands and the transactions that present them |
| `text`, `json`, `cache`, `types`, `error`, `archive` | what the others are built from |

The functions that turn a command into operations are handed to the library as closures, in a
`TransactionGenerators`. Sums over a request or an answer that may not fit in their types are
required to fit; beside each function that adds them up stands a `check_` function that says
whether they do. `adjust_limit_and_offset` asks the same of its arguments, and has none.
