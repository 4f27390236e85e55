//! The best tip: which branch wins is the daemon's to say.

use vstd::prelude::*;

use crate::mesh::{MinaMesh, NodeBackend};

verus! {

impl MinaMesh {
    /// The GraphQL endpoint of the daemon that knows the best tip; `None` where no daemon is
    /// configured.
    pub fn best_tip_endpoint(&self) -> (endpoint: Option<&String>)
        ensures
            match self.node {
                NodeBackend::Daemon(url) => endpoint matches Some(e) && *e == url,
                _ => endpoint is None,
            },
    {
        match &self.node {
            NodeBackend::Daemon(url) => Some(url),
            _ => None,
        }
    }

    /// The state hash of the block that the daemon considers the best tip, if it will tell: from
    /// the hashes of its best chain, the tip first.
    ///
    /// There is none where no daemon is configured, or it cannot be reached, or it reports no
    /// chain. Callers then fall back on a heuristic, which is better than no answer.
    pub fn best_tip_state_hash<E>(&self, reply: Result<Option<Vec<String>>, E>) -> (hash: Option<
        String,
    >)
        ensures
            match reply {
                Ok(Some(chain)) => if self.node is Daemon && chain@.len() > 0 {
                    hash == Some(chain@[0])
                } else {
                    hash is None
                },
                _ => hash is None,
            },
    {
        match (self.best_tip_endpoint(), reply) {
            (Some(_), Ok(Some(chain))) => if chain.len() > 0 {
                Some(chain[0].clone())
            } else {
                None
            },
            _ => None,
        }
    }
}

/// The best tip is the first block of the daemon's best chain, and nobody else's: without a daemon,
/// without an answer and without a chain there is none.
pub proof fn best_tip_is_the_daemons<E>(
    mesh: MinaMesh,
    reply: Result<Option<Vec<String>>, E>,
    hash: Option<String>,
    endpoint: Option<&String>,
)
    requires
        call_ensures(MinaMesh::best_tip_state_hash::<E>, (&mesh, reply), hash),
        call_ensures(MinaMesh::best_tip_endpoint, (&mesh,), endpoint),
    ensures
        endpoint is Some <==> mesh.node is Daemon,
        endpoint matches Some(url) ==> mesh.node == NodeBackend::Daemon(*url),
        hash is Some <==> (mesh.node is Daemon && reply is Ok && reply->Ok_0 is Some
            && reply->Ok_0->0@.len() > 0),
        hash matches Some(h) ==> reply->Ok_0->0@[0] == h,
{
}

} // verus!
