//! The mempool endpoint.

use vstd::prelude::*;

use crate::error::MinaMeshError;
use crate::light_node::LightRequest;
use crate::mesh::{MinaMesh, NodeBackend};
use crate::types::{MempoolResponse, TransactionIdentifier};

verus! {

/// Where the pending transactions come from.
#[derive(Debug)]
pub enum MempoolRoute {
    /// From the light node's gossip tap.
    LightNode(LightRequest),
    /// From the daemon at this GraphQL endpoint.
    Daemon(String),
}

/// Answers a mempool request with the hashes of the pending transactions.
pub fn mempool_response(hashes: Vec<String>) -> (response: MempoolResponse)
    ensures
        response.transaction_identifiers@.len() == hashes@.len(),
        forall|i: int|
            0 <= i < hashes@.len() ==> (#[trigger] response.transaction_identifiers@[i]).hash
                == hashes@[i],
{
    let ghost all = hashes@;
    let mut transaction_identifiers: Vec<TransactionIdentifier> = Vec::new();
    for hash in it: hashes
        invariant
            it.seq() == all,
            transaction_identifiers@.len() == it.index(),
            forall|i: int|
                0 <= i < transaction_identifiers@.len() ==> (
                #[trigger] transaction_identifiers@[i]).hash == all[i],
    {
        transaction_identifiers.push(TransactionIdentifier { hash });
    }
    MempoolResponse { transaction_identifiers }
}

impl MinaMesh {
    /// Decides where the pending transactions come from: from the live node, and from nowhere else.
    pub fn mempool(&self) -> (route: Result<MempoolRoute, MinaMeshError>)
        ensures
            match self.node {
                NodeBackend::LightNode(client) => {
                    &&& route matches Ok(MempoolRoute::LightNode(request))
                    &&& client.is_get(request, "/mempool"@)
                },
                NodeBackend::Daemon(url) => route == Ok::<MempoolRoute, MinaMeshError>(
                    MempoolRoute::Daemon(url),
                ),
                NodeBackend::Absent => route matches Err(e) && e.is_exception(
                    "no live node configured (indexer-only mode)"@,
                ),
            },
    {
        match &self.node {
            NodeBackend::LightNode(client) => Ok(MempoolRoute::LightNode(client.mempool())),
            NodeBackend::Daemon(url) => Ok(MempoolRoute::Daemon(url.clone())),
            NodeBackend::Absent => Err(
                MinaMeshError::Exception("no live node configured (indexer-only mode)".to_owned()),
            ),
        }
    }
}

/// The pending transactions come from the live node and from nowhere else: from the light node's
/// `/mempool`, or from the daemon at its own URL. Without a live node there is no answer.
pub proof fn mempool_comes_from_the_live_node(
    mesh: MinaMesh,
    route: Result<MempoolRoute, MinaMeshError>,
)
    requires
        call_ensures(MinaMesh::mempool, (&mesh,), route),
    ensures
        route matches Ok(MempoolRoute::LightNode(_)) <==> mesh.node is LightNode,
        route matches Ok(MempoolRoute::Daemon(_)) <==> mesh.node is Daemon,
        route is Err <==> mesh.node is Absent,
        route matches Ok(MempoolRoute::Daemon(url)) ==> mesh.node == NodeBackend::Daemon(url),
        route matches Ok(MempoolRoute::LightNode(request)) ==> {
            &&& request.method is Get
            &&& request.path@ == "/mempool"@
            &&& request.body is None
            &&& mesh.node matches NodeBackend::LightNode(client) && request.url@ == client.url()
                + "/mempool"@
        },
        route matches Err(e) ==> {
            &&& e is Exception
            &&& e->Exception_0@ == "no live node configured (indexer-only mode)"@
        },
{
}

/// The mempool lists every pending hash once, at its place, and no other.
pub proof fn mempool_lists_every_hash(hashes: Vec<String>, response: MempoolResponse, i: int)
    requires
        call_ensures(mempool_response, (hashes,), response),
    ensures
        response.transaction_identifiers@.len() == hashes@.len(),
        0 <= i < hashes@.len() ==> response.transaction_identifiers@[i].hash@ == hashes@[i]@,
{
}

} // verus!
