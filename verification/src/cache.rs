//! The server's cache: reusable data such as the network id, each with the time of its storing.

use vstd::prelude::*;

verus! {

/// A concurrent map of `dashmap`. The library makes one and hands it on.
#[verifier::external_type_specification]
#[verifier::external_body]
#[verifier::reject_recursive_types(K)]
#[verifier::reject_recursive_types(V)]
#[verifier::reject_recursive_types(S)]
pub struct ExDashMap<K, V, S>(dashmap::DashMap<K, V, S>);

/// A point in time of `std`.
#[verifier::external_type_specification]
#[verifier::external_body]
pub struct ExInstant(std::time::Instant);

/// The texts that a cache holds as it is made, by key. Entries can be added later through a shared
/// reference, and are not among these.
pub uninterp spec fn cache_entries(
    cache: dashmap::DashMap<String, (String, std::time::Instant)>,
) -> Map<Seq<char>, Seq<char>>;

/// No entries.
pub open spec fn no_entries() -> Map<Seq<char>, Seq<char>> {
    Map::empty()
}

/// Calls `dashmap::DashMap::new`. Claims that the map is made without entries.
#[verifier::external_body]
pub(crate) fn new_cache() -> (cache: dashmap::DashMap<String, (String, std::time::Instant)>)
    ensures
        cache_entries(cache) == no_entries(),
{
    dashmap::DashMap::new()
}

} // verus!
