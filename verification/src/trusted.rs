//! Declarations of the outside items that the game logic calls, and the
//! contracts that the library relies on. Nothing here is proved: each
//! contract restates what the outside crate's source does.
use dashmap::DashMap;
use quadtree_f32::QuadTree;
use std::hash::RandomState;
use vstd::prelude::*;

verus! {

#[verifier::external_type_specification]
#[verifier::external_body]
#[verifier::reject_recursive_types(K)]
#[verifier::reject_recursive_types(V)]
#[verifier::reject_recursive_types(S)]
pub struct ExDashMap<K, V, S>(DashMap<K, V, S>);

#[verifier::external_type_specification]
#[verifier::external_body]
pub struct ExQuadTree(QuadTree);

/// What a connection table holds: for each player id, the handle of the
/// connection that the player's packets are written to.
pub uninterp spec fn ws_entries(m: DashMap<u64, u64>) -> Map<u64, u64>;

/// Calls `DashMap::new`: the new map holds no entry.
#[verifier::external_body]
pub(crate) fn ws_new() -> (m: DashMap<u64, u64>)
    ensures
        ws_entries(m) =~= Map::empty(),
{
    DashMap::new()
}

/// Calls `DashMap::insert`: afterwards `key` maps to `value` and every other
/// entry is as before; the result is the value `key` had before, if any.
/// The wrapper takes the map by `&mut` although `DashMap::insert` needs only
/// `&self`, so that the change is visible to the verifier.
#[verifier::external_body]
pub(crate) fn ws_insert(m: &mut DashMap<u64, u64>, key: u64, value: u64) -> (prev: Option<u64>)
    ensures
        ws_entries(*final(m)) == ws_entries(*old(m)).insert(key, value),
        prev == (if ws_entries(*old(m)).contains_key(key) {
            Some(ws_entries(*old(m))[key])
        } else {
            None
        }),
{
    m.insert(key, value)
}

/// Calls `DashMap::get` and copies the value out of the guard: the value
/// stored under `key`, or `None` where there is none.
#[verifier::external_body]
pub(crate) fn ws_get(m: &DashMap<u64, u64>, key: u64) -> (v: Option<u64>)
    ensures
        v == (if ws_entries(*m).contains_key(key) {
            Some(ws_entries(*m)[key])
        } else {
            None
        }),
{
    m.get(&key).map(|entry| *entry.value())
}

/// Calls `DashMap::iter` and collects the key of each entry. Every key of
/// the map occurs exactly once; the order is whatever the shards yield.
#[verifier::external_body]
pub(crate) fn ws_ids(m: &DashMap<u64, u64>) -> (ids: Vec<u64>)
    ensures
        forall|i: int, j: int| 0 <= i < j < ids.len() ==> ids[i] != ids[j],
        forall|i: int| 0 <= i < ids.len() ==> ws_entries(*m).contains_key(#[trigger] ids[i]),
        forall|k: u64| ws_entries(*m).contains_key(k) ==> #[trigger] ids@.contains(k),
{
    m.iter().map(|entry| *entry.key()).collect()
}

/// Calls `QuadTree::new`, an empty tree. Nothing about the tree is used.
#[verifier::external_body]
pub(crate) fn quadtree_new() -> QuadTree {
    QuadTree::new()
}

/// Calls `rand::random::<u64>()`. The value is random; nothing is promised
/// of it.
#[verifier::external_body]
pub(crate) fn random_u64() -> u64 {
    rand::random::<u64>()
}

} // verus!
