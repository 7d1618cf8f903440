//! Maps from the number of an id to a value, hashed by `rustc_hash`.

use rustc_hash::{FxHashMap, FxHasher};
use std::hash::BuildHasherDefault;
use vstd::prelude::*;

verus! {

/// `rustc_hash::FxHasher`: it is carried in the type of a map and nothing
/// is said of it.
#[verifier::external_type_specification]
#[verifier::external_body]
pub struct ExFxHasher(FxHasher);

/// `std::hash::BuildHasherDefault`: it is carried in the type of a map
/// and nothing is said of it.
#[verifier::external_type_specification]
#[verifier::external_body]
#[verifier::reject_recursive_types(H)]
pub struct ExBuildHasherDefault<H>(BuildHasherDefault<H>);

/// Makes a map through `FxHashMap::default`: it holds nothing.
#[verifier::external_body]
pub(crate) fn new_id_map<V>() -> (made: FxHashMap<u128, V>)
    ensures
        (made@ == Map::<u128, V>::empty()),
{
    FxHashMap::default()
}

/// Looks a key up through `HashMap::get` on a map that hashes by
/// `FxHasher`: the value that the map holds under the key, or nothing
/// where it holds none.
#[verifier::external_body]
pub(crate) fn id_map_get<'a, V>(map: &'a FxHashMap<u128, V>, key: u128) -> (value: Option<&'a V>)
    ensures
        match value {
            Some(value) => map@.contains_key(key) && *value == map@[key],
            None => !map@.contains_key(key),
        },
{
    map.get(&key)
}

/// Asks through `HashMap::contains_key`, on a map that hashes by
/// `FxHasher`, whether the map holds a value under the key.
#[verifier::external_body]
pub(crate) fn id_map_contains<V>(map: &FxHashMap<u128, V>, key: u128) -> (held: bool)
    ensures
        held == map@.contains_key(key),
{
    map.contains_key(&key)
}

/// Puts a value under a key through `HashMap::insert`, on a map that
/// hashes by `FxHasher`: the value stands under the key afterwards, in
/// place of any that stood there, and the other keys keep theirs.
#[verifier::external_body]
pub(crate) fn id_map_insert<V>(map: &mut FxHashMap<u128, V>, key: u128, value: V)
    ensures
        final(map)@ == old(map)@.insert(key, value),
{
    map.insert(key, value);
}

} // verus!
