//! Maps that hash with FNV.

use std::hash::{BuildHasherDefault, Hash};

use fnv::FnvHashMap;
use vstd::prelude::*;

verus! {

/// The hasher of [`FnvHashMap`], of which nothing is said here.
#[verifier::external_type_specification]
#[verifier::external_body]
pub struct ExFnvHasher(fnv::FnvHasher);

/// The builder of default hashers that [`FnvHashMap`] is made with, of which
/// nothing is said here.
#[verifier::external_type_specification]
#[verifier::external_body]
#[verifier::reject_recursive_types(H)]
pub struct ExBuildHasherDefault<H>(BuildHasherDefault<H>);

/// A key on which `==` means that two keys are the same value, and whose hash
/// depends on that value alone.
pub(crate) trait MapKey {

}

/// `FnvHashMap::default`: an empty map.
#[verifier::external_body]
pub(crate) fn empty_map<K: MapKey + Copy + Eq + Hash, V>() -> (made: FnvHashMap<K, V>)
    ensures
        forall|key: K| !#[trigger] made@.contains_key(key),
{
    FnvHashMap::default()
}

/// `FnvHashMap::get`: the value under the key, if there is one.
#[verifier::external_body]
pub(crate) fn get<'a, K: MapKey + Copy + Eq + Hash, V>(
    map: &'a FnvHashMap<K, V>,
    key: &K,
) -> (value: Option<&'a V>)
    ensures
        match value {
            Some(value) => map@.contains_key(*key) && *value == map@[*key],
            None => !map@.contains_key(*key),
        },
{
    map.get(key)
}

/// `FnvHashMap::insert`: the key holds the value from now on. What it held before
/// is dropped.
#[verifier::external_body]
pub(crate) fn insert<K: MapKey + Copy + Eq + Hash, V>(
    map: &mut FnvHashMap<K, V>,
    key: K,
    value: V,
)
    ensures
        final(map)@ == old(map)@.insert(key, value),
{
    map.insert(key, value);
}

/// `FnvHashMap::remove`: the key is gone, and what it held is handed out.
#[verifier::external_body]
pub(crate) fn remove<K: MapKey + Copy + Eq + Hash, V>(
    map: &mut FnvHashMap<K, V>,
    key: &K,
) -> (value: Option<V>)
    ensures
        final(map)@ == old(map)@.remove(*key),
        match value {
            Some(value) => old(map)@.contains_key(*key) && value == old(map)@[*key],
            None => !old(map)@.contains_key(*key),
        },
{
    map.remove(key)
}

/// `FnvHashMap::keys`: each key of the map once, in an order of which nothing is
/// said.
#[verifier::external_body]
pub(crate) fn keys<K: MapKey + Copy + Eq + Hash, V>(map: &FnvHashMap<K, V>) -> (keys: Vec<K>)
    ensures
        keys@.no_duplicates(),
        forall|key: K| keys@.contains(key) <==> #[trigger] map@.contains_key(key),
{
    map.keys().copied().collect()
}

} // verus!
