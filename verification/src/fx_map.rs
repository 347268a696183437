//! Access to the `FxHashMap` dictionaries of the crate.
//!
//! `FxHashMap` is std's hash map with the hasher of `rustc_hash`. The functions below are the
//! only places where such a map is read or changed by key or walked; each states what the call
//! does to the map's contents, taken by the view of its keys.
use rustc_hash::{FxBuildHasher, FxHashMap};
use std::borrow::Borrow;
use std::hash::Hash;
use vstd::prelude::*;

verus! {

/// The hasher that makes a std hash map an `FxHashMap`.
#[verifier::external_type_specification]
#[verifier::external_body]
pub struct ExFxBuildHasher(FxBuildHasher);

/// The key types of the crate's dictionaries. For each of them `==` and `Hash` agree with
/// equality of views, and a borrowed key has the view of the key that it was borrowed from.
pub trait MapKey: View + Eq + Hash {

}

/// TeamSpeak client ids.
impl MapKey for u16 {

}

/// TeamSpeak UIDs.
impl MapKey for String {

}

/// The contents of a dictionary: the view of each key, with the value stored under it.
pub open spec fn keyed<K: View, V>(m: FxHashMap<K, V>) -> Map<K::V, V> {
    Map::new(
        |s: K::V| exists|k: K| #[trigger] m@.contains_key(k) && k@ == s,
        |s: K::V| m@[choose|k: K| #[trigger] m@.contains_key(k) && k@ == s],
    )
}

/// The value that a dictionary holds under a key, if any.
pub open spec fn lookup<A, V>(m: Map<A, V>, key: A) -> Option<V> {
    if m.contains_key(key) {
        Some(m[key])
    } else {
        None
    }
}

/// `HashMap::get` of an `FxHashMap`: the value stored under the key, if there is one.
#[verifier::external_body]
pub(crate) fn get<'a, K: MapKey + Borrow<Q>, Q: Hash + Eq + View<V = <K as View>::V> + ?Sized, V>(
    m: &'a FxHashMap<K, V>,
    key: &Q,
) -> (found: Option<&'a V>)
    ensures
        match found {
            Some(value) => keyed(*m).contains_key(key@) && *value == keyed(*m)[key@],
            None => !keyed(*m).contains_key(key@),
        },
{
    m.get(key)
}

/// `HashMap::get_mut` of an `FxHashMap`: the value stored under the key, to be changed in place;
/// nothing else changes.
#[verifier::external_body]
pub(crate) fn get_mut<
    'a,
    K: MapKey + Borrow<Q>,
    Q: Hash + Eq + View<V = <K as View>::V> + ?Sized,
    V,
>(m: &'a mut FxHashMap<K, V>, key: &Q) -> (found: Option<&'a mut V>)
    ensures
        match found {
            Some(value) => keyed(*old(m)).contains_key(key@) && *value == keyed(*old(m))[key@]
                && keyed(*final(m)) == keyed(*old(m)).insert(key@, *final(value)),
            None => !keyed(*old(m)).contains_key(key@) && keyed(*final(m)) == keyed(*old(m)),
        },
{
    m.get_mut(key)
}

/// `HashMap::insert` of an `FxHashMap`: the value is stored under the key, and what was stored
/// there before is handed back.
#[verifier::external_body]
pub(crate) fn insert<K: MapKey, V>(m: &mut FxHashMap<K, V>, key: K, value: V) -> (previous: Option<
    V,
>)
    ensures
        keyed(*final(m)) == keyed(*old(m)).insert(key@, value),
        previous == lookup(keyed(*old(m)), key@),
{
    m.insert(key, value)
}

/// `HashMap::remove` of an `FxHashMap`: the key is gone, and what was stored under it is handed
/// back.
#[verifier::external_body]
pub(crate) fn remove<K: MapKey + Borrow<Q>, Q: Hash + Eq + View<V = <K as View>::V> + ?Sized, V>(
    m: &mut FxHashMap<K, V>,
    key: &Q,
) -> (previous: Option<V>)
    ensures
        keyed(*final(m)) == keyed(*old(m)).remove(key@),
        previous == lookup(keyed(*old(m)), key@),
{
    m.remove(key)
}

/// `HashMap::iter` of an `FxHashMap`, collected: every key once, with its value. The order is
/// the map's own and is left open.
#[verifier::external_body]
pub(crate) fn entries<K: MapKey, V>(m: &FxHashMap<K, V>) -> (all: Vec<(&K, &V)>)
    ensures
        enumerates(all@, keyed(*m)),
{
    m.iter().collect()
}

/// `all` lists the contents of a dictionary: every key once, with its value.
pub open spec fn enumerates<K: View, V>(all: Seq<(&K, &V)>, contents: Map<K::V, V>) -> bool {
    &&& forall|i: int|
        0 <= i < all.len() ==> contents.contains_key((#[trigger] all[i]).0@)
            && contents[all[i].0@] == *all[i].1
    &&& forall|i: int, j: int|
        0 <= i < j < all.len() ==> (#[trigger] all[i]).0@ != (#[trigger] all[j]).0@
    &&& forall|key: K::V| #[trigger]
        contents.contains_key(key) ==> exists|i: int|
            0 <= i < all.len() && (#[trigger] all[i]).0@ == key
}

/// A new dictionary is empty.
pub proof fn lemma_empty<K: View, V>(m: FxHashMap<K, V>)
    requires
        m@ == Map::<K, V>::empty(),
    ensures
        keyed(m) == Map::<K::V, V>::empty(),
{
    assert(keyed(m) =~= Map::<K::V, V>::empty());
}

} // verus!
