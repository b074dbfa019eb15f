use vstd::prelude::*;
use vstd::multiset::Multiset;
use crate::hash::{wyhash_of, WYHASH_SEED};
use crate::istr::IStr;

verus! {

/// A hash table of handles, keyed by each handle's cached wyhash.
///
/// Every handle goes in under its own cached hash and is rehashed with that
/// same hash, so a lookup by the wyhash of a string reaches every handle of
/// that string.
#[verifier::external_body]
pub struct Table {
    t: hashbrown::HashTable<IStr>,
}

/// The handles that a table holds.
pub uninterp spec fn table_items(t: Table) -> Multiset<IStr>;

/// Relies on `hashbrown::HashTable::new`: a new table holds nothing.
#[verifier::external_body]
pub(crate) fn table_new() -> (r: Table)
    ensures
        table_items(r) == Multiset::<IStr>::empty(),
{
    Table { t: hashbrown::HashTable::new() }
}

/// Relies on `hashbrown::HashTable::len`: the number of items held.
#[verifier::external_body]
pub(crate) fn table_len(t: &Table) -> (r: usize)
    ensures
        r == table_items(*t).len(),
{
    t.t.len()
}

/// Relies on `hashbrown::HashTable::find`: it returns an item that the
/// equality test accepts among those held under `hash`, and none only where
/// no such item is held.
#[verifier::external_body]
pub(crate) fn table_find(t: &Table, hash: u64, s: &str) -> (r: Option<IStr>)
    ensures
        r matches Some(v) ==> table_items(*t).contains(v) && v@ == s@,
        r is None ==> forall|v: IStr|
            #![trigger table_items(*t).contains(v)]
            table_items(*t).contains(v) && wyhash_of(v.bytes(), WYHASH_SEED) == hash ==> v@ != s@,
{
    t.t.find(hash, |v| v.has_text(s)).copied()
}

/// Relies on `hashbrown::HashTable::insert_unique`: the item is added under
/// `hash`; items are rehashed with their cached hash when the table grows.
#[verifier::external_body]
pub(crate) fn table_insert(t: &mut Table, hash: u64, v: IStr)
    requires
        hash == wyhash_of(v.bytes(), WYHASH_SEED),
    ensures
        table_items(*final(t)) == table_items(*old(t)).insert(v),
{
    t.t.insert_unique(hash, v, |x| x.wyhash());
}

/// Relies on `hashbrown::HashTable::iter`: every item is visited once.
#[verifier::external_body]
pub(crate) fn table_to_vec(t: &Table) -> (r: Vec<IStr>)
    ensures
        r@.to_multiset() == table_items(*t),
{
    t.t.iter().copied().collect()
}

} // verus!
