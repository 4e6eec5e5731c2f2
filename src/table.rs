//! Insertion-ordered property tables, kept in `indexmap::IndexMap` and keyed
//! by interned key ids.
use vstd::prelude::*;
use indexmap::IndexMap;
use crate::value::Value;

verus! {

#[verifier::external_type_specification]
#[verifier::external_body]
#[verifier::reject_recursive_types(K)]
#[verifier::reject_recursive_types(V)]
#[verifier::reject_recursive_types(S)]
pub struct ExIndexMap<K, V, S>(IndexMap<K, V, S>);

/// The entries of a property table, in insertion order.
pub uninterp spec fn table_entries(m: IndexMap<usize, Value>) -> Seq<(usize, Value)>;

/// No key occurs twice.
pub open spec fn keys_unique(s: Seq<(usize, Value)>) -> bool {
    forall|i: int, j: int| 0 <= i < s.len() && 0 <= j < s.len() && i != j ==> s[i].0 != s[j].0
}

/// Whether some entry has key `k`.
pub open spec fn has_key(s: Seq<(usize, Value)>, k: usize) -> bool {
    exists|i: int| 0 <= i < s.len() && s[i].0 == k
}

/// The index of the last entry with key `k`, or -1.
pub open spec fn find_entry(s: Seq<(usize, Value)>, k: usize) -> int
    decreases s.len(),
{
    if s.len() == 0 {
        -1
    } else if s.last().0 == k {
        s.len() - 1
    } else {
        find_entry(s.drop_last(), k)
    }
}

pub proof fn lemma_find_entry(s: Seq<(usize, Value)>, k: usize)
    ensures
        -1 <= find_entry(s, k) < s.len(),
        find_entry(s, k) >= 0 ==> s[find_entry(s, k)].0 == k,
        find_entry(s, k) == -1 <==> !has_key(s, k),
        keys_unique(s) ==> forall|i: int| 0 <= i < s.len() && s[i].0 == k ==> i == find_entry(s, k),
    decreases s.len(),
{
    if s.len() > 0 {
        lemma_find_entry(s.drop_last(), k);
        if s.last().0 != k {
            if has_key(s, k) {
                let i = choose|i: int| 0 <= i < s.len() && s[i].0 == k;
                assert(s.drop_last()[i].0 == k);
            }
            if has_key(s.drop_last(), k) {
                let i = choose|i: int| 0 <= i < s.drop_last().len() && s.drop_last()[i].0 == k;
                assert(s[i].0 == k);
            }
            if keys_unique(s) {
                assert(keys_unique(s.drop_last()));
                assert forall|i: int| 0 <= i < s.len() && s[i].0 == k implies i == find_entry(s, k) by {
                    assert(s.drop_last()[i].0 == k);
                }
            }
        }
    }
}

/// Relies on `IndexMap::new`: a table with no entries.
#[verifier::external_body]
pub fn table_new() -> (m: IndexMap<usize, Value>)
    ensures
        table_entries(m) == Seq::<(usize, Value)>::empty(),
{
    IndexMap::new()
}

/// Relies on `IndexMap::len`: the number of entries.
#[verifier::external_body]
pub fn table_len(m: &IndexMap<usize, Value>) -> (r: usize)
    ensures
        r == table_entries(*m).len(),
{
    m.len()
}

/// Relies on `IndexMap::get_index_of`: the position of the entry with key
/// `k`, if there is one.
#[verifier::external_body]
pub fn table_index_of(m: &IndexMap<usize, Value>, k: usize) -> (r: Option<usize>)
    ensures
        match r {
            Some(i) => i < table_entries(*m).len() && table_entries(*m)[i as int].0 == k,
            None => !has_key(table_entries(*m), k),
        },
{
    m.get_index_of(&k)
}

/// Relies on `IndexMap::get_index`: the entry at position `i`, if `i` is
/// below the length.
#[verifier::external_body]
pub fn table_get_index(m: &IndexMap<usize, Value>, i: usize) -> (r: Option<(&usize, &Value)>)
    ensures
        r is Some == (i < table_entries(*m).len()),
        r matches Some(p) ==> *p.0 == table_entries(*m)[i as int].0 && *p.1 == table_entries(*m)[i as int].1,
{
    m.get_index(i)
}

/// Relies on `IndexMap::insert`: an entry with an equal key keeps its place
/// and takes the new value; otherwise the entry goes last. Keys stay unique.
#[verifier::external_body]
pub fn table_insert(m: &mut IndexMap<usize, Value>, k: usize, v: Value)
    ensures
        has_key(table_entries(*old(m)), k) ==> exists|i: int|
            0 <= i < table_entries(*old(m)).len() && table_entries(*old(m))[i].0 == k
                && table_entries(*final(m)) == table_entries(*old(m)).update(i, (k, v)),
        !has_key(table_entries(*old(m)), k) ==> table_entries(*final(m)) == table_entries(
            *old(m),
        ).push((k, v)),
        keys_unique(table_entries(*old(m))) ==> keys_unique(table_entries(*final(m))),
{
    m.insert(k, v);
}

} // verus!
