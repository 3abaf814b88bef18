//! The ordered key set of the `indexmap` crate, used for the ready set of a
//! [`ReadyCache`](crate::ready_cache::ReadyCache).
//!
//! Keys are `u64`, whose equality and hashing std documents. The contents of
//! a set are named by [`index_set_keys`]: the keys in their order of
//! position.

use indexmap::IndexSet;
use std::hash::RandomState;
use vstd::prelude::*;

verus! {

#[verifier::external_type_specification]
#[verifier::external_body]
#[verifier::reject_recursive_types(T)]
#[verifier::reject_recursive_types(S)]
pub struct ExIndexSet<T, S>(IndexSet<T, S>);

/// The keys held by an `IndexSet<u64>`, in order of position.
pub uninterp spec fn index_set_keys(s: IndexSet<u64, RandomState>) -> Seq<u64>;

/// `s` with the entry at `i` replaced by the last entry, and the last entry
/// dropped (what `swap_remove` does to a vector).
pub open spec fn seq_swap_remove<T>(s: Seq<T>, i: int) -> Seq<T> {
    s.update(i, s.last()).drop_last()
}

/// Calls `IndexSet::new`: the new set is empty.
#[verifier::external_body]
pub fn index_set_new() -> (s: IndexSet<u64, RandomState>)
    ensures
        index_set_keys(s) == Seq::<u64>::empty(),
{
    IndexSet::new()
}

/// Calls `IndexSet::len`: the number of keys.
#[verifier::external_body]
pub fn index_set_len(s: &IndexSet<u64, RandomState>) -> (n: usize)
    ensures
        n == index_set_keys(*s).len(),
{
    s.len()
}

/// Calls `IndexSet::insert_full`. A key already present is left at its
/// position and the set is unchanged; a new key is appended at the end. The
/// result is the key's position and whether it was new.
#[verifier::external_body]
pub fn index_set_insert_full(s: &mut IndexSet<u64, RandomState>, key: u64) -> (r: (usize, bool))
    ensures
        index_set_keys(*old(s)).contains(key) ==> index_set_keys(*final(s)) == index_set_keys(
            *old(s),
        ) && !r.1 && r.0 < index_set_keys(*old(s)).len() && index_set_keys(*old(s))[r.0 as int]
            == key,
        !index_set_keys(*old(s)).contains(key) ==> index_set_keys(*final(s)) == index_set_keys(
            *old(s),
        ).push(key) && r.1 && r.0 == index_set_keys(*old(s)).len(),
{
    s.insert_full(key)
}

/// Calls `IndexSet::get_index_of`: the position of `key`, if present.
#[verifier::external_body]
pub fn index_set_get_index_of(s: &IndexSet<u64, RandomState>, key: u64) -> (r: Option<usize>)
    ensures
        r is None <==> !index_set_keys(*s).contains(key),
        r matches Some(i) ==> i < index_set_keys(*s).len() && index_set_keys(*s)[i as int] == key,
{
    s.get_index_of(&key)
}

/// Calls `IndexSet::get_index`: the key at position `i`, if in range.
#[verifier::external_body]
pub fn index_set_get_index(s: &IndexSet<u64, RandomState>, i: usize) -> (r: Option<u64>)
    ensures
        i < index_set_keys(*s).len() ==> r == Some(index_set_keys(*s)[i as int]),
        i >= index_set_keys(*s).len() ==> r is None,
{
    s.get_index(i).copied()
}

/// Calls `IndexSet::swap_remove_index`: removes the key at position `i` by
/// moving the last key into its place, and returns it; out of range, the set
/// is unchanged and the result is `None`.
#[verifier::external_body]
pub fn index_set_swap_remove_index(s: &mut IndexSet<u64, RandomState>, i: usize) -> (r: Option<
    u64,
>)
    ensures
        i < index_set_keys(*old(s)).len() ==> r == Some(index_set_keys(*old(s))[i as int])
            && index_set_keys(*final(s)) == seq_swap_remove(index_set_keys(*old(s)), i as int),
        i >= index_set_keys(*old(s)).len() ==> r is None && index_set_keys(*final(s))
            == index_set_keys(*old(s)),
{
    s.swap_remove_index(i)
}

} // verus!
