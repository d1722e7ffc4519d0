//! The boundary to `indexmap`.
//!
//! The container keeps its elements in an `indexmap::IndexSet`. Verus does not
//! look into that type. This module declares it, gives a name to the
//! sequence of elements that a set of strings holds, and states for each method
//! that the container calls what the method does to that sequence. These
//! contracts are taken from the documentation and the source of `indexmap`;
//! they are believed, not proved.
//!
//! Two strings are the same element exactly when they have the same
//! characters: `String` and `str` compare and hash by their contents.

use crate::model::{inserted, only_at};
use indexmap::IndexSet;
use std::hash::RandomState;
use vstd::prelude::*;

verus! {

/// `indexmap::IndexSet`, declared so that it can stand in fields and
/// signatures. Nothing is said of what is inside a value of it.
#[verifier::external_type_specification]
#[verifier::external_body]
#[verifier::reject_recursive_types(T)]
#[verifier::reject_recursive_types(S)]
pub struct ExIndexSet<T, S>(IndexSet<T, S>);

/// The elements of a set of strings, each as its sequence of characters, in
/// the order of the set: the element with index `i` stands at position `i`.
pub uninterp spec fn set_items(set: IndexSet<String, RandomState>) -> Seq<Seq<char>>;

/// `IndexSet::new`: the set that it returns holds nothing.
#[verifier::external_body]
pub(crate) fn set_new() -> (set: IndexSet<String, RandomState>)
    ensures
        set_items(set) == Seq::<Seq<char>>::empty(),
{
    IndexSet::new()
}

/// `IndexSet::len`: the number of elements.
#[verifier::external_body]
pub(crate) fn set_len(set: &IndexSet<String, RandomState>) -> (n: usize)
    ensures
        n == set_items(*set).len(),
{
    set.len()
}

/// `IndexSet::insert_full`: where an equal element is held, the set stays as
/// it is, and the call returns that element's index and `false`; where none is,
/// the value becomes the last element, and the call returns its index and
/// `true`. Either way the index returned is the only one at which an element
/// equal to the value stands afterwards.
#[verifier::external_body]
pub(crate) fn set_insert_full(set: &mut IndexSet<String, RandomState>, value: String) -> (r: (
    usize,
    bool,
))
    ensures
        set_items(*final(set)) == inserted(set_items(*old(set)), value@),
        only_at(set_items(*final(set)), value@, r.0 as int),
        r.1 == !set_items(*old(set)).contains(value@),
{
    set.insert_full(value)
}

/// `IndexSet::get`: the element equal to the key, where one is held.
#[verifier::external_body]
pub(crate) fn set_get<'a>(set: &'a IndexSet<String, RandomState>, key: &str) -> (r: Option<
    &'a String,
>)
    ensures
        r is Some <==> set_items(*set).contains(key@),
        r matches Some(s) ==> s@ == key@,
{
    set.get(key)
}

/// `IndexSet::get_full`: the element equal to the key, where one is held, with
/// its index, which is the only index at which such an element stands.
#[verifier::external_body]
pub(crate) fn set_get_full<'a>(set: &'a IndexSet<String, RandomState>, key: &str) -> (r: Option<
    (usize, &'a String),
>)
    ensures
        r is Some <==> set_items(*set).contains(key@),
        r matches Some((i, s)) ==> s@ == key@ && only_at(set_items(*set), key@, i as int),
{
    set.get_full(key)
}

/// `IndexSet::get_index`: the element with the given index, where the index is
/// less than the number of elements.
#[verifier::external_body]
pub(crate) fn set_get_index<'a>(set: &'a IndexSet<String, RandomState>, index: usize) -> (r:
    Option<&'a String>)
    ensures
        r is Some <==> index < set_items(*set).len(),
        r matches Some(s) ==> s@ == set_items(*set)[index as int],
{
    set.get_index(index)
}

/// `Clone::clone` of `IndexSet`: a set with the same elements in the same order.
#[verifier::external_body]
pub(crate) fn set_clone(set: &IndexSet<String, RandomState>) -> (r: IndexSet<String, RandomState>)
    ensures
        set_items(r) == set_items(*set),
{
    set.clone()
}

} // verus!
