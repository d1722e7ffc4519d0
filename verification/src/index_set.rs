//! The container and the contracts of its operations.

use crate::model::{
    inserted, inserted_all, lemma_inserted, lemma_only_at_is_place, lemma_place, place, slot,
};
use crate::store::{
    set_clone, set_get, set_get_full, set_get_index, set_insert_full, set_items, set_len, set_new,
};
use indexmap::IndexSet;
use std::hash::RandomState;
use vstd::prelude::*;

verus! {

/// An append-only set that gives each element the index at which it was first
/// inserted.
///
/// Insertion and lookup are provided for `FrozenIndexSet<String>`; the way to
/// and from the underlying set is open for every element type. The view of a
/// `FrozenIndexSet<String>` is the sequence of its elements, each as its
/// sequence of characters, in the order of their indices. None of the
/// operations on that view takes an element out or moves one; only
/// [`as_mut`](FrozenIndexSet::as_mut) lets a caller do so, on the underlying
/// set itself.
///
/// `in_use` is the reentrancy flag. An insertion raises it before it touches
/// the storage and lowers it when it is done, and every operation requires it
/// to be lowered: no operation starts while one is under way. A lookup reads
/// through a shared reference, during which nothing can change the storage, and
/// leaves the flag as it is. Code that reaches the container through a raw
/// pointer, where no borrow stands for the requirement, tests
/// [`in_use`](FrozenIndexSet::in_use) before each call.
#[derive(Debug)]
#[verifier::reject_recursive_types(T)]
#[verifier::reject_recursive_types(S)]
pub struct FrozenIndexSet<T, S = RandomState> {
    set: IndexSet<T, S>,
    in_use: bool,
}

impl<T, S> FrozenIndexSet<T, S> {
    /// The underlying set.
    pub closed spec fn raw(&self) -> IndexSet<T, S> {
        self.set
    }

    /// Whether the reentrancy flag is raised.
    pub closed spec fn is_in_use(&self) -> bool {
        self.in_use
    }

    /// Whether the reentrancy flag is raised.
    #[verifier::when_used_as_spec(is_in_use)]
    pub fn in_use(&self) -> (b: bool)
        ensures
            b == self.is_in_use(),
    {
        self.in_use
    }

    /// Gives up the container for the underlying set, with everything that the
    /// container held, in the same order.
    pub fn into_set(self) -> (set: IndexSet<T, S>)
        ensures
            set == self.raw(),
    {
        self.set
    }

    /// Direct access to the underlying set.
    ///
    /// The reference is to the very set that the container holds: what the
    /// caller leaves in it is what the container holds when the borrow ends.
    /// Elements can be removed or reordered this way, so an index handed out
    /// before need not be valid afterwards. The flag is not touched.
    pub fn as_mut(&mut self) -> (set: &mut IndexSet<T, S>)
        ensures
            *set == old(self).raw(),
            final(self).raw() == *final(set),
            final(self).in_use() == old(self).in_use(),
    {
        &mut self.set
    }
}

impl<T, S> From<IndexSet<T, S>> for FrozenIndexSet<T, S> {
    /// The container that holds what `set` holds, with the flag lowered.
    fn from(set: IndexSet<T, S>) -> (r: Self)
        ensures
            r.raw() == set,
            !r.in_use(),
    {
        FrozenIndexSet { set, in_use: false }
    }
}

impl<T, S> vstd::std_specs::convert::FromSpecImpl<IndexSet<T, S>> for FrozenIndexSet<T, S> {
    open spec fn obeys_from_spec() -> bool {
        true
    }

    closed spec fn from_spec(set: IndexSet<T, S>) -> Self {
        FrozenIndexSet { set, in_use: false }
    }
}

impl View for FrozenIndexSet<String, RandomState> {
    type V = Seq<Seq<char>>;

    open spec fn view(&self) -> Seq<Seq<char>> {
        set_items(self.raw())
    }
}

impl Default for FrozenIndexSet<String, RandomState> {
    /// The empty container, with the flag lowered.
    fn default() -> (r: Self)
        ensures
            r@ == Seq::<Seq<char>>::empty(),
            !r.in_use(),
    {
        FrozenIndexSet::new()
    }
}

impl FrozenIndexSet<String, RandomState> {
    /// The empty container, with the flag lowered.
    pub fn new() -> (r: Self)
        ensures
            r@ == Seq::<Seq<char>>::empty(),
            !r.in_use(),
    {
        FrozenIndexSet { set: set_new(), in_use: false }
    }

    /// Inserts `value` unless an equal element is held, and returns the
    /// contents of the element that is held afterwards: the one that was there
    /// before, or the new one.
    pub fn insert(&mut self, value: String) -> (r: &str)
        requires
            !old(self).in_use(),
        ensures
            final(self)@ == inserted(old(self)@, value@),
            r@ == value@,
            !final(self).in_use(),
    {
        self.insert_full(value).1
    }

    /// Inserts `value` unless an equal element is held, and returns the index
    /// and the contents of the element that is held afterwards. The index is
    /// that of the element that was there before, or else the number of
    /// elements before the call, at which the new one now stands.
    pub fn insert_full(&mut self, value: String) -> (r: (usize, &str))
        requires
            !old(self).in_use(),
        ensures
            final(self)@ == inserted(old(self)@, value@),
            r.0 == slot(old(self)@, value@),
            final(self)@[r.0 as int] == value@,
            r.1@ == value@,
            !final(self).in_use(),
    {
        let ghost before = self@;
        let ghost v = value@;
        self.in_use = true;
        let (index, _) = set_insert_full(&mut self.set, value);
        let held = set_get_index(&self.set, index);
        self.in_use = false;
        proof {
            lemma_only_at_is_place(self@, v, index as int);
            lemma_inserted(before, v);
        }
        (index, held.unwrap().as_str())
    }

    /// The contents of the element equal to `k`, or `None` where no such
    /// element is held.
    pub fn get(&self, k: &str) -> (r: Option<&str>)
        requires
            !self.in_use(),
        ensures
            r is Some <==> self@.contains(k@),
            r matches Some(t) ==> t@ == k@,
    {
        match set_get(&self.set, k) {
            Some(held) => Some(held.as_str()),
            None => None,
        }
    }

    /// The index and the contents of the element equal to `k`, or `None` where
    /// no such element is held.
    pub fn get_full(&self, k: &str) -> (r: Option<(usize, &str)>)
        requires
            !self.in_use(),
        ensures
            match place(self@, k@) {
                Some(i) => r matches Some((j, t)) && j == i && t@ == k@,
                None => r is None,
            },
    {
        proof {
            lemma_place(self@, k@);
        }
        match set_get_full(&self.set, k) {
            Some((index, held)) => {
                proof {
                    lemma_only_at_is_place(self@, k@, index as int);
                }
                Some((index, held.as_str()))
            },
            None => None,
        }
    }

    /// The contents of the element with the given index, or `None` where the
    /// index is not less than the number of elements.
    pub fn get_index(&self, index: usize) -> (r: Option<&str>)
        requires
            !self.in_use(),
        ensures
            r is Some <==> index < self@.len(),
            r matches Some(t) ==> t@ == self@[index as int],
    {
        match set_get_index(&self.set, index) {
            Some(held) => Some(held.as_str()),
            None => None,
        }
    }

    /// The contents of the element with index `idx`. The index has to be less
    /// than the number of elements; [`get_index`](FrozenIndexSet::get_index)
    /// is the lookup for an index that may be out of range.
    pub fn index(&self, idx: usize) -> (r: &str)
        requires
            !self.in_use(),
            idx < self@.len(),
        ensures
            r@ == self@[idx as int],
    {
        set_get_index(&self.set, idx).unwrap().as_str()
    }

    /// The container that results from inserting the strings of `items` into
    /// an empty one, from first to last: of strings that are equal only the
    /// first is kept.
    pub fn from_iter(items: Vec<String>) -> (r: Self)
        ensures
            r@ == inserted_all(Seq::<Seq<char>>::empty(), items.deep_view()),
            !r.in_use(),
    {
        let ghost values = items.deep_view();
        let mut set = set_new();
        for value in it: items.into_iter()
            invariant
                it.seq() == items@,
                values == items.deep_view(),
                set_items(set) == inserted_all(
                    Seq::<Seq<char>>::empty(),
                    values.take(it.index() as int),
                ),
        {
            proof {
                let k = it.index() as int;
                assert(values.take(k + 1).drop_last() == values.take(k));
            }
            set_insert_full(&mut set, value);
        }
        proof {
            assert(values.take(values.len() as int) == values);
        }
        FrozenIndexSet { set, in_use: false }
    }

    /// Whether the two containers hold the same elements in the same order.
    pub fn eq(&self, other: &Self) -> (b: bool)
        requires
            !self.in_use(),
            !other.in_use(),
        ensures
            b == (self@ == other@),
    {
        let n: usize = set_len(&self.set);
        if n != set_len(&other.set) {
            return false;
        }
        let mut i: usize = 0;
        while i < n
            invariant
                i <= n,
                n == self@.len(),
                n == other@.len(),
                forall|j: int| 0 <= j < i ==> self@[j] == other@[j],
            decreases n - i,
        {
            let mine = set_get_index(&self.set, i).unwrap();
            let theirs = set_get_index(&other.set, i).unwrap();
            if !(*mine == *theirs) {
                return false;
            }
            i = i + 1;
        }
        assert(self@ =~= other@);
        true
    }

    /// A second container with the same elements in the same order, and with
    /// the flag lowered. The two share nothing: an insertion into one leaves
    /// the other as it is.
    pub fn clone(&self) -> (r: Self)
        requires
            !self.in_use(),
        ensures
            r@ == self@,
            !r.in_use(),
    {
        FrozenIndexSet { set: set_clone(&self.set), in_use: false }
    }
}

} // verus!
