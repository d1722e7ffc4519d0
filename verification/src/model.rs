//! The mathematical model of the container: a sequence of elements in the
//! order in which they were first inserted.
//!
//! Everything here is ghost code. The contracts of the container are written
//! over these functions, and the lemmas are what its proofs rest on.

use vstd::prelude::*;

verus! {

/// `i` is the place of `key` in `items`: the first index that holds `key`.
pub open spec fn is_place<A>(items: Seq<A>, key: A, i: int) -> bool {
    &&& 0 <= i < items.len()
    &&& items[i] == key
    &&& forall|j: int| 0 <= j < i ==> items[j] != key
}

/// The place of `key` in `items`, or `None` where `items` does not hold it.
pub open spec fn place<A>(items: Seq<A>, key: A) -> Option<int> {
    if items.contains(key) {
        Some(choose|i: int| is_place(items, key, i))
    } else {
        None
    }
}

/// `items` after an insertion of `value`: unchanged where `value` is already
/// held, and with `value` as the new last element where it is not.
pub open spec fn inserted<A>(items: Seq<A>, value: A) -> Seq<A> {
    if items.contains(value) {
        items
    } else {
        items.push(value)
    }
}

/// The index that an insertion of `value` into `items` reports: the place of
/// `value` where it is held, and the length of `items` where it is not.
pub open spec fn slot<A>(items: Seq<A>, value: A) -> int {
    match place(items, value) {
        Some(i) => i,
        None => items.len() as int,
    }
}

/// `items` after the insertion of each of `values`, from first to last.
pub open spec fn inserted_all<A>(items: Seq<A>, values: Seq<A>) -> Seq<A>
    decreases values.len(),
{
    if values.len() == 0 {
        items
    } else {
        inserted(inserted_all(items, values.drop_last()), values.last())
    }
}

/// `key` stands at index `i` of `items` and at no other.
pub open spec fn only_at<A>(items: Seq<A>, key: A, i: int) -> bool {
    &&& 0 <= i < items.len()
    &&& items[i] == key
    &&& forall|j: int| 0 <= j < items.len() && items[j] == key ==> j == i
}

/// A key that is held has exactly one place, and a key that is not has none.
pub proof fn lemma_place<A>(items: Seq<A>, key: A)
    ensures
        match place(items, key) {
            Some(i) => is_place(items, key, i),
            None => !items.contains(key),
        },
        forall|i: int| is_place(items, key, i) ==> place(items, key) == Some(i),
{
    if items.contains(key) {
        items.index_of_first_ensures(key);
        assert(is_place(items, key, items.index_of_first(key).unwrap()));
    }
}

/// The one index at which a key stands is its place.
pub proof fn lemma_only_at_is_place<A>(items: Seq<A>, key: A, i: int)
    requires
        only_at(items, key, i),
    ensures
        place(items, key) == Some(i),
{
    lemma_place(items, key);
}

/// A key that is held by a sequence has the same place in every sequence
/// that starts with it.
pub proof fn lemma_place_in_extension<A>(items: Seq<A>, longer: Seq<A>, key: A)
    requires
        items.is_prefix_of(longer),
        items.contains(key),
    ensures
        place(longer, key) == place(items, key),
{
    lemma_place(items, key);
    let i = place(items, key).unwrap();
    assert(is_place(longer, key, i)) by {
        assert forall|j: int| 0 <= j <= i implies longer[j] == items[j] by {}
    }
    lemma_place(longer, key);
}

/// A key is held by two sequences joined exactly when one of them holds it.
pub proof fn lemma_held_in_either<A>(first: Seq<A>, second: Seq<A>, key: A)
    ensures
        (first + second).contains(key) <==> first.contains(key) || second.contains(key),
{
    let joined = first + second;
    if joined.contains(key) {
        let i = choose|i: int| 0 <= i < joined.len() && joined[i] == key;
        if i < first.len() {
            assert(first[i] == key);
        } else {
            assert(second[i - first.len()] == key);
        }
    }
    if first.contains(key) {
        let i = choose|i: int| 0 <= i < first.len() && first[i] == key;
        assert(joined[i] == key);
    }
    if second.contains(key) {
        let i = choose|i: int| 0 <= i < second.len() && second[i] == key;
        assert(joined[first.len() + i] == key);
    }
}

/// An insertion keeps every element where it was, and puts the inserted value
/// at the index that `slot` gives.
pub proof fn lemma_inserted<A>(items: Seq<A>, value: A)
    ensures
        items.is_prefix_of(inserted(items, value)),
        place(inserted(items, value), value) == Some(slot(items, value)),
        forall|key: A|
            items.contains(key) ==> place(inserted(items, value), key) == place(items, key),
        forall|key: A|
            inserted(items, value).contains(key) <==> items.contains(key) || key == value,
{
    let after = inserted(items, value);
    lemma_place(items, value);
    if !items.contains(value) {
        assert(after == items + seq![value]);
        assert(is_place(after, value, items.len() as int));
        lemma_place(after, value);
        assert forall|key: A|
            after.contains(key) <==> items.contains(key) || key == value by {
            lemma_held_in_either(items, seq![value], key);
            assert(seq![value][0] == value);
        }
    }
    assert forall|key: A| items.contains(key) implies place(after, key) == place(items, key) by {
        lemma_place_in_extension(items, after, key);
    }
}

} // verus!
