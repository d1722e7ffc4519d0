//! What holds of the container for all contents and all insertions.
//!
//! Each statement is over the model: `inserted` is what one insertion does
//! to the contents, `inserted_all` what a run of insertions does, `place` what
//! a lookup by key finds, and indexing the sequence what a lookup by index
//! finds. The contracts of the container's operations are written over the
//! same functions.

use crate::model::{
    inserted, inserted_all, lemma_held_in_either, lemma_inserted, lemma_place,
    lemma_place_in_extension, place, slot,
};
use vstd::prelude::*;

verus! {

/// Append-only: whatever is inserted afterwards, the number of elements does
/// not go down, every element stays at its index with its contents, and a
/// lookup of a key that was held finds it at the index it had. So what a
/// lookup by index returned once, it returns again after any insertions.
pub proof fn append_only<A>(items: Seq<A>, values: Seq<A>)
    ensures
        inserted_all(items, values).len() >= items.len(),
        items.is_prefix_of(inserted_all(items, values)),
        forall|i: int| 0 <= i < items.len() ==> inserted_all(items, values)[i] == items[i],
        forall|key: A|
            items.contains(key) ==> place(inserted_all(items, values), key) == place(items, key),
    decreases values.len(),
{
    let after = inserted_all(items, values);
    if values.len() > 0 {
        let before = inserted_all(items, values.drop_last());
        append_only(items, values.drop_last());
        lemma_inserted(before, values.last());
    }
    assert forall|key: A| items.contains(key) implies place(after, key) == place(items, key) by {
        lemma_place_in_extension(items, after, key);
    }
}

/// Idempotent insertion: once a value has been inserted, inserting it again
/// changes neither the contents nor any index, and reports the index that the
/// first insertion reported.
pub proof fn insertion_is_idempotent<A>(items: Seq<A>, value: A)
    ensures
        inserted(inserted(items, value), value) == inserted(items, value),
        slot(inserted(items, value), value) == slot(items, value),
        items.contains(value) ==> inserted(items, value) == items,
{
    lemma_inserted(items, value);
    lemma_place(items, value);
}

/// What was inserted is found: a lookup of the value finds it at the index
/// that the insertion reported, and that index holds the value.
pub proof fn inserted_is_found<A>(items: Seq<A>, value: A)
    ensures
        place(inserted(items, value), value) == Some(slot(items, value)),
        0 <= slot(items, value) < inserted(items, value).len(),
        inserted(items, value)[slot(items, value)] == value,
{
    lemma_inserted(items, value);
    lemma_place(inserted(items, value), value);
}

/// Uniqueness: insertions into contents without duplicates leave contents
/// without duplicates.
pub proof fn insertion_keeps_distinct<A>(items: Seq<A>, values: Seq<A>)
    requires
        items.no_duplicates(),
    ensures
        inserted_all(items, values).no_duplicates(),
    decreases values.len(),
{
    if values.len() > 0 {
        insertion_keeps_distinct(items, values.drop_last());
    }
}

/// What a run of insertions leaves behind holds exactly the elements that
/// were held before or inserted since.
pub proof fn insertion_collects<A>(items: Seq<A>, values: Seq<A>)
    ensures
        forall|key: A|
            inserted_all(items, values).contains(key) <==> items.contains(key) || values.contains(
                key,
            ),
    decreases values.len(),
{
    if values.len() > 0 {
        let front = values.drop_last();
        insertion_collects(items, front);
        lemma_inserted(inserted_all(items, front), values.last());
        assert(values == front + seq![values.last()]);
        assert forall|key: A|
            inserted_all(items, values).contains(key) <==> items.contains(key) || values.contains(
                key,
            ) by {
            lemma_held_in_either(front, seq![values.last()], key);
            assert(seq![values.last()][0] == values.last());
        }
    }
}

/// Index and order: in what a run of insertions leaves behind, the elements
/// stand in the order in which each was first seen, counting first what was
/// held before, in its order, and then the inserted values, in theirs.
pub proof fn order_of_first_insertion<A>(items: Seq<A>, values: Seq<A>)
    requires
        items.no_duplicates(),
    ensures
        forall|a: int, b: int|
            0 <= a < b < inserted_all(items, values).len() ==> slot(
                items + values,
                #[trigger] inserted_all(items, values)[a],
            ) < slot(items + values, #[trigger] inserted_all(items, values)[b]),
    decreases values.len(),
{
    let after = inserted_all(items, values);
    let seen = items + values;
    if values.len() == 0 {
        assert forall|a: int, b: int| 0 <= a < b < after.len() implies slot(seen, #[trigger] after[a])
            < slot(seen, #[trigger] after[b]) by {
            position_of_distinct(items, a);
            position_of_distinct(items, b);
        }
    } else {
        let front = values.drop_last();
        let last = values.last();
        let before = inserted_all(items, front);
        let seen_before = items + front;
        assert(seen == seen_before.push(last));
        order_of_first_insertion(items, front);
        insertion_collects(items, front);
        lemma_inserted(before, last);
        assert forall|key: A| before.contains(key) implies slot(seen, key) == slot(
            seen_before,
            key,
        ) && slot(seen_before, key) < seen_before.len() by {
            lemma_held_in_either(items, front, key);
            lemma_place_in_extension(seen_before, seen, key);
            lemma_place(seen_before, key);
        }
        assert forall|a: int, b: int| 0 <= a < b < after.len() implies slot(seen, #[trigger] after[a])
            < slot(seen, #[trigger] after[b]) by {
            assert(before[a] == after[a]);
            if b < before.len() {
                assert(before[b] == after[b]);
            } else {
                assert(after[b] == last && !before.contains(last));
                lemma_held_in_either(items, front, last);
                assert(seen[seen_before.len() as int] == last);
                lemma_place(seen, last);
                let p = place(seen, last).unwrap();
                if p < seen_before.len() {
                    assert(seen_before[p] == last);
                }
            }
        }
    }
}

/// Rebuilding: inserting the elements of contents without duplicates into an
/// empty container, in their order, gives the same contents again. A
/// container that is carried over as the sequence of its elements and built
/// anew from that sequence is therefore equal to the one it was taken from.
pub proof fn rebuilding_is_identity<A>(items: Seq<A>)
    requires
        items.no_duplicates(),
    ensures
        inserted_all(Seq::<A>::empty(), items) == items,
    decreases items.len(),
{
    if items.len() > 0 {
        let front = items.drop_last();
        rebuilding_is_identity(front);
        assert(!front.contains(items.last()));
        assert(front.push(items.last()) == items);
    }
}

/// In contents without duplicates each element's place is its own index.
pub proof fn position_of_distinct<A>(items: Seq<A>, i: int)
    requires
        items.no_duplicates(),
        0 <= i < items.len(),
    ensures
        place(items, items[i]) == Some(i),
        slot(items, items[i]) == i,
{
    lemma_place(items, items[i]);
}

} // verus!
