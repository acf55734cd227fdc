//! What holds of the table of accepted images across several operations.

use crate::database::filters::{lemma_filter_drops, lemma_filter_keeps};
use crate::database::t_images::{
    after_insert, deleted, holds, insert_outcome, inserted, is_id, lemma_inserted_well_formed,
    lemma_newer_count, listing, occurrences, well_formed, Row, StoreError,
};
use vstd::prelude::*;

verus! {

/// Deleting is idempotent: a second deletion of the same identifier changes
/// nothing, and after a deletion the identifier is neither held nor listed.
pub proof fn lemma_delete_idempotent(rows: Seq<Row>, image_id: Seq<char>)
    ensures
        deleted(deleted(rows, image_id), image_id) == deleted(rows, image_id),
        !holds(deleted(rows, image_id), image_id),
        !listing(deleted(rows, image_id)).contains(image_id),
{
    let pred = |row: Row| row.image_id != image_id;
    let once = deleted(rows, image_id);
    assert forall|i: int| 0 <= i < once.len() implies pred(#[trigger] once[i]) by {
        rows.lemma_filter_pred(pred, i);
    }
    lemma_filter_keeps(once, pred);
    assert forall|i: int| 0 <= i < listing(once).len() implies listing(once)[i] != image_id by {
        assert(pred(once[i]));
    }
}

/// A deletion touches no other identifier: what else was held is still held,
/// and nothing else comes to be held.
pub proof fn lemma_delete_keeps_others(rows: Seq<Row>, image_id: Seq<char>, other: Seq<char>)
    requires
        other != image_id,
    ensures
        holds(deleted(rows, image_id), other) == holds(rows, other),
    decreases rows.len(),
{
    reveal(Seq::filter);
    if rows.len() > 0 {
        let front = rows.drop_last();
        lemma_delete_keeps_others(front, image_id, other);
        if holds(front, other) {
            let i = choose|i: int| 0 <= i < front.len() && #[trigger] front[i].image_id == other;
            assert(rows[i].image_id == other);
        }
        if holds(deleted(front, image_id), other) {
            let before = deleted(front, image_id);
            let i = choose|i: int| 0 <= i < before.len() && #[trigger] before[i].image_id == other;
            assert(deleted(rows, image_id)[i].image_id == other);
        }
        if rows.last().image_id == other {
            let after = deleted(rows, image_id);
            assert(after[after.len() - 1].image_id == other);
            assert(rows[rows.len() - 1].image_id == other);
        } else {
            if holds(rows, other) {
                let i = choose|i: int| 0 <= i < rows.len() && #[trigger] rows[i].image_id == other;
                assert(front[i].image_id == other);
            }
            if holds(deleted(rows, image_id), other) {
                let after = deleted(rows, image_id);
                let i = choose|i: int| 0 <= i < after.len() && #[trigger] after[i].image_id == other;
                assert(deleted(front, image_id)[i].image_id == other);
            }
        }
    } else {
        assert(!holds(rows, other));
        assert(!holds(deleted(rows, image_id), other));
    }
}

/// An identifier that stands at one place among identifiers, and at no
/// other, occurs once.
pub proof fn lemma_occurs_once(ids: Seq<Seq<char>>, image_id: Seq<char>, at: int)
    requires
        0 <= at < ids.len(),
        ids[at] == image_id,
        forall|i: int| 0 <= i < ids.len() && i != at ==> #[trigger] ids[i] != image_id,
    ensures
        occurrences(ids, image_id) == 1,
{
    let same = is_id(image_id);
    let front = ids.take(at);
    let middle = seq![ids[at]];
    let back = ids.skip(at + 1);
    assert(ids =~= front + middle + back);
    lemma_filter_drops(front, same);
    lemma_filter_keeps(middle, same);
    lemma_filter_drops(back, same);
    Seq::filter_distributes_over_add(front + middle, back, same);
    Seq::filter_distributes_over_add(front, middle, same);
    assert(ids.filter(same) =~= middle);
}

/// Identifiers are unique: once an identifier has been inserted, a second
/// insertion of it is refused as a duplicate and leaves the table as it was,
/// and the listing holds the identifier exactly once.
pub proof fn lemma_insert_twice(rows: Seq<Row>, image_id: Seq<char>, first: int, second: int)
    requires
        well_formed(rows),
    ensures
        ({
            let once = after_insert(rows, image_id, first);
            &&& well_formed(once)
            &&& insert_outcome(once, image_id) == Err::<(), StoreError>(StoreError::DuplicateKey)
            &&& after_insert(once, image_id, second) == once
            &&& occurrences(listing(once), image_id) == 1
        }),
{
    let once = after_insert(rows, image_id, first);
    if !holds(rows, image_id) {
        lemma_inserted_well_formed(rows, image_id, first);
        rows.lemma_filter_len(|row: Row| row.added_at > first);
        let at = rows.filter(|row: Row| row.added_at > first).len() as int;
        assert(once[at].image_id == image_id);
    }
    let at = choose|i: int| 0 <= i < once.len() && #[trigger] once[i].image_id == image_id;
    let ids = listing(once);
    assert forall|i: int| 0 <= i < ids.len() && i != at implies #[trigger] ids[i] != image_id by {
        if i < at {
            assert(once[i].image_id != once[at].image_id);
        } else {
            assert(once[at].image_id != once[i].image_id);
        }
    }
    lemma_occurs_once(ids, image_id, at);
}

/// An image that is added no earlier than every recorded one is listed first,
/// before the others in their old order.
pub proof fn lemma_newest_goes_first(rows: Seq<Row>, image_id: Seq<char>, now: int)
    requires
        !holds(rows, image_id),
        forall|i: int| 0 <= i < rows.len() ==> (#[trigger] rows[i]).added_at <= now,
    ensures
        after_insert(rows, image_id, now) == seq![(Row { image_id, added_at: now })] + rows,
        listing(after_insert(rows, image_id, now)) == seq![image_id] + listing(rows),
{
    lemma_newer_count(rows, now, 0);
    assert(inserted(rows, image_id, now) =~= seq![Row { image_id, added_at: now }] + rows);
    assert(listing(seq![Row { image_id, added_at: now }] + rows) =~= seq![image_id] + listing(
        rows,
    ));
}

/// Listing is by time of insertion, newest first: three distinct images added
/// to an empty table one after the other are listed in the reverse order.
pub proof fn lemma_listing_order(
    a: Seq<char>,
    b: Seq<char>,
    c: Seq<char>,
    at_a: int,
    at_b: int,
    at_c: int,
)
    requires
        a != b,
        a != c,
        b != c,
        at_a <= at_b <= at_c,
    ensures
        listing(
            after_insert(
                after_insert(after_insert(Seq::<Row>::empty(), a, at_a), b, at_b),
                c,
                at_c,
            ),
        ) == seq![c, b, a],
{
    let none = Seq::<Row>::empty();
    let one = after_insert(none, a, at_a);
    lemma_newest_goes_first(none, a, at_a);
    assert(one =~= seq![Row { image_id: a, added_at: at_a }]);
    let two = after_insert(one, b, at_b);
    lemma_newest_goes_first(one, b, at_b);
    assert(two =~= seq![Row { image_id: b, added_at: at_b }, Row { image_id: a, added_at: at_a }]);
    lemma_newest_goes_first(two, c, at_c);
    let three = after_insert(two, c, at_c);
    assert(listing(three) =~= seq![c, b, a]);
}

/// A table without rows takes any identifier, and then lists that one alone.
pub proof fn lemma_first_insert(image_id: Seq<char>, now: int)
    ensures
        insert_outcome(Seq::<Row>::empty(), image_id) == Ok::<(), StoreError>(()),
        listing(after_insert(Seq::<Row>::empty(), image_id, now)) == seq![image_id],
{
    lemma_newest_goes_first(Seq::<Row>::empty(), image_id, now);
    assert(listing(Seq::<Row>::empty()) =~= Seq::<Seq<char>>::empty());
    assert(seq![image_id] + Seq::<Seq<char>>::empty() =~= seq![image_id]);
}

} // verus!
