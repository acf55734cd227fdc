//! The table of accepted images. One row per image identifier, with the time
//! at which it was added; rows are kept newest first.

use crate::database::filters::{lemma_filter_drops, lemma_filter_keeps, lemma_filter_removes};
use vstd::prelude::*;

verus! {

/// The mathematical content of one row.
pub ghost struct Row {
    pub image_id: Seq<char>,
    pub added_at: int,
}

/// One accepted image: its identifier and the time of its insertion.
#[derive(Debug)]
pub struct ImageRecord {
    pub image_id: String,
    pub added_at: i64,
}

impl View for ImageRecord {
    type V = Row;

    open spec fn view(&self) -> Row {
        Row { image_id: self.image_id@, added_at: self.added_at as int }
    }
}

/// The rows that a sequence of records stands for.
pub open spec fn rows_of(records: Seq<ImageRecord>) -> Seq<Row> {
    records.map_values(|record: ImageRecord| record@)
}

/// Whether some row carries the identifier.
pub open spec fn holds(rows: Seq<Row>, image_id: Seq<char>) -> bool {
    exists|i: int| 0 <= i < rows.len() && #[trigger] rows[i].image_id == image_id
}

/// No identifier occurs in two rows.
pub open spec fn distinct_ids(rows: Seq<Row>) -> bool {
    forall|i: int, j: int|
        0 <= i < j < rows.len() ==> #[trigger] rows[i].image_id != #[trigger] rows[j].image_id
}

/// No row stands before a row that was added later.
pub open spec fn newest_first(rows: Seq<Row>) -> bool {
    forall|i: int, j: int|
        0 <= i <= j < rows.len() ==> #[trigger] rows[i].added_at >= #[trigger] rows[j].added_at
}

/// The invariant of the table.
pub open spec fn well_formed(rows: Seq<Row>) -> bool {
    distinct_ids(rows) && newest_first(rows)
}

/// Number of rows that were added after `now`.
pub open spec fn newer_count(rows: Seq<Row>, now: int) -> nat {
    rows.filter(|row: Row| row.added_at > now).len()
}

/// The rows with a new one put behind every row that is newer than it, and so
/// before every row of its own time: among equals, the last one added comes
/// first.
pub open spec fn inserted(rows: Seq<Row>, image_id: Seq<char>, now: int) -> Seq<Row> {
    rows.insert(newer_count(rows, now) as int, Row { image_id, added_at: now })
}

/// The rows without those that carry the identifier.
pub open spec fn deleted(rows: Seq<Row>, image_id: Seq<char>) -> Seq<Row> {
    rows.filter(|row: Row| row.image_id != image_id)
}

/// The identifiers of the rows, in the order of the rows.
pub open spec fn listing(rows: Seq<Row>) -> Seq<Seq<char>> {
    rows.map_values(|row: Row| row.image_id)
}

/// The test for being the given identifier.
pub open spec fn is_id(image_id: Seq<char>) -> spec_fn(Seq<char>) -> bool {
    |id: Seq<char>| id == image_id
}

/// How often an identifier occurs among identifiers.
pub open spec fn occurrences(ids: Seq<Seq<char>>, image_id: Seq<char>) -> nat {
    ids.filter(is_id(image_id)).len()
}

/// Why the store refused or failed.
#[derive(Debug)]
pub enum StoreError {
    /// The identifier is already recorded.
    DuplicateKey,
    /// The backing store could not be opened, read or written.
    Store(String),
}

/// The text that a caller is shown for a failure of the store. A duplicate
/// is worded as the backing store words it.
pub open spec fn store_failure_text(error: StoreError) -> Seq<char> {
    match error {
        StoreError::DuplicateKey => "UNIQUE constraint failed: images.image_id"@,
        StoreError::Store(message) => message@,
    }
}

impl StoreError {
    /// Renders the failure as text.
    pub fn message(&self) -> (text: String)
        ensures
            text@ == store_failure_text(*self),
    {
        match self {
            StoreError::DuplicateKey => "UNIQUE constraint failed: images.image_id".to_owned(),
            StoreError::Store(message) => message.clone(),
        }
    }
}

/// What `insert` answers on a table with these rows.
pub open spec fn insert_outcome(rows: Seq<Row>, image_id: Seq<char>) -> Result<(), StoreError> {
    if holds(rows, image_id) {
        Err(StoreError::DuplicateKey)
    } else {
        Ok(())
    }
}

/// The rows that `insert` leaves: unchanged where the identifier is already
/// recorded.
pub open spec fn after_insert(rows: Seq<Row>, image_id: Seq<char>, now: int) -> Seq<Row> {
    if holds(rows, image_id) {
        rows
    } else {
        inserted(rows, image_id, now)
    }
}

/// In rows kept newest first, the rows newer than `now` are those before the
/// first row that is not.
pub proof fn lemma_newer_count(rows: Seq<Row>, now: int, at: int)
    requires
        0 <= at <= rows.len(),
        forall|i: int| 0 <= i < at ==> (#[trigger] rows[i]).added_at > now,
        forall|i: int| at <= i < rows.len() ==> (#[trigger] rows[i]).added_at <= now,
    ensures
        newer_count(rows, now) == at,
{
    let pred = |row: Row| row.added_at > now;
    let front = rows.take(at);
    let back = rows.skip(at);
    assert(rows =~= front + back);
    lemma_filter_keeps(front, pred);
    lemma_filter_drops(back, pred);
    Seq::filter_distributes_over_add(front, back, pred);
    assert(front + Seq::<Row>::empty() =~= front);
}

/// In rows kept newest first, exactly the first `newer_count` rows are newer
/// than `now`.
pub proof fn lemma_split_by_time(rows: Seq<Row>, now: int)
    requires
        newest_first(rows),
    ensures
        newer_count(rows, now) <= rows.len(),
        forall|i: int| 0 <= i < newer_count(rows, now) ==> (#[trigger] rows[i]).added_at > now,
        forall|i: int|
            newer_count(rows, now) <= i < rows.len() ==> (#[trigger] rows[i]).added_at <= now,
    decreases rows.len(),
{
    if rows.len() > 0 {
        let front = rows.drop_last();
        if rows.last().added_at > now {
            assert forall|i: int| 0 <= i < rows.len() implies (#[trigger] rows[i]).added_at
                > now by {
                assert(rows[i].added_at >= rows[rows.len() - 1].added_at);
            }
            lemma_newer_count(rows, now, rows.len() as int);
        } else {
            lemma_split_by_time(front, now);
            assert(newer_count(rows, now) == newer_count(front, now)) by {
                reveal(Seq::filter);
            }
            assert forall|i: int| 0 <= i < newer_count(rows, now) implies (#[trigger] rows[i]).added_at
                > now by {
                assert(front[i].added_at > now);
            }
            assert forall|i: int| newer_count(rows, now) <= i < rows.len() implies (
            #[trigger] rows[i]).added_at <= now by {
                if i < front.len() {
                    assert(front[i].added_at <= now);
                }
            }
        }
    } else {
        assert(newer_count(rows, now) == 0) by {
            reveal(Seq::filter);
        }
    }
}

/// Inserting an identifier that is not yet recorded keeps the invariant.
pub proof fn lemma_inserted_well_formed(rows: Seq<Row>, image_id: Seq<char>, now: int)
    requires
        well_formed(rows),
        !holds(rows, image_id),
    ensures
        well_formed(inserted(rows, image_id, now)),
{
    let at = newer_count(rows, now) as int;
    let next = inserted(rows, image_id, now);
    // The rows before `at` are newer than `now`, the rows from `at` on are not.
    lemma_split_by_time(rows, now);
    assert forall|i: int, j: int| 0 <= i < j < next.len() implies #[trigger] next[i].image_id
        != #[trigger] next[j].image_id by {
        let a = if i < at { i } else { i - 1 };
        let b = if j < at { j } else { j - 1 };
        if i == at {
            assert(rows[b].image_id != image_id);
        } else if j == at {
            assert(rows[a].image_id != image_id);
        } else {
            assert(rows[a].image_id != rows[b].image_id);
        }
    }
    assert forall|i: int, j: int| 0 <= i <= j < next.len() implies #[trigger] next[i].added_at
        >= #[trigger] next[j].added_at by {
        let a = if i < at { i } else { i - 1 };
        let b = if j < at { j } else { j - 1 };
        if i == at && j == at {
        } else if i == at {
            assert(rows[b].added_at <= now);
        } else if j == at {
            assert(rows[a].added_at > now);
        } else {
            assert(rows[a].added_at >= rows[b].added_at);
        }
    }
}

/// Taking a row out keeps the invariant.
pub proof fn lemma_removed_well_formed(rows: Seq<Row>, at: int)
    requires
        well_formed(rows),
        0 <= at < rows.len(),
    ensures
        well_formed(rows.remove(at)),
{
    let next = rows.remove(at);
    assert forall|i: int, j: int| 0 <= i < j < next.len() implies #[trigger] next[i].image_id
        != #[trigger] next[j].image_id by {
        let a = if i < at { i } else { i + 1 };
        let b = if j < at { j } else { j + 1 };
        assert(rows[a].image_id != rows[b].image_id);
    }
    assert forall|i: int, j: int| 0 <= i <= j < next.len() implies #[trigger] next[i].added_at
        >= #[trigger] next[j].added_at by {
        let a = if i < at { i } else { i + 1 };
        let b = if j < at { j } else { j + 1 };
        assert(rows[a].added_at >= rows[b].added_at);
    }
}

/// The accepted images, as plain values. The table owns the list for as long
/// as it lives; a backing store keeps it between runs.
pub struct ImageTable {
    records: Vec<ImageRecord>,
}

impl View for ImageTable {
    type V = Seq<Row>;

    closed spec fn view(&self) -> Seq<Row> {
        rows_of(self.records@)
    }
}

/// Index of the record with the identifier.
fn position_of(records: &Vec<ImageRecord>, key: &String) -> (at: Option<usize>)
    ensures
        match at {
            Some(i) => i < records@.len() && records@[i as int].image_id@ == key@,
            None => !holds(rows_of(records@), key@),
        },
{
    let mut i: usize = 0;
    while i < records.len()
        invariant
            i <= records@.len(),
            forall|j: int| 0 <= j < i ==> (#[trigger] records@[j]).image_id@ != key@,
        decreases records@.len() - i,
    {
        if records[i].image_id == *key {
            return Some(i);
        }
        i += 1;
    }
    assert(!holds(rows_of(records@), key@)) by {
        assert forall|j: int| 0 <= j < rows_of(records@).len() implies (#[trigger] rows_of(
            records@,
        )[j]).image_id != key@ by {
            assert(rows_of(records@)[j] == records@[j]@);
        }
    }
    None
}

/// Index of the first record that is not newer than `now`.
fn slot_for(records: &Vec<ImageRecord>, now: i64) -> (at: usize)
    ensures
        at <= records@.len(),
        forall|j: int| 0 <= j < at ==> (#[trigger] records@[j]).added_at > now,
        at < records@.len() ==> records@[at as int].added_at <= now,
{
    let mut i: usize = 0;
    while i < records.len() && records[i].added_at > now
        invariant
            i <= records@.len(),
            forall|j: int| 0 <= j < i ==> (#[trigger] records@[j]).added_at > now,
        decreases records@.len() - i,
    {
        i += 1;
    }
    i
}

/// Index below `end` of a record with the identifier of the record at `end`.
fn position_before(records: &Vec<ImageRecord>, end: usize) -> (at: Option<usize>)
    requires
        end < records@.len(),
    ensures
        match at {
            Some(j) => j < end && records@[j as int].image_id@ == records@[end as int].image_id@,
            None => forall|j: int|
                0 <= j < end ==> (#[trigger] records@[j]).image_id@
                    != records@[end as int].image_id@,
        },
{
    let mut j: usize = 0;
    while j < end
        invariant
            j <= end < records@.len(),
            forall|k: int|
                0 <= k < j ==> (#[trigger] records@[k]).image_id@ != records@[end as int].image_id@,
        decreases end - j,
    {
        if records[j].image_id == records[end].image_id {
            return Some(j);
        }
        j += 1;
    }
    None
}

impl ImageTable {
    #[verifier::type_invariant]
    spec fn valid(self) -> bool {
        well_formed(self@)
    }

    /// A table without rows.
    pub fn new() -> (table: ImageTable)
        ensures
            table@ == Seq::<Row>::empty(),
    {
        let table = ImageTable { records: Vec::new() };
        assert(table@ =~= Seq::<Row>::empty());
        table
    }

    /// Number of rows.
    pub fn len(&self) -> (n: usize)
        ensures
            n == self@.len(),
            well_formed(self@),
    {
        proof {
            use_type_invariant(self);
        }
        self.records.len()
    }

    /// Takes rows as a backing store hands them over, newest first. `None`
    /// where an identifier occurs twice or a row stands before a newer one.
    pub fn from_records(records: Vec<ImageRecord>) -> (table: Option<ImageTable>)
        ensures
            match table {
                Some(t) => t@ == rows_of(records@) && well_formed(t@),
                None => !well_formed(rows_of(records@)),
            },
    {
        let ghost rows = rows_of(records@);
        let mut i: usize = 0;
        while i < records.len()
            invariant
                i <= records@.len(),
                rows == rows_of(records@),
                well_formed(rows.take(i as int)),
            decreases records@.len() - i,
        {
            assert(rows[i as int] == records@[i as int]@);
            if i > 0 {
                assert(rows[i - 1] == records@[i - 1]@);
                if records[i - 1].added_at < records[i].added_at {
                    assert(rows[i - 1].added_at < rows[i as int].added_at);
                    return None;
                }
            }
            if position_before(&records, i).is_some() {
                proof {
                    let j = choose|j: int|
                        0 <= j < i && records@[j].image_id@ == records@[i as int].image_id@;
                    assert(rows[j] == records@[j]@);
                    assert(rows[j].image_id == rows[i as int].image_id);
                }
                return None;
            }
            proof {
                let next = rows.take(i + 1);
                assert forall|a: int, b: int| 0 <= a < b < next.len() implies #[trigger] next[a].image_id
                    != #[trigger] next[b].image_id by {
                    if b < i {
                        assert(rows.take(i as int)[a].image_id != rows.take(i as int)[b].image_id);
                    } else {
                        assert(rows[a] == records@[a]@);
                    }
                }
                assert forall|a: int, b: int| 0 <= a <= b < next.len() implies #[trigger] next[a].added_at
                    >= #[trigger] next[b].added_at by {
                    if b < i {
                        assert(rows.take(i as int)[a].added_at >= rows.take(i as int)[b].added_at);
                    } else if a < i {
                        assert(rows.take(i as int)[a].added_at >= rows.take(i as int)[i
                            - 1].added_at);
                    }
                }
            }
            i += 1;
        }
        assert(rows.take(i as int) =~= rows);
        Some(ImageTable { records })
    }
}

/// Records an image as added at `now`. An identifier that is already recorded
/// is refused, and the table stays as it was.
pub fn insert(table: &mut ImageTable, image_id: &str, now: i64) -> (outcome: Result<
    (),
    StoreError,
>)
    ensures
        outcome == insert_outcome(old(table)@, image_id@),
        final(table)@ == after_insert(old(table)@, image_id@, now as int),
        well_formed(final(table)@),
{
    proof {
        use_type_invariant(&*table);
    }
    let key = image_id.to_owned();
    if position_of(&table.records, &key).is_some() {
        proof {
            let i = choose|i: int| 0 <= i < table.records@.len() && table.records@[i].image_id@ == key@;
            assert(rows_of(table.records@)[i].image_id == key@);
        }
        return Err(StoreError::DuplicateKey);
    }
    let at = slot_for(&table.records, now);
    let record = ImageRecord { image_id: key, added_at: now };
    proof {
        let rows = rows_of(table.records@);
        assert forall|i: int| 0 <= i < at implies (#[trigger] rows[i]).added_at > now by {
            assert(rows[i] == table.records@[i]@);
        }
        assert forall|i: int| at <= i < rows.len() implies (#[trigger] rows[i]).added_at
            <= now by {
            assert(rows[at as int] == table.records@[at as int]@);
            assert(rows[at as int].added_at >= rows[i].added_at);
        }
        lemma_newer_count(rows, now as int, at as int);
        assert(rows_of(table.records@.insert(at as int, record)) =~= inserted(
            rows,
            image_id@,
            now as int,
        ));
        lemma_inserted_well_formed(rows, image_id@, now as int);
    }
    let mut records: Vec<ImageRecord> = Vec::new();
    core::mem::swap(&mut table.records, &mut records);
    records.insert(at, record);
    table.records = records;
    Ok(())
}

/// Removes the row of an image. An identifier that is not recorded is no
/// error: the table stays as it was.
pub fn delete(table: &mut ImageTable, image_id: &str)
    ensures
        final(table)@ == deleted(old(table)@, image_id@),
        well_formed(final(table)@),
{
    proof {
        use_type_invariant(&*table);
    }
    let key = image_id.to_owned();
    let ghost rows = rows_of(table.records@);
    let ghost pred = |row: Row| row.image_id != image_id@;
    match position_of(&table.records, &key) {
        Some(at) => {
            proof {
                assert(rows[at as int] == table.records@[at as int]@);
                lemma_filter_removes(rows, pred, at as int);
                assert(rows_of(table.records@.remove(at as int)) =~= rows.remove(at as int));
                lemma_removed_well_formed(rows, at as int);
            }
            let mut records: Vec<ImageRecord> = Vec::new();
            core::mem::swap(&mut table.records, &mut records);
            records.remove(at);
            table.records = records;
        },
        None => {
            proof {
                lemma_filter_keeps(rows, pred);
            }
        },
    }
}

/// The identifiers of all recorded images, the most recently added first.
pub fn select_all(table: &ImageTable) -> (ids: Vec<String>)
    ensures
        ids@.map_values(|id: String| id@) == listing(table@),
{
    let mut ids: Vec<String> = Vec::new();
    let mut i: usize = 0;
    while i < table.records.len()
        invariant
            i <= table.records@.len(),
            ids@.len() == i,
            forall|j: int| 0 <= j < i ==> (#[trigger] ids@[j])@ == table.records@[j].image_id@,
        decreases table.records@.len() - i,
    {
        ids.push(table.records[i].image_id.clone());
        i += 1;
    }
    assert(ids@.map_values(|id: String| id@) =~= listing(table@));
    ids
}

} // verus!
