//! The durable form of the table: where it lies, the statements that a
//! backing SQLite store is given, and what its failures mean.

use crate::database::t_images::{rows_of, well_formed, ImageRecord, ImageTable, StoreError};
use vstd::prelude::*;

verus! {

/// Where the database file lies below the data directory of the user.
pub const SQLITE3_PATH: &'static str = "com.surreal.photos/sqlite3/main.sqlite3";

/// Creates the one table, keyed by the image identifier, unless it exists.
pub const CREATE_TABLE: &'static str =
    "CREATE TABLE IF NOT EXISTS images (image_id TEXT PRIMARY KEY, added_date INTEGER NOT NULL)";

/// Adds a row: the identifier, then the time of insertion.
pub const INSERT_ROW: &'static str = "INSERT INTO images (image_id, added_date) VALUES (?1, ?2)";

/// Removes the row of an identifier, if there is one.
pub const DELETE_ROW: &'static str = "DELETE FROM images WHERE image_id = ?1";

/// Reads all rows, newest first; among rows of one time, the last one added
/// first. A time that was stored as text (`YYYY-MM-DD HH:MM:SS`) is read as
/// its seconds since 1970, and as 0 where it cannot be read.
pub const SELECT_ROWS: &'static str =
    "SELECT image_id, CASE typeof(added_date) WHEN 'integer' THEN added_date ELSE COALESCE(CAST(strftime('%s', added_date) AS INTEGER), 0) END AS added FROM images ORDER BY added DESC, rowid DESC";

/// Extended result code of SQLite for a violated primary key.
pub const CONSTRAINT_PRIMARYKEY: i32 = 1555;

/// Extended result code of SQLite for a violated uniqueness constraint.
pub const CONSTRAINT_UNIQUE: i32 = 2067;

/// A failure of the `rusqlite` crate.
#[verifier::external_type_specification]
#[verifier::external_body]
pub struct ExSqliteError(rusqlite::Error);

/// Whether an extended result code reports that a key is already there.
pub open spec fn is_duplicate(code: Option<i32>) -> bool {
    code == Some(CONSTRAINT_PRIMARYKEY) || code == Some(CONSTRAINT_UNIQUE)
}

/// The extended result code that a failure of the `rusqlite` crate carries:
/// that of SQLite where SQLite itself failed, none for any other failure.
pub uninterp spec fn failure_code(error: rusqlite::Error) -> Option<i32>;

/// Tells the variant `SqliteFailure` of `rusqlite::Error` from the others and
/// hands out its field `extended_code`; `None` for every other variant. The
/// contract gives that value its name, `failure_code`.
#[verifier::external_body]
fn extended_code(error: &rusqlite::Error) -> (code: Option<i32>)
    ensures
        code == failure_code(*error),
{
    match error {
        rusqlite::Error::SqliteFailure(failure, _) => Some(failure.extended_code),
        _ => None,
    }
}

/// What a failure of the backing store means, given its extended result code
/// (where SQLite itself failed) and its message: a violated key is a
/// duplicate, anything else a failure of the store with that message.
pub fn classify(code: Option<i32>, message: String) -> (error: StoreError)
    ensures
        error == if is_duplicate(code) {
            StoreError::DuplicateKey
        } else {
            StoreError::Store(message)
        },
{
    match code {
        Some(value) => {
            if value == CONSTRAINT_PRIMARYKEY || value == CONSTRAINT_UNIQUE {
                StoreError::DuplicateKey
            } else {
                StoreError::Store(message)
            }
        },
        None => StoreError::Store(message),
    }
}

/// Message of the failure for stored rows that no run of the table leaves.
pub open spec fn disorder_message() -> Seq<char> {
    "stored rows repeat an identifier or are out of order"@
}

/// The table of the rows that were read with `SELECT_ROWS`. Rows that repeat
/// an identifier, or that do not come newest first, are a failure of the
/// store.
pub fn loaded_table(records: Vec<ImageRecord>) -> (table: Result<ImageTable, StoreError>)
    ensures
        match table {
            Ok(t) => t@ == rows_of(records@) && well_formed(t@),
            Err(error) => {
                &&& !well_formed(rows_of(records@))
                &&& error matches StoreError::Store(message)
                &&& message@ == disorder_message()
            },
        },
{
    match ImageTable::from_records(records) {
        Some(table) => Ok(table),
        None => Err(
            StoreError::Store("stored rows repeat an identifier or are out of order".to_owned()),
        ),
    }
}

/// Maps a failure of the backing store to an error of the library: reads its
/// extended result code and its message, and has `classify` decide. A
/// violated key is a duplicate; any other failure is a failure of the store
/// and keeps the text that the failure itself displays.
pub fn store_error(error: &rusqlite::Error) -> (mapped: StoreError)
    ensures
        mapped is DuplicateKey <==> is_duplicate(failure_code(*error)),
        mapped matches StoreError::Store(message)
            ==> vstd::string::to_string_from_display_ensures::<rusqlite::Error>(error, message),
{
    classify(extended_code(error), error.to_string())
}

} // verus!
