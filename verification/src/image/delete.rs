//! Removing an image from the record.

use crate::database::t_images::{delete, deleted, well_formed, ImageTable};
use vstd::prelude::*;

verus! {

/// Removes an image from the record. This never fails: an identifier that is
/// not recorded is left alone, so that a caller may repeat the call.
pub fn delete_image(table: &mut ImageTable, image_id: &str) -> (done: Result<(), ()>)
    ensures
        done == Ok::<(), ()>(()),
        final(table)@ == deleted(old(table)@, image_id@),
        well_formed(final(table)@),
{
    delete(table, image_id);
    Ok(())
}

} // verus!
