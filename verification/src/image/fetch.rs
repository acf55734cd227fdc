//! Listing the recorded images.

use crate::database::t_images::{listing, select_all, ImageTable};
use vstd::prelude::*;

verus! {

/// The identifiers of all recorded images, the most recently added first.
pub fn get_image_urls(table: &ImageTable) -> (ids: Vec<String>)
    ensures
        ids@.map_values(|id: String| id@) == listing(table@),
{
    select_all(table)
}

} // verus!
