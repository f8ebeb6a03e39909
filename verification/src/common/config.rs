use vstd::prelude::*;

verus! {

/// Number of a page inside the data file.
pub type PageId = i32;

/// Size of a data page in bytes.
pub const PAGE_SIZE: usize = 4096;

/// The page id that names no page.
pub const INVALID_PAGE_ID: PageId = -1;

} // verus!
