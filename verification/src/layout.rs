//! Fixed sizes of the XVD on-disk layout.

use vstd::prelude::*;

verus! {

/// Size of an XVD page in bytes.
pub const PAGE_SIZE: usize = 4096;

/// Length of one hash entry in a hash-tree page.
pub const HASH_ENTRY_LENGTH: usize = 24;

/// Number of whole hash entries that fit in one page.
pub const HASH_ENTRIES_IN_PAGE: usize = 170;

} // verus!
