//! Application-wide constants.

use vstd::prelude::*;

verus! {

/// Icon size for search results, in pixels.
pub const ICON_SIZE_SEARCH: u16 = 48;

/// Icon size for package cards, in pixels.
pub const ICON_SIZE_PACKAGE: u16 = 64;

/// Icon size for the details view, in pixels.
pub const ICON_SIZE_DETAILS: u16 = 128;

/// How many results a page renders; the engine itself returns the full
/// ranked set and callers truncate to this.
pub const MAX_RESULTS: usize = 100;

} // verus!
