//! Settings of the parser.

use vstd::prelude::*;

verus! {

/// The name of the section that holds the steps written before the first
/// section header.
pub const META_SECTION_NAME: &'static str = "Meta";

} // verus!
