//! The marks of navigation.

use vstd::prelude::*;

verus! {

/// Goes to a section and comes back: `=><= name`.
pub const BOUNCE: &'static str = "=><=";

/// Goes to a section for good: `=> name`.
pub const JUMP: &'static str = "=>";

/// The target that ends the current branch.
pub const END: &'static str = "end";

/// The target that ends the whole session.
pub const TERMINATE: &'static str = "terminate";

} // verus!
