//! The marks that part a line into its pieces.

use vstd::prelude::*;

verus! {

/// Between a name and its value: `name: value`.
pub const SEPARATOR: char = ':';

/// Between a name and the value assigned to it: `name = value`.
pub const ASSIGNMENT: char = '=';

/// Opens a list: `[first, second]`.
pub const ARRAY_START: &'static str = "[";

/// Closes a list.
pub const ARRAY_END: char = ']';

/// Between the items of a list and between the arguments of a function.
pub const ITEM: char = ',';

/// Opens the arguments of a function: `name(first=1, second)`.
pub const ARGUMENTS_START: char = '(';

/// Closes the arguments of a function.
pub const ARGUMENTS_END: char = ')';

} // verus!
