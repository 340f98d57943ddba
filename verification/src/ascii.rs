//! Byte values with a fixed meaning in a trailer.

use vstd::prelude::*;

verus! {

/// Fills fixed-width numeric and font fields.
pub const NULL: u8 = 0x00;

/// Marks where a file's own content ends and the trailer begins.
pub const EOF: u8 = 0x1a;

/// Fills fixed-width text fields and comment lines.
pub const SPACE: u8 = 0x20;

} // verus!
