//! Colours of three channels.

use vstd::prelude::*;

verus! {

/// A colour as red, green and blue.
#[derive(Debug, Clone, Copy, PartialEq, Eq)]
pub struct Color {
    pub rgb: [u8; 3],
}

impl Color {
    /// The colour with the given channels.
    pub fn new(red: u8, green: u8, blue: u8) -> (r: Color)
        ensures
            r.rgb@ == seq![red, green, blue],
    {
        let c = Color { rgb: [red, green, blue] };
        assert(c.rgb@ =~= seq![red, green, blue]);
        c
    }
}

} // verus!
