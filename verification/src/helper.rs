//! Indentation helpers.

use vstd::prelude::*;

use crate::bytes::{B_SP, B_TAB, repeat_byte, spec_repeat};

verus! {

/// `depth` spaces.
pub fn indent_space(depth: usize) -> (r: Vec<u8>)
    ensures
        r@ == spec_repeat(B_SP, depth as int),
{
    repeat_byte(B_SP, depth)
}

/// `depth` tab characters.
pub fn indent_tab(depth: usize) -> (r: Vec<u8>)
    ensures
        r@ == spec_repeat(B_TAB, depth as int),
{
    repeat_byte(B_TAB, depth)
}

} // verus!
