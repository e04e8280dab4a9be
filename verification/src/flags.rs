//! Flag words: a set of named bits in a 32-bit word.
//!
//! A kind of record names the bits it knows.  A word is read into a set of
//! named booleans and is only accepted if writing that set gives the word
//! back: a bit outside the known ones is never masked away.

use vstd::prelude::*;

verus! {

/// A bit of `mask` is set in `word`.
#[verifier::opaque]
pub open spec fn has_bit(word: u32, mask: u32) -> bool {
    word & mask != 0
}

/// The bits of `mask` if `on`, no bit if not.
#[verifier::opaque]
pub open spec fn bit_if(on: bool, mask: u32) -> u32 {
    if on {
        mask
    } else {
        0
    }
}

/// A bit of `mask` is set in `word`.
pub fn test_bit(word: u32, mask: u32) -> (r: bool)
    ensures
        r == has_bit(word, mask),
{
    reveal(has_bit);
    word & mask != 0
}

/// The bits of `mask` if `on`, no bit if not.
pub fn make_bit(on: bool, mask: u32) -> (r: u32)
    ensures
        r == bit_if(on, mask),
{
    reveal(bit_if);
    if on {
        mask
    } else {
        0
    }
}

} // verus!
