//! The colours that the shell asks the terminal for.

use vstd::prelude::*;

verus! {

/// The number of the colour pair that the background is drawn in.
pub const BACKGROUND: i16 = 1;

/// The attribute that selects the colour pair `pair`: the number of the pair,
/// as 32 bits, moved up past the eight bits that hold the character.
pub open spec fn pair_attribute(pair: i16) -> u32 {
    (pair as u32) << 8u32
}

/// Calls `ncurses::COLOR_PAIR`, which turns the number of a colour pair into
/// the attribute that selects it: it takes the number as 32 bits and shifts
/// it left by eight. The contract claims that value, widened to 64 bits.
#[verifier::external_body]
fn color_pair(pair: i16) -> (attribute: u64)
    ensures
        attribute == pair_attribute(pair),
{
    ncurses::COLOR_PAIR(pair) as u64
}

/// The attribute that the background of the terminal is set to: the one of
/// the colour pair `BACKGROUND`.
pub fn background() -> (attribute: u64)
    ensures
        attribute == pair_attribute(BACKGROUND),
        attribute == 256,
{
    assert(pair_attribute(1i16) == 256u32) by {
        assert((1u32 << 8u32) == 256u32) by (bit_vector);
    }
    color_pair(BACKGROUND)
}

} // verus!
