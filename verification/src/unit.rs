//! Content units: what a sequence under mutation is made of.

use crate::random::draw_byte;
use rand::rngs::StdRng;
use vstd::prelude::*;

verus! {

/// A unit of content, a byte or a character, that can be drawn afresh.
pub trait ContentUnit: Copy {
    /// The values that a fresh draw can yield.
    spec fn drawable(self) -> bool;

    /// A freshly drawn unit.
    fn draw(rng: &mut StdRng) -> (unit: Self)
        ensures
            unit.drawable(),
    ;
}

impl ContentUnit for u8 {
    /// Every byte can be drawn.
    open spec fn drawable(self) -> bool {
        true
    }

    fn draw(rng: &mut StdRng) -> (unit: u8) {
        draw_byte(rng)
    }
}

impl ContentUnit for char {
    /// The characters of the first 256 code points can be drawn.
    open spec fn drawable(self) -> bool {
        (self as u32) < 256
    }

    fn draw(rng: &mut StdRng) -> (unit: char) {
        let byte: u8 = draw_byte(rng);
        byte as char
    }
}

} // verus!
