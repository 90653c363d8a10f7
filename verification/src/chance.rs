//! The probabilities with which the operators run, kept as exact ratios.

use vstd::prelude::*;

verus! {

/// Share of copies that get truncated, in percent.
pub const TRUNCATE_PERCENT: u32 = 20;

/// Share of copies that lose a few units, in percent.
pub const DELETE_PERCENT: u32 = 50;

/// Share of copies that get a few units overwritten, in percent.
pub const REPLACE_PERCENT: u32 = 50;

/// Share of copies that get content of other files appended, in percent.
pub const SPLICE_PERCENT: u32 = 10;

/// Share of copies that get special words inserted, in percent.
pub const INSERT_PERCENT: u32 = 50;

/// Share of inserted words that get a space in front, in percent.
pub const LEADING_SPACE_PERCENT: u32 = 10;

/// Share of inserted words that get a tab in front, in percent.
pub const LEADING_TAB_PERCENT: u32 = 1;

/// Share of inserted words that get a line break in front, in percent.
pub const LEADING_NEWLINE_PERCENT: u32 = 1;

/// Share of inserted words that get a space behind, in percent.
pub const TRAILING_SPACE_PERCENT: u32 = 30;

/// A probability `numerator / denominator` between zero and one.
#[derive(Clone, Copy, Debug)]
pub struct Chance {
    numerator: u32,
    denominator: u32,
}

impl Chance {
    /// The ratio is a probability: its lower part is not zero and its upper
    /// part is no greater.
    #[verifier::type_invariant]
    pub closed spec fn well_formed(self) -> bool {
        0 < self.denominator && self.numerator <= self.denominator
    }

    /// The ratio's upper part.
    pub closed spec fn upper(self) -> nat {
        self.numerator as nat
    }

    /// The ratio's lower part.
    pub closed spec fn lower(self) -> nat {
        self.denominator as nat
    }

    /// Every draw hits.
    pub open spec fn certain(self) -> bool {
        self.upper() == self.lower()
    }

    /// No draw hits.
    pub open spec fn impossible(self) -> bool {
        self.upper() == 0
    }

    /// The chance `numerator / denominator`, if that is a probability.
    pub fn new(numerator: u32, denominator: u32) -> (chance: Option<Chance>)
        ensures
            chance is Some <==> 0 < denominator && numerator <= denominator,
            chance matches Some(c) ==> c.upper() == numerator && c.lower() == denominator
                && c.well_formed(),
    {
        if denominator == 0 || numerator > denominator {
            None
        } else {
            Some(Chance { numerator, denominator })
        }
    }

    /// The chance of `percent` in a hundred.
    pub fn percent(percent: u32) -> (chance: Chance)
        requires
            percent <= 100,
        ensures
            chance.upper() == percent,
            chance.lower() == 100,
            chance.well_formed(),
    {
        Chance { numerator: percent, denominator: 100 }
    }

    /// The ratio's upper part.
    pub fn numerator(&self) -> (n: u32)
        ensures
            n == self.upper(),
            n <= self.lower(),
    {
        proof {
            use_type_invariant(self);
        }
        self.numerator
    }

    /// The ratio's lower part.
    pub fn denominator(&self) -> (d: u32)
        ensures
            d == self.lower(),
            0 < d,
    {
        proof {
            use_type_invariant(self);
        }
        self.denominator
    }
}

} // verus!
