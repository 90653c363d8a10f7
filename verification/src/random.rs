//! Draws from the standard generator of the `rand` crate.
//!
//! Every worker owns a generator of its own; none is shared. What a draw
//! yields is not known in advance: the contracts in this module state what
//! holds of every outcome, and nothing else.

use crate::chance::Chance;
use rand::rngs::StdRng;
use rand::seq::SliceRandom;
use rand::Rng;
use vstd::prelude::*;

verus! {

/// The standard generator of `rand`. Nothing is known of its state.
#[verifier::external_type_specification]
#[verifier::external_body]
pub struct ExStdRng(StdRng);

/// Calls `rand::Rng::gen_ratio`. Its documentation promises `true` where the
/// numerator equals the denominator and `false` where the numerator is zero;
/// it panics on a zero denominator and on a numerator above the denominator.
#[verifier::external_body]
fn draw_ratio(rng: &mut StdRng, numerator: u32, denominator: u32) -> (hit: bool)
    requires
        0 < denominator,
        numerator <= denominator,
    ensures
        numerator == denominator ==> hit,
        numerator == 0 ==> !hit,
{
    rng.gen_ratio(numerator, denominator)
}

/// Calls `rand::Rng::gen_range` on the half-open range `low..high`, which
/// yields a value of that range and panics where the range is empty.
#[verifier::external_body]
pub(crate) fn draw_range(rng: &mut StdRng, low: usize, high: usize) -> (value: usize)
    requires
        low < high,
    ensures
        low <= value < high,
{
    rng.gen_range(low..high)
}

/// Calls `rand::Rng::gen` for a byte. Any byte may come back.
#[verifier::external_body]
pub(crate) fn draw_byte(rng: &mut StdRng) -> u8 {
    rng.gen()
}

/// Calls `rand::Rng::gen` for a 64-bit number. Any number may come back.
#[verifier::external_body]
pub(crate) fn draw_u64(rng: &mut StdRng) -> u64 {
    rng.gen()
}

/// Draws whether `chance` hits: `true` lets the operator run.
pub fn hits(rng: &mut StdRng, chance: Chance) -> (hit: bool)
    ensures
        chance.certain() ==> hit,
        chance.impossible() ==> !hit,
{
    draw_ratio(rng, chance.numerator(), chance.denominator())
}

/// The items `picked` stand in `pool` at the positions `from`, no position
/// taken twice.
pub open spec fn drawn_from(pool: Seq<Seq<char>>, picked: Seq<Seq<char>>, from: Seq<int>) -> bool {
    &&& from.len() == picked.len()
    &&& forall|j: int| 0 <= j < from.len() ==> 0 <= #[trigger] from[j] < pool.len()
    &&& forall|i: int, j: int|
        0 <= i < j < from.len() ==> #[trigger] from[i] != #[trigger] from[j]
    &&& forall|j: int| 0 <= j < from.len() ==> #[trigger] picked[j] == pool[from[j]]
}

/// Calls `rand::seq::SliceRandom::choose`, which yields `None` for an empty
/// slice and otherwise a reference to one of the slice's elements.
#[verifier::external_body]
pub(crate) fn choose_one<'a>(rng: &mut StdRng, items: &'a [String]) -> (picked: Option<
    &'a String,
>)
    ensures
        items@.len() == 0 ==> picked is None,
        items@.len() > 0 ==> picked is Some,
        picked matches Some(item) ==> exists|i: int|
            0 <= i < items@.len() && item@ == (#[trigger] items@[i])@,
{
    items.choose(rng)
}

/// Calls `rand::seq::SliceRandom::choose_multiple` and clones what it hands
/// out. It yields `amount` elements, or all of them where the slice holds
/// fewer, from distinct positions and in no particular order.
#[verifier::external_body]
pub(crate) fn choose_several(rng: &mut StdRng, items: &[String], amount: usize) -> (picked:
    Vec<String>)
    ensures
        picked@.len() == if amount <= items@.len() { amount as int } else { items@.len() as int },
        exists|from: Seq<int>| drawn_from(items.deep_view(), picked.deep_view(), from),
{
    items.choose_multiple(rng, amount).cloned().collect()
}

} // verus!
