//! The random source and the few draws the simulation makes from it.

use rand::rngs::ThreadRng;
use rand::seq::SliceRandom;
use rand::Rng;
use vstd::prelude::*;

verus! {

/// `rand::rngs::ThreadRng`, made known so that a handle can be passed on.
/// Nothing is known of what it holds.
#[verifier::external_type_specification]
#[verifier::external_body]
pub struct ExThreadRng(ThreadRng);

/// Probabilities are counted in parts per million.
pub const MILLION: u32 = 1_000_000;

/// `rand::thread_rng`: a handle to the generator of the current thread.
/// Nothing is claimed about the handle.
#[verifier::external_body]
pub(crate) fn thread_rng() -> ThreadRng {
    rand::thread_rng()
}

/// `rand::Rng::gen_ratio`: a Bernoulli trial that succeeds with probability
/// `numerator / denominator`. The trial cannot succeed when the numerator is
/// zero and cannot fail when numerator and denominator are equal; for every
/// other ratio either outcome is possible.
#[verifier::external_body]
pub(crate) fn gen_ratio(rng: &mut ThreadRng, numerator: u32, denominator: u32) -> (hit: bool)
    requires
        denominator > 0,
        numerator <= denominator,
    ensures
        numerator == 0 ==> !hit,
        numerator == denominator ==> hit,
{
    rng.gen_ratio(numerator, denominator)
}

/// `rand::Rng::gen_range` on an inclusive range of `u32`: some value of the
/// range.
#[verifier::external_body]
pub(crate) fn gen_range_inclusive(rng: &mut ThreadRng, low: u32, high: u32) -> (n: u32)
    requires
        low <= high,
    ensures
        low <= n <= high,
{
    rng.gen_range(low..=high)
}

/// `rand::seq::SliceRandom::choose`: one of the elements of the slice, or
/// nothing when the slice is empty.
#[verifier::external_body]
pub(crate) fn choose_one(rng: &mut ThreadRng, options: &Vec<usize>) -> (chosen: Option<usize>)
    ensures
        options.len() == 0 ==> chosen is None,
        options.len() > 0 ==> chosen is Some && options@.contains(chosen.unwrap()),
{
    options.choose(rng).copied()
}

/// Whether a probability in parts per million is at most one.
pub open spec fn valid_probability(p: u32) -> bool {
    p <= MILLION
}

/// What a Bernoulli trial with probability `p` makes of a raw draw: certain
/// events do not depend on the draw.
pub open spec fn settle(p: u32, draw: bool) -> bool {
    if p == 0 {
        false
    } else if p >= MILLION {
        true
    } else {
        draw
    }
}

/// A Bernoulli trial with success probability `p` parts per million.
pub fn probabilidad(p: u32, rng: &mut ThreadRng) -> (hit: bool)
    requires
        valid_probability(p),
    ensures
        settle(p, hit) == hit,
        p == 0 ==> !hit,
        p == MILLION ==> hit,
{
    gen_ratio(rng, p, MILLION)
}

} // verus!
