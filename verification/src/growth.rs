//! The Gompertz growth curve, `a * exp(-b * exp(-k * age))`, in fixed-point
//! arithmetic.
//!
//! Fractions are held as integers scaled by `ONE`. The exponential of a
//! non-positive number is taken as a power of a number just below one,
//! `exp(-y) ~ (1 - y / 2^ROUNDS) ^ (2^ROUNDS)`, by squaring `ROUNDS` times.
//! Every step rounds down and is monotone, so the curve never decreases with
//! age, whatever its parameters.

use vstd::prelude::*;

verus! {

/// The fixed-point representation of the number one: two to the sixtieth.
pub const ONE: u128 = 0x1000_0000_0000_0000;

/// How many times the base of the power is squared.
pub const ROUNDS: u32 = 30;

/// Two to the power `ROUNDS`.
pub const STEPS: u128 = 0x4000_0000;

/// The scale of the curve's parameters `b` and `k`: millionths.
pub const MICRO: u128 = 1_000_000;

/// The fixed-point square of a fixed-point number.
pub open spec fn squared(x: int) -> int {
    x * x / (ONE as int)
}

/// `x` squared `rounds` times over.
pub open spec fn raised(x: int, rounds: nat) -> int
    decreases rounds,
{
    if rounds == 0 {
        x
    } else {
        raised(squared(x), (rounds - 1) as nat)
    }
}

/// Two to the power `n`.
pub open spec fn pow2(n: nat) -> int
    decreases n,
{
    if n == 0 {
        1
    } else {
        2 * pow2((n - 1) as nat)
    }
}

/// The fixed-point approximation of `exp(-y)` for a fixed-point `y >= 0`.
pub open spec fn neg_exp(y: int) -> int {
    let step = y / (STEPS as int);
    if step >= ONE {
        0
    } else {
        raised(ONE - step, ROUNDS as nat)
    }
}

/// A growth curve: the asymptotic weight `a` in grams, and the shape `b` and
/// the rate `k` per day in millionths.
#[derive(Clone, Copy, Debug, PartialEq, Eq, Structural)]
pub struct Gompertz {
    pub a: u64,
    pub b: u32,
    pub k: u32,
}

impl Gompertz {
    /// The fixed-point value of `exp(-k * age)`.
    pub open spec fn decay(self, age: nat) -> int {
        neg_exp(self.k * age * ONE / (MICRO as int))
    }

    /// The weight in grams at the given age in days.
    pub open spec fn weight_at(self, age: nat) -> int {
        self.a * neg_exp(self.b * self.decay(age) / (MICRO as int)) / (ONE as int)
    }

    /// The weight at birth, straight from the formula: `a * exp(-b)`.
    pub open spec fn birth_weight(self) -> int {
        self.a * neg_exp(self.b * ONE / (MICRO as int)) / (ONE as int)
    }

    /// The weight in grams at the given age in days.
    pub fn peso(&self, edad: u32) -> (w: u64)
        ensures
            w == self.weight_at(edad as nat),
            w <= self.a,
    {
        let k: u128 = self.k as u128;
        let t: u128 = edad as u128;
        let b: u128 = self.b as u128;
        let a: u128 = self.a as u128;
        assert(k * t <= 0xffff_ffff * 0xffff_ffff) by (nonlinear_arith)
            requires
                k <= 0xffff_ffff,
                t <= 0xffff_ffff,
        ;
        assert(k * t * ONE <= 0xffff_ffff * 0xffff_ffff * ONE) by (nonlinear_arith)
            requires
                k * t <= 0xffff_ffff * 0xffff_ffff,
        ;
        let decay: u128 = neg_exp_fixed(k * t * ONE / MICRO);
        assert(b * decay <= 0xffff_ffff * ONE) by (nonlinear_arith)
            requires
                b <= 0xffff_ffff,
                decay <= ONE,
        ;
        let grown: u128 = neg_exp_fixed(b * decay / MICRO);
        assert(a * grown <= a * ONE) by (nonlinear_arith)
            requires
                grown <= ONE,
        ;
        assert(a * ONE <= 0xffff_ffff_ffff_ffff * ONE) by (nonlinear_arith)
            requires
                a <= 0xffff_ffff_ffff_ffff,
        ;
        assert(a * grown / (ONE as int) <= a) by (nonlinear_arith)
            requires
                a * grown <= a * ONE,
        ;
        (a * grown / ONE) as u64
    }
}

/// The growth curve with the given parameters.
pub fn crecimiento_gompertz(a: u64, b: u32, k: u32) -> (curve: Gompertz)
    ensures
        curve == (Gompertz { a, b, k }),
{
    Gompertz { a, b, k }
}

/// Computes `neg_exp`.
fn neg_exp_fixed(y: u128) -> (r: u128)
    ensures
        r == neg_exp(y as int),
        r <= ONE,
{
    let step: u128 = y / STEPS;
    if step >= ONE {
        return 0;
    }
    let mut x: u128 = ONE - step;
    let mut i: u32 = 0;
    while i < ROUNDS
        invariant
            i <= ROUNDS,
            x <= ONE,
            raised(x as int, (ROUNDS - i) as nat) == neg_exp(y as int),
        decreases ROUNDS - i,
    {
        proof {
            lemma_squared_bounded(x as int);
        }
        assert(x * x <= ONE * ONE) by (nonlinear_arith)
            requires
                x <= ONE,
        ;
        x = x * x / ONE;
        i += 1;
    }
    x
}

/// Squaring keeps a fraction a fraction.
pub proof fn lemma_squared_bounded(x: int)
    requires
        0 <= x <= ONE,
    ensures
        0 <= squared(x) <= ONE,
{
    assert(0 <= x * x <= ONE * ONE) by (nonlinear_arith)
        requires
            0 <= x <= ONE,
    ;
    assert(0 <= x * x / (ONE as int) <= ONE) by (nonlinear_arith)
        requires
            0 <= x * x <= ONE * ONE,
    ;
}

/// Squaring keeps the order of non-negative numbers.
pub proof fn lemma_squared_monotone(x: int, y: int)
    requires
        0 <= x <= y,
    ensures
        0 <= squared(x) <= squared(y),
{
    assert(0 <= x * x <= y * y) by (nonlinear_arith)
        requires
            0 <= x <= y,
    ;
    assert(0 <= x * x / (ONE as int) <= y * y / (ONE as int)) by (nonlinear_arith)
        requires
            0 <= x * x <= y * y,
    ;
}

/// Repeated squaring keeps a fraction a fraction.
pub proof fn lemma_raised_bounded(x: int, rounds: nat)
    requires
        0 <= x <= ONE,
    ensures
        0 <= raised(x, rounds) <= ONE,
    decreases rounds,
{
    if rounds > 0 {
        lemma_squared_bounded(x);
        lemma_raised_bounded(squared(x), (rounds - 1) as nat);
    }
}

/// Repeated squaring keeps the order of non-negative numbers.
pub proof fn lemma_raised_monotone(x: int, y: int, rounds: nat)
    requires
        0 <= x <= y,
    ensures
        0 <= raised(x, rounds) <= raised(y, rounds),
    decreases rounds,
{
    if rounds > 0 {
        lemma_squared_monotone(x, y);
        lemma_raised_monotone(squared(x), squared(y), (rounds - 1) as nat);
    }
}

/// One squared any number of times is one.
pub proof fn lemma_raised_one(rounds: nat)
    ensures
        raised(ONE as int, rounds) == ONE,
    decreases rounds,
{
    if rounds > 0 {
        assert(squared(ONE as int) == ONE) by (nonlinear_arith);
        lemma_raised_one((rounds - 1) as nat);
    }
}

/// The exponential is a fraction.
pub proof fn lemma_neg_exp_bounded(y: int)
    requires
        0 <= y,
    ensures
        0 <= neg_exp(y) <= ONE,
{
    let step = y / (STEPS as int);
    if step < ONE {
        lemma_raised_bounded(ONE - step, ROUNDS as nat);
    }
}

/// The exponential of zero is one.
pub proof fn lemma_neg_exp_zero()
    ensures
        neg_exp(0) == ONE,
{
    lemma_raised_one(ROUNDS as nat);
}

/// The larger the argument, the smaller the exponential.
pub proof fn lemma_neg_exp_antitone(y: int, z: int)
    requires
        0 <= y <= z,
    ensures
        neg_exp(z) <= neg_exp(y),
{
    let sy = y / (STEPS as int);
    let sz = z / (STEPS as int);
    assert(sy <= sz);
    lemma_neg_exp_bounded(y);
    lemma_neg_exp_bounded(z);
    if sz < ONE {
        lemma_raised_monotone(ONE - sz, ONE - sy, ROUNDS as nat);
    }
}

/// Repeated squaring loses at most what Bernoulli's inequality allows: a
/// number that is `d` below one is, after `rounds` squarings, at most
/// `2^rounds * d` below one.
pub proof fn lemma_raised_lower_bound(x: int, rounds: nat)
    requires
        0 <= x <= ONE,
    ensures
        raised(x, rounds) >= ONE - pow2(rounds) * (ONE - x),
    decreases rounds,
{
    if rounds > 0 {
        let d = ONE - x;
        let p = pow2((rounds - 1) as nat);
        lemma_pow2_positive((rounds - 1) as nat);
        lemma_squared_bounded(x);
        lemma_raised_lower_bound(squared(x), (rounds - 1) as nat);
        assert(x * x >= (ONE - 2 * d) * ONE) by (nonlinear_arith)
            requires
                x == ONE - d,
        ;
        assert(squared(x) >= ONE - 2 * d) by (nonlinear_arith)
            requires
                x * x >= (ONE - 2 * d) * ONE,
                squared(x) == x * x / (ONE as int),
        ;
        assert(p * (ONE - squared(x)) <= p * (2 * d)) by (nonlinear_arith)
            requires
                p > 0,
                ONE - squared(x) <= 2 * d,
        ;
        assert(p * (2 * d) == (2 * p) * d) by (nonlinear_arith);
    }
}

/// Repeated squaring shrinks a number at least as fast as the reciprocal
/// does: where `x` is at most `1 / (1 + q)`, `x` squared `rounds` times over
/// is at most `1 / (1 + 2^rounds * q)`.
pub proof fn lemma_raised_upper_bound(x: int, q: int, rounds: nat)
    requires
        0 <= x <= ONE,
        0 <= q,
        x * (ONE + q) <= ONE * ONE,
    ensures
        raised(x, rounds) * (ONE + pow2(rounds) * q) <= ONE * ONE,
    decreases rounds,
{
    if rounds == 0 {
        assert(pow2(0) * q == q) by (nonlinear_arith)
            requires
                pow2(0) == 1,
        ;
    } else {
        let c = ONE as int;
        let b = c + q;
        let y = squared(x);
        lemma_squared_bounded(x);
        assert(y * c <= x * x) by (nonlinear_arith)
            requires
                y == x * x / c,
                c > 0,
        ;
        assert((x * b) * (x * b) <= (c * c) * (c * c)) by (nonlinear_arith)
            requires
                0 <= x * b <= c * c,
        ;
        assert((x * b) * (x * b) == (x * x) * (b * b)) by (nonlinear_arith);
        assert(b * b >= c * (c + 2 * q)) by (nonlinear_arith)
            requires
                b == c + q,
        ;
        assert((x * x) * (c * (c + 2 * q)) <= (x * x) * (b * b)) by (nonlinear_arith)
            requires
                b * b >= c * (c + 2 * q),
                x * x >= 0,
        ;
        assert((y * c) * (c * (c + 2 * q)) <= (x * x) * (c * (c + 2 * q))) by (nonlinear_arith)
            requires
                y * c <= x * x,
                c * (c + 2 * q) >= 0,
        ;
        assert((y * c) * (c * (c + 2 * q)) == (y * (c + 2 * q)) * (c * c)) by (nonlinear_arith);
        assert(y * (c + 2 * q) <= c * c) by (nonlinear_arith)
            requires
                (y * (c + 2 * q)) * (c * c) <= (c * c) * (c * c),
                c * c > 0,
        ;
        lemma_raised_upper_bound(y, 2 * q, (rounds - 1) as nat);
        assert(pow2((rounds - 1) as nat) * (2 * q) == pow2(rounds) * q) by (nonlinear_arith)
            requires
                pow2(rounds) == 2 * pow2((rounds - 1) as nat),
        ;
    }
}

/// Two to the power `ROUNDS` is `STEPS`.
pub proof fn lemma_pow2_rounds()
    ensures
        pow2(ROUNDS as nat) == STEPS,
{
    reveal_with_fuel(pow2, 31);
}

/// A power of two is positive.
pub proof fn lemma_pow2_positive(n: nat)
    ensures
        pow2(n) > 0,
    decreases n,
{
    if n > 0 {
        lemma_pow2_positive((n - 1) as nat);
    }
}

/// The fixed-point exponential keeps within the bounds that hold of the
/// exponential itself, `1 - y <= exp(-y) <= 1 / (1 + y)`, but for the last
/// `STEPS` units of `y`, which it does not see.
pub proof fn lemma_neg_exp_bounds(y: int)
    requires
        0 <= y,
    ensures
        ONE - y <= neg_exp(y),
        neg_exp(y) * (ONE + y - STEPS) <= ONE * ONE,
{
    let step = y / (STEPS as int);
    lemma_neg_exp_bounded(y);
    assert(STEPS * step <= y < STEPS * step + STEPS) by (nonlinear_arith)
        requires
            step == y / (STEPS as int),
            STEPS > 0,
    ;
    if step < ONE {
        lemma_pow2_rounds();
        lemma_raised_lower_bound(ONE - step, ROUNDS as nat);
        assert((ONE - step) * (ONE + step) <= ONE * ONE) by (nonlinear_arith)
            requires
                0 <= step,
        ;
        lemma_raised_upper_bound(ONE - step, step, ROUNDS as nat);
        let e = neg_exp(y);
        assert(e * (ONE + y - STEPS) <= e * (ONE + STEPS * step)) by (nonlinear_arith)
            requires
                0 <= e,
                y - STEPS <= STEPS * step,
        ;
    } else {
        assert(neg_exp(y) * (ONE + y - STEPS) == 0) by (nonlinear_arith)
            requires
                neg_exp(y) == 0,
        ;
    }
}

/// The curve's exponential decay shrinks with age.
pub proof fn lemma_decay_antitone(curve: Gompertz, younger: nat, older: nat)
    requires
        younger <= older,
    ensures
        0 <= curve.decay(older) <= curve.decay(younger) <= ONE,
{
    let k = curve.k as int;
    assert(0 <= k * younger <= k * older) by (nonlinear_arith)
        requires
            0 <= k,
            0 <= younger <= older,
    ;
    assert(0 <= k * younger * ONE <= k * older * ONE) by (nonlinear_arith)
        requires
            0 <= k * younger <= k * older,
    ;
    let y = k * younger * ONE / (MICRO as int);
    let z = k * older * ONE / (MICRO as int);
    assert(0 <= y <= z);
    lemma_neg_exp_antitone(y, z);
    lemma_neg_exp_bounded(y);
    lemma_neg_exp_bounded(z);
}

/// No growth curve ever loses weight with age.
pub proof fn lemma_growth_monotone(curve: Gompertz, younger: nat, older: nat)
    requires
        younger <= older,
    ensures
        0 <= curve.weight_at(younger) <= curve.weight_at(older) <= curve.a,
{
    lemma_decay_antitone(curve, younger, older);
    let b = curve.b as int;
    let a = curve.a as int;
    let dy = curve.decay(younger);
    let dz = curve.decay(older);
    assert(0 <= b * dz <= b * dy) by (nonlinear_arith)
        requires
            0 <= b,
            0 <= dz <= dy,
    ;
    let y = b * dy / (MICRO as int);
    let z = b * dz / (MICRO as int);
    assert(0 <= z <= y);
    lemma_neg_exp_antitone(z, y);
    lemma_neg_exp_bounded(y);
    lemma_neg_exp_bounded(z);
    let gy = neg_exp(y);
    let gz = neg_exp(z);
    assert(0 <= a * gy <= a * gz <= a * ONE) by (nonlinear_arith)
        requires
            0 <= a,
            0 <= gy <= gz <= ONE,
    ;
    assert(a * ONE / (ONE as int) == a) by (nonlinear_arith);
}

/// The weight at age zero is the birth weight of the formula.
pub proof fn lemma_weight_at_birth(curve: Gompertz)
    ensures
        curve.weight_at(0) == curve.birth_weight(),
{
    lemma_neg_exp_zero();
    assert(curve.k * 0 * ONE == 0) by (nonlinear_arith);
    assert(curve.decay(0) == ONE);
}

} // verus!
