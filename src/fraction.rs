//! Fixed-point fractions in parts per billion and parts per hundred.
//!
//! The arithmetic is done by `sp_arithmetic`'s `Perbill` and `Percent`; the types
//! here hold the number of parts as a plain integer so that contracts can speak of it.

use sp_arithmetic::traits::Saturating;
use sp_arithmetic::{Perbill, Percent};
use vstd::prelude::*;

verus! {

/// Denominator of a `PerBillion`.
pub const BILLION: u32 = 1_000_000_000;

/// Denominator of a `PerHundred`.
pub const HUNDRED: u8 = 100;

/// Parts out of `accuracy` that `from_rational_approximation(p, q)` yields: the
/// denominator is taken to be at least one and the numerator at most the denominator;
/// both are divided by `ceil(q / accuracy)` so they fit, and the quotient is scaled
/// to `accuracy` with rounding down.
pub open spec fn rational_parts(p: int, q: int, accuracy: int) -> int {
    let q1 = if q < 1 { 1 } else { q };
    let p1 = if p < q1 { p } else { q1 };
    let f0 = (q1 + accuracy - 1) / accuracy;
    let factor = if f0 < 1 { 1 } else { f0 };
    (p1 / factor) * accuracy / (q1 / factor)
}

/// `ceil(x * parts / accuracy)`.
pub open spec fn mul_ceil_parts(parts: int, accuracy: int, x: int) -> int {
    (x * parts + accuracy - 1) / accuracy
}

/// `floor(x * parts / accuracy)`.
pub open spec fn mul_floor_parts(parts: int, accuracy: int, x: int) -> int {
    x * parts / accuracy
}

/// A per-billion fraction of `base` parts multiplied by itself `exp` times, starting
/// from one and rounding down after each step.
pub open spec fn pow_parts(base: int, exp: nat) -> int
    decreases exp,
{
    if exp == 0 {
        BILLION as int
    } else {
        pow_parts(base, (exp - 1) as nat) * base / (BILLION as int)
    }
}

/// Parts of `base` raised to `exp`: zero stays zero, anything else follows `pow_parts`.
pub open spec fn saturating_pow_parts(base: int, exp: nat) -> int {
    if base == 0 {
        0
    } else {
        pow_parts(base, exp)
    }
}

/// Relies on `Perbill::from_rational_approximation`, read back with `deconstruct`.
#[verifier::external_body]
fn perbill_from_rational(p: u128, q: u128) -> (r: u32)
    ensures
        r == rational_parts(p as int, q as int, BILLION as int),
{
    Perbill::from_rational_approximation(p, q).deconstruct()
}

/// Relies on `Perbill::saturating_pow`: one multiplication per unit of `exp`, each
/// rounded down, stopping once the value is zero; zero and one are returned unchanged.
#[verifier::external_body]
fn perbill_saturating_pow(parts: u32, exp: usize) -> (r: u32)
    requires
        parts <= BILLION,
    ensures
        r == saturating_pow_parts(parts as int, exp as nat),
{
    Perbill::from_parts(parts).saturating_pow(exp).deconstruct()
}

/// Relies on `Perbill::mul_ceil`: `x * parts / 10^9` rounded up, computed without overflow.
#[verifier::external_body]
fn perbill_mul_ceil(parts: u32, x: u128) -> (r: u128)
    requires
        parts <= BILLION,
    ensures
        r == mul_ceil_parts(parts as int, BILLION as int, x as int),
{
    Perbill::from_parts(parts).mul_ceil(x)
}

/// Relies on `Percent::from_rational_approximation`, read back with `deconstruct`.
#[verifier::external_body]
fn percent_from_rational(p: u32, q: u32) -> (r: u8)
    ensures
        r == rational_parts(p as int, q as int, HUNDRED as int),
{
    Percent::from_rational_approximation(p, q).deconstruct()
}

/// Relies on `Percent::mul_floor`: `x * parts / 100` rounded down, computed without overflow.
#[verifier::external_body]
fn percent_mul_floor(parts: u8, x: u128) -> (r: u128)
    requires
        parts <= HUNDRED,
    ensures
        r == mul_floor_parts(parts as int, HUNDRED as int, x as int),
{
    Percent::from_parts(parts).mul_floor(x)
}

/// The parts of a rational approximation never exceed the accuracy.
proof fn lemma_rational_parts_bounded(p: int, q: int, accuracy: int)
    requires
        p >= 0,
        accuracy >= 1,
    ensures
        0 <= rational_parts(p, q, accuracy) <= accuracy,
{
    let q1 = if q < 1 { 1 } else { q };
    let p1 = if p < q1 { p } else { q1 };
    let f0 = (q1 + accuracy - 1) / accuracy;
    let factor = if f0 < 1 { 1 } else { f0 };
    assert(0 <= p1 / factor <= q1 / factor) by (nonlinear_arith)
        requires
            0 <= p1 <= q1,
            factor >= 1,
    ;
    assert(q1 / factor >= 1) by (nonlinear_arith)
        requires
            q1 >= 1,
            factor >= 1,
            f0 == (q1 + accuracy - 1) / accuracy,
            accuracy >= 1,
            factor == (if f0 < 1 { 1 } else { f0 }),
    ;
    assert(0 <= (p1 / factor) * accuracy / (q1 / factor) <= accuracy) by (nonlinear_arith)
        requires
            0 <= p1 / factor <= q1 / factor,
            q1 / factor >= 1,
            accuracy >= 1,
    ;
}

/// Powers of a fraction of at most one stay within `0..=BILLION`.
pub proof fn lemma_pow_parts_bounded(base: int, exp: nat)
    requires
        0 <= base <= BILLION,
    ensures
        0 <= pow_parts(base, exp) <= BILLION,
    decreases exp,
{
    if exp > 0 {
        let prev = pow_parts(base, (exp - 1) as nat);
        lemma_pow_parts_bounded(base, (exp - 1) as nat);
        assert(0 <= prev * base / (BILLION as int) <= prev) by (nonlinear_arith)
            requires
                0 <= prev,
                0 <= base <= BILLION as int,
        ;
    }
}

/// Raising a fraction of at most one to a larger power never gives more.
pub proof fn lemma_pow_parts_non_increasing(base: int, e1: nat, e2: nat)
    requires
        0 <= base <= BILLION,
        e1 <= e2,
    ensures
        pow_parts(base, e2) <= pow_parts(base, e1),
    decreases e2 - e1,
{
    if e1 < e2 {
        let prev = pow_parts(base, (e2 - 1) as nat);
        lemma_pow_parts_bounded(base, (e2 - 1) as nat);
        lemma_pow_parts_non_increasing(base, e1, (e2 - 1) as nat);
        assert(prev * base / (BILLION as int) <= prev) by (nonlinear_arith)
            requires
                0 <= prev,
                0 <= base <= BILLION as int,
        ;
    }
}

/// Rounding-up multiplication is monotone in both the fraction and the value.
pub proof fn lemma_mul_ceil_monotone(p1: int, p2: int, x1: int, x2: int, accuracy: int)
    requires
        0 <= p1 <= p2,
        0 <= x1 <= x2,
        accuracy >= 1,
    ensures
        0 <= mul_ceil_parts(p1, accuracy, x1) <= mul_ceil_parts(p2, accuracy, x2),
{
    assert(0 <= x1 * p1 <= x2 * p2) by (nonlinear_arith)
        requires
            0 <= p1 <= p2,
            0 <= x1 <= x2,
    ;
    assert(0 <= (x1 * p1 + accuracy - 1) / accuracy <= (x2 * p2 + accuracy - 1) / accuracy)
        by (nonlinear_arith)
        requires
            0 <= x1 * p1 <= x2 * p2,
            accuracy >= 1,
    ;
}

/// A fraction in parts per billion, between zero and one inclusive.
#[derive(Clone, Copy, Debug, PartialEq, Eq, Structural)]
pub struct PerBillion {
    parts: u32,
}

impl PerBillion {
    /// The number of billionths.
    pub closed spec fn parts(self) -> int {
        self.parts as int
    }

    #[verifier::type_invariant]
    spec fn well_formed(self) -> bool {
        self.parts <= BILLION
    }

    /// The closest fraction at or below `p / q`, with `q` taken as at least one and
    /// `p` as at most `q`.
    pub fn from_rational_approximation(p: u128, q: u128) -> (r: PerBillion)
        ensures
            r.parts() == rational_parts(p as int, q as int, BILLION as int),
            0 <= r.parts() <= BILLION,
    {
        let parts = perbill_from_rational(p, q);
        proof {
            lemma_rational_parts_bounded(p as int, q as int, BILLION as int);
        }
        PerBillion { parts }
    }

    /// The number of billionths.
    pub fn deconstruct(&self) -> (r: u32)
        ensures
            r == self.parts(),
            r <= BILLION,
    {
        proof {
            use_type_invariant(self);
        }
        self.parts
    }

    /// `ceil(self * x)`, which never exceeds `x`.
    pub fn mul_ceil(&self, x: u128) -> (r: u128)
        ensures
            r == mul_ceil_parts(self.parts(), BILLION as int, x as int),
            r <= x,
    {
        proof {
            use_type_invariant(self);
            lemma_mul_ceil_monotone(self.parts(), BILLION as int, x as int, x as int, BILLION as int);
            assert(mul_ceil_parts(BILLION as int, BILLION as int, x as int) == x) by (nonlinear_arith);
        }
        perbill_mul_ceil(self.parts, x)
    }

    /// `self` raised to the power `exp`, rounded down to a whole billionth after each
    /// multiplication; zero for zero.
    pub fn saturating_pow(&self, exp: usize) -> (r: PerBillion)
        ensures
            r.parts() == saturating_pow_parts(self.parts(), exp as nat),
            0 <= r.parts() <= BILLION,
    {
        proof {
            use_type_invariant(self);
            lemma_pow_parts_bounded(self.parts(), exp as nat);
        }
        let parts = perbill_saturating_pow(self.parts, exp);
        PerBillion { parts }
    }
}

/// A fraction in parts per hundred, between zero and one inclusive.
#[derive(Clone, Copy, Debug, PartialEq, Eq, Structural)]
pub struct PerHundred {
    parts: u8,
}

impl PerHundred {
    /// The number of hundredths.
    pub closed spec fn parts(self) -> int {
        self.parts as int
    }

    #[verifier::type_invariant]
    spec fn well_formed(self) -> bool {
        self.parts <= HUNDRED
    }

    /// The closest fraction at or below `p / q`, with `q` taken as at least one and
    /// `p` as at most `q`.
    pub fn from_rational_approximation(p: u32, q: u32) -> (r: PerHundred)
        ensures
            r.parts() == rational_parts(p as int, q as int, HUNDRED as int),
            0 <= r.parts() <= HUNDRED,
    {
        let parts = percent_from_rational(p, q);
        proof {
            lemma_rational_parts_bounded(p as int, q as int, HUNDRED as int);
        }
        PerHundred { parts }
    }

    /// The number of hundredths.
    pub fn deconstruct(&self) -> (r: u8)
        ensures
            r == self.parts(),
            r <= HUNDRED,
    {
        proof {
            use_type_invariant(self);
        }
        self.parts
    }

    /// `floor(self * x)`, which never exceeds `x`.
    pub fn mul_floor(&self, x: u128) -> (r: u128)
        ensures
            r == mul_floor_parts(self.parts(), HUNDRED as int, x as int),
            r <= x,
    {
        proof {
            use_type_invariant(self);
            let p = self.parts();
            assert(x * p / (HUNDRED as int) <= x) by (nonlinear_arith)
                requires
                    0 <= p <= HUNDRED as int,
                    x >= 0,
            ;
        }
        percent_mul_floor(self.parts, x)
    }
}

} // verus!
