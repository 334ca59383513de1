//! The payout of one era: decaying inflation until the cutover era, a catch-up mint
//! to the final supply at the cutover era, and nothing after it.

use crate::fraction::{
    lemma_mul_ceil_monotone, lemma_pow_parts_bounded, lemma_pow_parts_non_increasing,
    mul_ceil_parts, mul_floor_parts, rational_parts, saturating_pow_parts, PerBillion,
    PerHundred, BILLION, HUNDRED,
};
use vstd::prelude::*;

verus! {

/// Counter of accounting epochs, starting at zero.
pub type EraIndex = u32;

/// The era at which the catch-up mint happens; no era after it mints.
pub const CUTOVER_ERA: EraIndex = 360_000;

/// Total issuance that the catch-up mint brings the supply up to.
pub const FINAL_SUPPLY: u128 = 7_777_777_777;

/// Inflation rate per era, in billionths.
pub const INFLATION_PARTS: u128 = 233_278;

/// Decay of the inflation rate per era, in billionths.
pub const DECAY_PARTS: u128 = 999_950_000;

/// Share of the maximum payout that may go to stakers: numerator over denominator.
pub const STAKER_SHARE_NUMER: u32 = 7;

/// Denominator of the staker share.
pub const STAKER_SHARE_DENOM: u32 = 10;

/// Billionths of the inflation rate.
pub open spec fn inflation_rate() -> int {
    rational_parts(INFLATION_PARTS as int, BILLION as int, BILLION as int)
}

/// Billionths of the decay factor after `era` eras.
pub open spec fn decay_at(era: nat) -> int {
    saturating_pow_parts(rational_parts(DECAY_PARTS as int, BILLION as int, BILLION as int), era)
}

/// Hundredths that go to stakers.
pub open spec fn staker_share() -> int {
    rational_parts(STAKER_SHARE_NUMER as int, STAKER_SHARE_DENOM as int, HUNDRED as int)
}

/// Inflation applied to `amount` at a decaying era: the decay first, then the rate,
/// each rounded up.
pub open spec fn inflation_of(era: nat, amount: int) -> int {
    mul_ceil_parts(inflation_rate(), BILLION as int, mul_ceil_parts(decay_at(era), BILLION as int, amount))
}

/// The staker share of `amount`, rounded down.
pub open spec fn staker_cap_of(amount: int) -> int {
    mul_floor_parts(staker_share(), HUNDRED as int, amount)
}

/// `(staker_payout, maximum_payout)` for an era.
pub open spec fn total_payout(era: nat, total_tokens: int, total_issuance: int) -> (int, int) {
    if era < CUTOVER_ERA {
        let staker = inflation_of(era, total_tokens);
        let maximum = inflation_of(era, total_issuance);
        let cap = staker_cap_of(maximum);
        (if staker > cap { cap } else { staker }, maximum)
    } else if era == CUTOVER_ERA {
        let maximum = if total_issuance < FINAL_SUPPLY { FINAL_SUPPLY - total_issuance } else { 0 };
        (staker_cap_of(maximum), maximum)
    } else {
        (0, 0)
    }
}

/// Stakers get seventy hundredths.
proof fn lemma_staker_share()
    ensures
        staker_share() == 70,
{
    assert((10int + 100 - 1) / 100 == 1);
    assert(7int / 1 == 7);
    assert(10int / 1 == 10);
    assert(7int * 100 / 10 == 70);
}

/// The payout of era `era_index`, as `(staker_payout, maximum_payout)`.
///
/// Before the cutover era the maximum payout is the decayed inflation of the total
/// issuance, and stakers get the decayed inflation of the staked total, capped at 70%
/// of the maximum. At the cutover era the maximum payout is what is missing to the
/// final supply, and stakers get 70% of it. After it both are zero.
pub fn compute_total_payout(era_index: EraIndex, total_tokens: u128, total_issuance: u128) -> (r: (
    u128,
    u128,
))
    ensures
        r.0 == total_payout(era_index as nat, total_tokens as int, total_issuance as int).0,
        r.1 == total_payout(era_index as nat, total_tokens as int, total_issuance as int).1,
        r.0 <= r.1,
        era_index < CUTOVER_ERA ==> r.1 <= mul_ceil_parts(
            inflation_rate(),
            BILLION as int,
            total_issuance as int,
        ),
        era_index > CUTOVER_ERA ==> r == (0u128, 0u128),
        era_index == CUTOVER_ERA ==> r.1 == FINAL_SUPPLY.saturating_sub(total_issuance),
        era_index == CUTOVER_ERA ==> r.0 == r.1 * 7 / 10,
{
    if era_index < CUTOVER_ERA {
        let inflation_rate = PerBillion::from_rational_approximation(INFLATION_PARTS, BILLION as u128);
        let inflation_decay = PerBillion::from_rational_approximation(DECAY_PARTS, BILLION as u128)
            .saturating_pow(era_index as usize);

        let staker_payout = inflation_rate.mul_ceil(inflation_decay.mul_ceil(total_tokens));
        let maximum_payout = inflation_rate.mul_ceil(inflation_decay.mul_ceil(total_issuance));
        proof {
            lemma_rates();
            lemma_mul_ceil_monotone(
                inflation_rate.parts(),
                inflation_rate.parts(),
                mul_ceil_parts(
                    inflation_decay.parts(),
                    BILLION as int,
                    total_issuance as int,
                ),
                total_issuance as int,
                BILLION as int,
            );
        }

        let staker_to_treasury_ratio = PerHundred::from_rational_approximation(
            STAKER_SHARE_NUMER,
            STAKER_SHARE_DENOM,
        );
        let staker_maximum = staker_to_treasury_ratio.mul_floor(maximum_payout);

        if staker_payout > staker_maximum {
            (staker_maximum, maximum_payout)
        } else {
            (staker_payout, maximum_payout)
        }
    } else if era_index == CUTOVER_ERA {
        let maximum_payout = FINAL_SUPPLY.saturating_sub(total_issuance);
        let staker_to_treasury_ratio = PerHundred::from_rational_approximation(
            STAKER_SHARE_NUMER,
            STAKER_SHARE_DENOM,
        );
        let staker_maximum = staker_to_treasury_ratio.mul_floor(maximum_payout);
        proof {
            lemma_staker_share();
        }
        (staker_maximum, maximum_payout)
    } else {
        (0, 0)
    }
}

/// The constructed rates are the literal billionths.
proof fn lemma_rates()
    ensures
        inflation_rate() == INFLATION_PARTS,
        rational_parts(DECAY_PARTS as int, BILLION as int, BILLION as int) == DECAY_PARTS,
{
    let b = BILLION as int;
    assert((b + b - 1) / b == 1);
    assert(b / 1 == b);
    assert(233_278int / 1 == 233_278);
    assert(999_950_000int / 1 == 999_950_000);
    assert(233_278int * b / b == 233_278) by (nonlinear_arith)
        requires
            b == 1_000_000_000,
    ;
    assert(999_950_000int * b / b == 999_950_000) by (nonlinear_arith)
        requires
            b == 1_000_000_000,
    ;
}

/// Before the cutover era, for a fixed staked total and issuance, the maximum payout of
/// a later era is never more than that of an earlier era.
pub proof fn lemma_maximum_payout_non_increasing(
    earlier: EraIndex,
    later: EraIndex,
    total_tokens: u128,
    total_issuance: u128,
)
    requires
        earlier <= later < CUTOVER_ERA,
    ensures
        total_payout(later as nat, total_tokens as int, total_issuance as int).1 <= total_payout(
            earlier as nat,
            total_tokens as int,
            total_issuance as int,
        ).1,
{
    let b = BILLION as int;
    lemma_rates();
    lemma_pow_parts_non_increasing(DECAY_PARTS as int, earlier as nat, later as nat);
    lemma_pow_parts_bounded(DECAY_PARTS as int, later as nat);
    let d1 = decay_at(earlier as nat);
    let d2 = decay_at(later as nat);
    lemma_mul_ceil_monotone(d2, d1, total_issuance as int, total_issuance as int, b);
    lemma_mul_ceil_monotone(
        inflation_rate(),
        inflation_rate(),
        mul_ceil_parts(d2, b, total_issuance as int),
        mul_ceil_parts(d1, b, total_issuance as int),
        b,
    );
}

/// The payout depends on the era, the staked total and the issuance alone: two calls
/// with the same arguments return the same pair.
pub proof fn lemma_total_payout_deterministic(
    era_a: EraIndex,
    tokens_a: u128,
    issuance_a: u128,
    era_b: EraIndex,
    tokens_b: u128,
    issuance_b: u128,
)
    requires
        era_a == era_b,
        tokens_a == tokens_b,
        issuance_a == issuance_b,
    ensures
        total_payout(era_a as nat, tokens_a as int, issuance_a as int) == total_payout(
            era_b as nat,
            tokens_b as int,
            issuance_b as int,
        ),
{
}

} // verus!
