use vstd::prelude::*;
use vstd::arithmetic::div_mod::{
    lemma_div_is_ordered, lemma_div_pos_is_pos, lemma_fundamental_div_mod,
    lemma_hoist_over_denominator, lemma_mod_division_less_than_divisor,
};
use vstd::arithmetic::mul::lemma_mul_nonnegative;

verus! {

/// Share of a donation owed to the campaign creator: 90 percent,
/// rounded down to a whole unit.
pub open spec fn spec_creator_share(amount: u128) -> int {
    (amount as int) * 90 / 100
}

/// Share of a donation owed to the platform wallet: whatever the
/// creator's rounded-down share leaves over, so that the two shares
/// always add up to the donation exactly.
pub open spec fn spec_platform_share(amount: u128) -> int {
    amount - spec_creator_share(amount)
}

/// The split identity behind the executable computation: 90 percent of
/// `a`, rounded down, can be computed without overflow by splitting `a`
/// into hundreds and a remainder, and the result never exceeds `a`.
proof fn lemma_split_decompose(a: u128)
    ensures
        (a as int) * 90 / 100 == (a as int) / 100 * 90 + (a as int) % 100 * 90 / 100,
        0 <= (a as int) / 100 * 90 <= (a as int) * 90 / 100 <= a,
        0 <= (a as int) % 100 < 100,
        0 <= (a as int) % 100 * 90 / 100,
{
    let ai = a as int;
    let q = ai / 100;
    let r = ai % 100;
    lemma_fundamental_div_mod(ai, 100);
    lemma_mod_division_less_than_divisor(ai, 100);
    assert(ai * 90 == r * 90 + (q * 90) * 100) by (nonlinear_arith)
        requires ai == 100 * q + r;
    lemma_hoist_over_denominator(r * 90, q * 90, 100nat);
    lemma_mul_nonnegative(r, 90);
    lemma_div_pos_is_pos(r * 90, 100);
    lemma_div_pos_is_pos(ai, 100);
    lemma_mul_nonnegative(q, 90);
    assert(ai * 90 <= ai * 100 && (ai * 100) / 100 == ai) by (nonlinear_arith)
        requires ai >= 0;
    lemma_div_is_ordered(ai * 90, ai * 100, 100);
}

/// For any donation amount, the two shares are exact: the creator gets
/// the rounded-down 90 percent and the platform share absorbs the
/// remainder, so the shares always sum back to the donation.
pub proof fn lemma_share_split(amount: u128)
    ensures
        spec_creator_share(amount) + spec_platform_share(amount) == amount,
        spec_creator_share(amount) == (amount as int) * 90 / 100,
        0 <= spec_creator_share(amount) <= amount,
        0 <= spec_platform_share(amount) <= amount,
{
    lemma_split_decompose(amount);
}

/// Splits a donation into the creator's share and the platform's share.
pub fn split_donation(amount: u128) -> (shares: (u128, u128))
    ensures
        shares.0 == spec_creator_share(amount),
        shares.1 == spec_platform_share(amount),
        shares.0 + shares.1 == amount,
{
    proof {
        lemma_split_decompose(amount);
    }
    let whole: u128 = amount / 100;
    let rem: u128 = amount % 100;
    let creator: u128 = whole * 90 + rem * 90 / 100;
    let platform: u128 = amount - creator;
    (creator, platform)
}

} // verus!
