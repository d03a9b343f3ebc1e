//! Token arithmetic: saturating operations and basis-point shares.
use vstd::prelude::*;

verus! {

/// One whole, in basis points.
pub const BPS_DENOMINATOR: u32 = 10_000;

/// The 128-bit amount closest to `value`.
pub open spec fn saturated(value: int) -> i128 {
    if value > i128::MAX {
        i128::MAX
    } else if value < i128::MIN {
        i128::MIN
    } else {
        value as i128
    }
}

/// `value / divisor` with the fraction dropped, for a positive `divisor`.
pub open spec fn truncated_quotient(value: int, divisor: int) -> int {
    if value >= 0 {
        value / divisor
    } else {
        -((-value) / divisor)
    }
}

/// `bps` basis points of `amount`: the product over ten thousand, rounded
/// towards zero. It is saturated where it does not fit in an amount, which takes
/// more basis points than the whole.
pub open spec fn share(amount: i128, bps: u32) -> i128 {
    saturated(truncated_quotient(amount * bps, BPS_DENOMINATOR as int))
}

pub fn saturating_add(a: i128, b: i128) -> (sum: i128)
    ensures
        sum == saturated(a + b),
        i128::MIN <= a + b <= i128::MAX ==> sum == a + b,
        a + b > i128::MAX ==> sum == i128::MAX,
        a + b < i128::MIN ==> sum == i128::MIN,
{
    match a.checked_add(b) {
        Some(sum) => sum,
        None => if b < 0 {
            i128::MIN
        } else {
            i128::MAX
        },
    }
}

pub fn saturating_sub(a: i128, b: i128) -> (difference: i128)
    ensures
        difference == saturated(a - b),
        i128::MIN <= a - b <= i128::MAX ==> difference == a - b,
        a - b > i128::MAX ==> difference == i128::MAX,
        a - b < i128::MIN ==> difference == i128::MIN,
{
    match a.checked_sub(b) {
        Some(difference) => difference,
        None => if b < 0 {
            i128::MAX
        } else {
            i128::MIN
        },
    }
}

/// The product of an amount and basis points can be divided by ten thousand part
/// by part: once the whole ten thousands of the amount, once the rest.
proof fn lemma_quotient_by_parts(amount: int, bps: int)
    requires
        0 <= bps,
    ensures
        ({
            let whole = truncated_quotient(amount, 10_000);
            let rest = amount - whole * 10_000;
            &&& -10_000 < rest < 10_000
            &&& amount >= 0 ==> 0 <= whole && 0 <= rest && 0 <= whole * bps && 0 <= rest * bps
            &&& amount <= 0 ==> whole <= 0 && rest <= 0 && whole * bps <= 0 && rest * bps <= 0
            &&& truncated_quotient(amount * bps, 10_000) == whole * bps + truncated_quotient(
                rest * bps,
                10_000,
            )
        }),
{
    let whole = truncated_quotient(amount, 10_000);
    let rest = amount - whole * 10_000;
    assert(amount * bps == 10_000 * (whole * bps) + rest * bps) by (nonlinear_arith)
        requires
            rest == amount - whole * 10_000,
    ;
    assert(amount >= 0 ==> 0 <= whole && 0 <= rest);
    assert(amount <= 0 ==> whole <= 0 && rest <= 0);
    assert(0 <= whole ==> 0 <= whole * bps) by (nonlinear_arith)
        requires
            0 <= bps,
    ;
    assert(whole <= 0 ==> whole * bps <= 0) by (nonlinear_arith)
        requires
            0 <= bps,
    ;
    assert(0 <= rest ==> 0 <= rest * bps) by (nonlinear_arith)
        requires
            0 <= bps,
    ;
    assert(rest <= 0 ==> rest * bps <= 0) by (nonlinear_arith)
        requires
            0 <= bps,
    ;
}

/// Basis-point helper: returns `amount * bps / 10_000`, rounded towards zero.
/// The result saturates where it does not fit in an amount.
pub fn bps_of(amount: i128, bps: u32) -> (part: i128)
    ensures
        part == share(amount, bps),
        part == saturated(truncated_quotient(amount * bps, 10_000)),
        amount >= 0 && amount * bps / 10_000 <= i128::MAX ==> part == amount * bps / 10_000,
        amount >= 0 && amount * bps / 10_000 > i128::MAX ==> part == i128::MAX,
        amount < 0 && (-amount) * bps / 10_000 <= -i128::MIN ==> part == -((-amount) * bps
            / 10_000),
        amount < 0 && (-amount) * bps / 10_000 > -i128::MIN ==> part == i128::MIN,
{
    // Dividing first keeps the product of a large amount from overflowing.
    let whole: i128 = amount / 10_000;
    assert(whole == truncated_quotient(amount as int, 10_000));
    let rest: i128 = amount - whole * 10_000;
    proof {
        lemma_quotient_by_parts(amount as int, bps as int);
        assert(-42_949_672_950_000 <= rest * bps <= 42_949_672_950_000) by (nonlinear_arith)
            requires
                -10_000 < rest < 10_000,
                0 <= bps <= 4_294_967_295,
        ;
    }
    assert((-amount) * bps == -(amount * bps)) by (nonlinear_arith);
    assert(amount >= 0 ==> amount * bps >= 0) by (nonlinear_arith);
    assert(amount <= 0 ==> amount * bps <= 0) by (nonlinear_arith);
    let small: i128 = rest * (bps as i128) / 10_000;
    assert(small == truncated_quotient(rest * bps, 10_000));
    match whole.checked_mul(bps as i128) {
        Some(large) => saturating_add(large, small),
        None => if amount < 0 {
            i128::MIN
        } else {
            i128::MAX
        },
    }
}

/// A share has the sign of the amount, so taking it off cannot overflow.
pub proof fn lemma_share_sign(amount: i128, bps: u32)
    ensures
        amount >= 0 ==> 0 <= share(amount, bps),
        amount <= 0 ==> share(amount, bps) <= 0,
        i128::MIN <= amount - share(amount, bps) <= i128::MAX,
{
    assert(amount >= 0 ==> amount * bps >= 0) by (nonlinear_arith);
    assert(amount <= 0 ==> amount * bps <= 0) by (nonlinear_arith);
}

/// At most ten thousand basis points of a non-negative amount are the
/// rounded-down part of it, and no more than the amount.
pub proof fn lemma_share_bounds(amount: i128, bps: u32)
    requires
        0 <= amount,
        bps <= BPS_DENOMINATOR,
    ensures
        0 <= share(amount, bps) <= amount,
        share(amount, bps) == amount * bps / 10_000,
{
    assert(0 <= amount * bps <= amount * 10_000) by (nonlinear_arith)
        requires
            0 <= amount,
            bps <= 10_000,
    ;
}

} // verus!
