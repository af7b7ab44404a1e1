//! The fee on an advance: 1.25 % of the amount, rounded down, kept by the vault.
use vstd::prelude::*;

verus! {

/// The fee is this many ten-thousandths of the amount.
pub const FEE_PER_TEN_THOUSAND: i128 = 125;

/// The fee on an advance of `amount`.
pub open spec fn advance_fee(amount: int) -> int {
    amount * 125 / 10000
}

/// What the employee is paid on an advance of `amount`.
pub open spec fn advance_payout(amount: int) -> int {
    amount - advance_fee(amount)
}

/// The fee is never negative and never more than the amount; on a positive
/// amount it is less than the amount, so something is always paid out.
pub proof fn lemma_fee_bounds(amount: int)
    requires
        amount >= 0,
    ensures
        0 <= advance_fee(amount) <= amount,
        amount > 0 ==> advance_fee(amount) < amount,
        amount > 0 ==> 0 < advance_payout(amount) <= amount,
{
    assert(0 <= amount * 125 / 10000 <= amount && (amount > 0 ==> amount * 125 / 10000 < amount))
        by (nonlinear_arith)
        requires
            amount >= 0,
    ;
}

/// Splits the product so that it cannot overflow: with `amount = 10000 q + r`,
/// the fee is `125 q + floor(125 r / 10000)`.
proof fn lemma_fee_by_parts(amount: int)
    requires
        amount >= 0,
    ensures
        advance_fee(amount) == (amount / 10000) * 125 + ((amount % 10000) * 125) / 10000,
{
    let q = amount / 10000;
    let r = amount % 10000;
    assert(amount == 10000 * q + r && 0 <= r < 10000) by (nonlinear_arith)
        requires
            q == amount / 10000,
            r == amount % 10000,
    ;
    assert((10000 * q + r) * 125 / 10000 == q * 125 + (r * 125) / 10000) by (nonlinear_arith)
        requires
            0 <= r < 10000,
    ;
}

/// Computes the fee on a positive amount, for every such amount.
pub(crate) fn fee_on(amount: i128) -> (fee: i128)
    requires
        amount > 0,
    ensures
        fee == advance_fee(amount as int),
        0 <= fee < amount,
{
    proof {
        lemma_fee_by_parts(amount as int);
        lemma_fee_bounds(amount as int);
    }
    let whole: i128 = amount / 10000;
    let rest: i128 = amount % 10000;
    assert(0 <= whole * 125 <= amount) by (nonlinear_arith)
        requires
            whole == amount as int / 10000,
            amount > 0,
    ;
    whole * FEE_PER_TEN_THOUSAND + (rest * FEE_PER_TEN_THOUSAND) / 10000
}

} // verus!
