//! Pricing: the fee taken from an input amount, and the constant-product rule
//! that turns the remaining input into an output amount.

use vstd::prelude::*;
use vstd::arithmetic::div_mod::{
    lemma_div_by_multiple, lemma_div_is_ordered, lemma_div_is_ordered_by_denominator,
    lemma_div_multiples_vanish, lemma_div_pos_is_pos, lemma_fundamental_div_mod,
};
use vstd::arithmetic::mul::{lemma_mul_is_commutative, lemma_mul_nonnegative};
use crate::errors::AmmError;

verus! {

/// One hundred percent, in basis points.
pub const BPS_DENOMINATOR: u64 = 10_000;

/// The part of `amount` that is priced once a fee of `fee_bps` basis points is
/// taken from it: `amount * (10000 - fee_bps) / 10000`, rounded towards zero.
pub open spec fn fee_adjusted(amount: nat, fee_bps: nat) -> nat
    recommends
        fee_bps <= 10_000,
{
    (amount * (10_000 - fee_bps) / 10_000) as nat
}

/// What remains of the output reserve when `amount` joins the input reserve and
/// the product of the two reserves is kept: `reserve_in * reserve_out /
/// (reserve_in + amount)`, rounded towards zero.
pub open spec fn reserve_after(reserve_in: nat, reserve_out: nat, amount: nat) -> nat
    recommends
        reserve_in > 0,
{
    (reserve_in * reserve_out) / (reserve_in + amount)
}

/// The output owed for `amount` of input under the constant-product rule: the
/// output reserve less what remains of it.
pub open spec fn curve_output(reserve_in: nat, reserve_out: nat, amount: nat) -> nat
    recommends
        reserve_in > 0,
{
    (reserve_out - reserve_after(reserve_in, reserve_out, amount)) as nat
}

/// The output owed for `amount` of nominal input once the fee is taken from it.
pub open spec fn output_for(reserve_in: nat, reserve_out: nat, amount: nat, fee_bps: nat) -> nat
    recommends
        reserve_in > 0,
        fee_bps <= 10_000,
{
    curve_output(reserve_in, reserve_out, fee_adjusted(amount, fee_bps))
}

/// The fee never adds to an amount, and of a positive amount it takes nothing
/// only when it is zero.
pub proof fn lemma_fee_adjusted_bounds(amount: nat, fee_bps: nat)
    requires
        fee_bps <= 10_000,
    ensures
        fee_adjusted(amount, fee_bps) <= amount,
        amount > 0 ==> (fee_adjusted(amount, fee_bps) == amount <==> fee_bps == 0),
{
    let kept: int = 10_000 - fee_bps;
    let scaled: int = amount * kept;
    assert(0 <= scaled <= amount * 10_000 && (fee_bps > 0 && amount > 0 ==> scaled < amount
        * 10_000) && (fee_bps == 0 ==> scaled == amount * 10_000)) by (nonlinear_arith)
        requires
            scaled == amount * kept,
            kept == 10_000 - fee_bps,
            fee_bps <= 10_000,
    ;
}

/// What remains of the output reserve is never more than the reserve, so that
/// the output and the remainder add up to it.
pub proof fn lemma_reserve_after_bounds(reserve_in: nat, reserve_out: nat, amount: nat)
    requires
        reserve_in > 0,
    ensures
        reserve_after(reserve_in, reserve_out, amount) <= reserve_out,
        curve_output(reserve_in, reserve_out, amount) <= reserve_out,
        curve_output(reserve_in, reserve_out, amount) + reserve_after(
            reserve_in,
            reserve_out,
            amount,
        ) == reserve_out,
{
    let k: int = (reserve_in * reserve_out) as int;
    let d: int = (reserve_in + amount) as int;
    assert(0 <= k <= d * reserve_out) by (nonlinear_arith)
        requires
            k == reserve_in * reserve_out,
            d == reserve_in + amount,
            reserve_in > 0,
    ;
    lemma_div_is_ordered(k, d * reserve_out, d);
    lemma_div_multiples_vanish(reserve_out as int, d);
    lemma_mul_is_commutative(d, reserve_out as int);
    lemma_div_pos_is_pos(k, d);
}

/// Takes the fee of `fee_bps` basis points from `amount`.
///
/// The product is formed in 128 bits, so that it cannot wrap. A rate above one
/// hundred percent has no remainder to keep and is rejected.
pub fn amount_after_fee(amount: u64, fee_bps: u16) -> (r: Result<u64, AmmError>)
    ensures
        fee_bps <= 10_000 ==> r == Ok::<u64, AmmError>(
            fee_adjusted(amount as nat, fee_bps as nat) as u64,
        ),
        fee_bps <= 10_000 ==> fee_adjusted(amount as nat, fee_bps as nat) <= amount,
        fee_bps > 10_000 ==> r == Err::<u64, AmmError>(AmmError::ArithmeticOverflow),
        fee_bps < 10_000 && amount > 0 ==> (r.unwrap() == amount <==> fee_bps == 0),
{
    let kept: u64 = match BPS_DENOMINATOR.checked_sub(fee_bps as u64) {
        Some(k) => k,
        None => {
            return Err(AmmError::ArithmeticOverflow);
        },
    };
    proof {
        lemma_fee_adjusted_bounds(amount as nat, fee_bps as nat);
        assert(0 <= amount * kept <= amount * 10_000) by (nonlinear_arith)
            requires
                0 <= kept <= 10_000,
                0 <= amount,
        ;
        assert(amount * kept == (amount as nat) * (10_000 - (fee_bps as nat)));
    }
    let scaled: u128 = (amount as u128) * (kept as u128);
    let after: u128 = scaled / (BPS_DENOMINATOR as u128);
    Ok(after as u64)
}

/// Prices `amount` of input against the two reserves under the constant-product
/// rule.
///
/// An empty reserve is rejected. With both reserves positive the product and
/// the sum are formed in 128 bits, where neither can leave the range, so the
/// call succeeds for every amount.
pub fn swap_output(reserve_in: u64, reserve_out: u64, amount: u64) -> (r: Result<u64, AmmError>)
    ensures
        (reserve_in == 0 || reserve_out == 0) ==> r == Err::<u64, AmmError>(
            AmmError::DivisionByZero,
        ),
        (reserve_in > 0 && reserve_out > 0) ==> r == Ok::<u64, AmmError>(
            curve_output(reserve_in as nat, reserve_out as nat, amount as nat) as u64,
        ),
        (reserve_in > 0 && reserve_out > 0) ==> curve_output(
            reserve_in as nat,
            reserve_out as nat,
            amount as nat,
        ) <= reserve_out,
{
    if reserve_in == 0 || reserve_out == 0 {
        return Err(AmmError::DivisionByZero);
    }
    proof {
        lemma_reserve_after_bounds(reserve_in as nat, reserve_out as nat, amount as nat);
        assert((reserve_in as int) * (reserve_out as int) <= 0xffff_ffff_ffff_ffff
            * 0xffff_ffff_ffff_ffff) by (nonlinear_arith)
            requires
                0 <= reserve_in <= 0xffff_ffff_ffff_ffff,
                0 <= reserve_out <= 0xffff_ffff_ffff_ffff,
        ;
    }
    let product: u128 = (reserve_in as u128) * (reserve_out as u128);
    let grown: u128 = (reserve_in as u128) + (amount as u128);
    let remaining: u128 = product / grown;
    Ok(reserve_out - (remaining as u64))
}

/// A larger amount keeps at least as much after the fee, and a larger fee
/// keeps no more.
pub proof fn lemma_fee_adjusted_monotonic(amount_a: nat, amount_b: nat, fee_a: nat, fee_b: nat)
    requires
        amount_a <= amount_b,
        fee_b <= fee_a <= 10_000,
    ensures
        fee_adjusted(amount_a, fee_a) <= fee_adjusted(amount_b, fee_b),
{
    let kept_a: int = 10_000 - fee_a;
    let kept_b: int = 10_000 - fee_b;
    assert(0 <= amount_a * kept_a <= amount_b * kept_b) by (nonlinear_arith)
        requires
            amount_a <= amount_b,
            0 <= kept_a <= kept_b,
    ;
    lemma_div_is_ordered(amount_a * kept_a, amount_b * kept_b, 10_000);
}

/// The more input the curve is given, the more output it owes.
pub proof fn lemma_curve_output_monotonic(
    reserve_in: nat,
    reserve_out: nat,
    amount_a: nat,
    amount_b: nat,
)
    requires
        reserve_in > 0,
        amount_a <= amount_b,
    ensures
        curve_output(reserve_in, reserve_out, amount_a) <= curve_output(
            reserve_in,
            reserve_out,
            amount_b,
        ),
{
    let k: int = (reserve_in * reserve_out) as int;
    lemma_mul_nonnegative(reserve_in as int, reserve_out as int);
    lemma_div_is_ordered_by_denominator(
        k,
        (reserve_in + amount_a) as int,
        (reserve_in + amount_b) as int,
    );
    lemma_reserve_after_bounds(reserve_in, reserve_out, amount_a);
    lemma_reserve_after_bounds(reserve_in, reserve_out, amount_b);
}

/// With the reserves and the fee held fixed, the output never falls when the
/// input grows.
pub proof fn lemma_output_monotonic_in_amount(
    reserve_in: nat,
    reserve_out: nat,
    amount_a: nat,
    amount_b: nat,
    fee_bps: nat,
)
    requires
        reserve_in > 0,
        fee_bps <= 10_000,
        amount_a <= amount_b,
    ensures
        output_for(reserve_in, reserve_out, amount_a, fee_bps) <= output_for(
            reserve_in,
            reserve_out,
            amount_b,
            fee_bps,
        ),
{
    lemma_fee_adjusted_monotonic(amount_a, amount_b, fee_bps, fee_bps);
    lemma_curve_output_monotonic(
        reserve_in,
        reserve_out,
        fee_adjusted(amount_a, fee_bps),
        fee_adjusted(amount_b, fee_bps),
    );
}

/// With the reserves and the input held fixed, the output never grows when the
/// fee does.
pub proof fn lemma_output_monotonic_in_fee(
    reserve_in: nat,
    reserve_out: nat,
    amount: nat,
    fee_a: nat,
    fee_b: nat,
)
    requires
        reserve_in > 0,
        fee_a <= fee_b <= 10_000,
    ensures
        output_for(reserve_in, reserve_out, amount, fee_b) <= output_for(
            reserve_in,
            reserve_out,
            amount,
            fee_a,
        ),
{
    lemma_fee_adjusted_monotonic(amount, amount, fee_b, fee_a);
    lemma_curve_output_monotonic(
        reserve_in,
        reserve_out,
        fee_adjusted(amount, fee_b),
        fee_adjusted(amount, fee_a),
    );
}

/// The curve's division leaves no remainder: the output is not rounded.
pub open spec fn prices_exactly(reserve_in: nat, reserve_out: nat, amount: nat) -> bool {
    (reserve_in * reserve_out) % (reserve_in + amount) == 0
}

/// What comes back of `amount` when it is exchanged against the reserves
/// `reserve_x` and `reserve_y` and all that was received is exchanged back at
/// once, with the same fee both ways.
pub open spec fn round_trip(reserve_x: nat, reserve_y: nat, amount: nat, fee_bps: nat) -> nat {
    let received = output_for(reserve_x, reserve_y, amount, fee_bps);
    output_for((reserve_y - received) as nat, reserve_x + amount, received, fee_bps)
}

/// A quotient reaches `k` exactly when the dividend reaches `k` times the
/// divisor.
proof fn lemma_quotient_reaches(n: int, d: int, k: int)
    requires
        0 <= n,
        0 < d,
        0 <= k,
    ensures
        n / d >= k <==> n >= k * d,
{
    lemma_fundamental_div_mod(n, d);
    if n / d >= k {
        assert(d * (n / d) >= k * d) by (nonlinear_arith)
            requires
                n / d >= k,
                0 < d,
        ;
    }
    if n >= k * d {
        lemma_div_is_ordered(k * d, n, d);
        lemma_div_by_multiple(k, d);
    }
}

/// When an exchange there and back returns no more, and when it returns less,
/// than was put in: with `left` the output reserve that the way there leaves
/// and `back` what is priced on the way back, no more comes back exactly when
/// `left * amount >= back * reserve_x`, and less exactly when `left * amount`
/// exceeds that by `left + back` or more.
///
/// Rounding is in the trader's favour, so that there are inputs, with a fee
/// above zero, of which more comes back than was put in.
pub proof fn lemma_round_trip_criterion(reserve_x: nat, reserve_y: nat, amount: nat, fee_bps: nat)
    requires
        reserve_x > 0,
        fee_bps <= 10_000,
        reserve_after(reserve_x, reserve_y, fee_adjusted(amount, fee_bps)) > 0,
    ensures
        ({
            let received = output_for(reserve_x, reserve_y, amount, fee_bps);
            let left = reserve_after(reserve_x, reserve_y, fee_adjusted(amount, fee_bps));
            let back = fee_adjusted(received, fee_bps);
            &&& round_trip(reserve_x, reserve_y, amount, fee_bps) <= amount <==> left * amount
                >= back * reserve_x
            &&& round_trip(reserve_x, reserve_y, amount, fee_bps) < amount <==> left * amount
                >= back * reserve_x + left + back
        }),
{
    let x: int = reserve_x as int;
    let a: int = amount as int;
    let there: nat = fee_adjusted(amount, fee_bps);
    let left: int = reserve_after(reserve_x, reserve_y, there) as int;
    let received: nat = output_for(reserve_x, reserve_y, amount, fee_bps);
    lemma_reserve_after_bounds(reserve_x, reserve_y, there);
    assert((reserve_y - received) as nat == left);
    let back: int = fee_adjusted(received, fee_bps) as int;
    let grown: int = x + a;
    let d: int = left + back;
    let kept: int = reserve_after(left as nat, grown as nat, back as nat) as int;
    lemma_reserve_after_bounds(left as nat, grown as nat, back as nat);
    assert(round_trip(reserve_x, reserve_y, amount, fee_bps) == grown - kept);
    assert(kept == (left * grown) / d);
    lemma_mul_nonnegative(left, grown);
    lemma_quotient_reaches(left * grown, d, x);
    lemma_quotient_reaches(left * grown, d, x + 1);
    assert(left * grown - x * d == left * a - back * x && left * grown - (x + 1) * d == left * a
        - back * x - left - back) by (nonlinear_arith)
        requires
            grown == x + a,
            d == left + back,
    ;
}

/// An exchange there and back returns no more than was put in, as long as the
/// first pricing is not rounded; with no fee it then returns all of it, and
/// with a fee, if the second pricing is not rounded either, strictly less.
pub proof fn lemma_round_trip(reserve_x: nat, reserve_y: nat, amount: nat, fee_bps: nat)
    requires
        reserve_x > 0,
        fee_bps <= 10_000,
        reserve_after(reserve_x, reserve_y, fee_adjusted(amount, fee_bps)) > 0,
        prices_exactly(reserve_x, reserve_y, fee_adjusted(amount, fee_bps)),
    ensures
        round_trip(reserve_x, reserve_y, amount, fee_bps) <= amount,
        fee_bps == 0 ==> round_trip(reserve_x, reserve_y, amount, fee_bps) == amount,
        ({
            let received = output_for(reserve_x, reserve_y, amount, fee_bps);
            let left = reserve_after(reserve_x, reserve_y, fee_adjusted(amount, fee_bps));
            fee_bps > 0 && received > 0 && prices_exactly(
                left,
                reserve_x + amount,
                fee_adjusted(received, fee_bps),
            ) ==> round_trip(reserve_x, reserve_y, amount, fee_bps) < amount
        }),
{
    let x: int = reserve_x as int;
    let y: int = reserve_y as int;
    let a: int = amount as int;
    let there: int = fee_adjusted(amount, fee_bps) as int;
    let left: int = reserve_after(reserve_x, reserve_y, there as nat) as int;
    let received: int = output_for(reserve_x, reserve_y, amount, fee_bps) as int;
    lemma_fee_adjusted_bounds(amount, fee_bps);
    lemma_reserve_after_bounds(reserve_x, reserve_y, there as nat);
    assert((reserve_y - received as nat) as nat == left);
    // No rounding on the way there: the reserves' product is kept.
    lemma_fundamental_div_mod(x * y, x + there);
    assert(x * y == (x + there) * left);

    let back: int = fee_adjusted(received as nat, fee_bps) as int;
    lemma_fee_adjusted_bounds(received as nat, fee_bps);
    let grown: int = x + a;
    let d: int = left + back;
    let kept: int = reserve_after(left as nat, grown as nat, back as nat) as int;
    lemma_reserve_after_bounds(left as nat, grown as nat, back as nat);
    assert(round_trip(reserve_x, reserve_y, amount, fee_bps) == grown - kept);
    assert(kept == (left * grown) / d);

    assert(x * d <= left * grown && (fee_bps > 0 && received > 0 ==> x * d < left * grown))
        by (nonlinear_arith)
        requires
            x * y == (x + there) * left,
            grown == x + a,
            0 <= there <= a,
            0 < d <= y,
            fee_bps > 0 && received > 0 ==> d < y,
            0 < x,
            0 < left,
    ;
    lemma_div_is_ordered(x * d, left * grown, d);
    lemma_div_by_multiple(x, d);

    if fee_bps == 0 {
        assert(left * grown == x * y) by (nonlinear_arith)
            requires
                x * y == (x + there) * left,
                grown == x + a,
                there == a,
        ;
    }
    if fee_bps > 0 && received > 0 && prices_exactly(left as nat, grown as nat, back as nat) {
        lemma_fundamental_div_mod(left * grown, d);
        assert(kept > x) by (nonlinear_arith)
            requires
                x * d < left * grown,
                left * grown == d * kept,
                0 < d,
        ;
    }
}

} // verus!
