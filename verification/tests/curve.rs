use anchor_amm::curve::{amount_after_fee, swap_output, BPS_DENOMINATOR};
use anchor_amm::errors::AmmError;

#[test]
fn fee_denominator_is_ten_thousand() {
    assert_eq!(BPS_DENOMINATOR, 10_000);
}

#[test]
fn fee_of_thirty_bps_on_one_thousand() {
    assert_eq!(amount_after_fee(1000, 30), Ok(997));
}

#[test]
fn fee_rounds_towards_zero() {
    // 3 * 5000 / 10000 = 1.5
    assert_eq!(amount_after_fee(3, 5000), Ok(1));
    // 1 * 9999 / 10000 = 0.9999
    assert_eq!(amount_after_fee(1, 1), Ok(0));
    // 10000 * 9999 / 10000 = 9999
    assert_eq!(amount_after_fee(10_000, 1), Ok(9999));
    // 333 * 9970 / 10000 = 332.001
    assert_eq!(amount_after_fee(333, 30), Ok(332));
}

#[test]
fn zero_fee_keeps_the_amount() {
    assert_eq!(amount_after_fee(1, 0), Ok(1));
    assert_eq!(amount_after_fee(123_456_789, 0), Ok(123_456_789));
    assert_eq!(amount_after_fee(u64::MAX, 0), Ok(u64::MAX));
}

#[test]
fn fee_of_zero_amount_is_zero() {
    assert_eq!(amount_after_fee(0, 0), Ok(0));
    assert_eq!(amount_after_fee(0, 30), Ok(0));
}

#[test]
fn fee_does_not_wrap_on_the_largest_amount() {
    assert_eq!(amount_after_fee(u64::MAX, 30), Ok(18_391_403_841_488_422_960));
    assert_eq!(amount_after_fee(u64::MAX, 9999), Ok(1_844_674_407_370_955));
}

#[test]
fn fee_of_the_whole_keeps_nothing() {
    assert_eq!(amount_after_fee(1000, 10_000), Ok(0));
    assert_eq!(amount_after_fee(u64::MAX, 10_000), Ok(0));
}

#[test]
fn fee_above_the_whole_is_an_overflow() {
    assert_eq!(amount_after_fee(1000, 10_001), Err(AmmError::ArithmeticOverflow));
    assert_eq!(amount_after_fee(0, u16::MAX), Err(AmmError::ArithmeticOverflow));
}

#[test]
fn fee_never_adds_and_is_free_only_at_zero() {
    let amounts: [u64; 6] = [1, 2, 9_999, 10_000, 1_000_003, u64::MAX];
    let fees: [u16; 6] = [0, 1, 30, 5_000, 9_998, 9_999];
    for amount in amounts {
        for fee in fees {
            let after = amount_after_fee(amount, fee).unwrap();
            assert!(after <= amount);
            assert_eq!(after == amount, fee == 0);
        }
    }
}

#[test]
fn curve_output_of_the_worked_example() {
    // 2_000_000 - floor(1_000_000 * 2_000_000 / 1_000_997) = 2_000_000 - 1_998_007
    assert_eq!(swap_output(1_000_000, 2_000_000, 997), Ok(1993));
}

#[test]
fn curve_output_small_values() {
    // 10 - floor(30 / 5) = 4
    assert_eq!(swap_output(3, 10, 2), Ok(4));
    // 1000 - floor(1_000_000 / 2000) = 500
    assert_eq!(swap_output(1000, 1000, 1000), Ok(500));
    // 1000 - floor(1_000_000 / 10_999) = 1000 - 90
    assert_eq!(swap_output(1000, 1000, 9999), Ok(910));
}

#[test]
fn curve_output_of_no_input_is_nothing() {
    assert_eq!(swap_output(5, 7, 0), Ok(0));
    assert_eq!(swap_output(u64::MAX, u64::MAX, 0), Ok(0));
}

#[test]
fn curve_output_at_the_edge_of_the_range() {
    assert_eq!(swap_output(u64::MAX, u64::MAX, u64::MAX), Ok(9_223_372_036_854_775_808));
    assert_eq!(swap_output(u64::MAX, u64::MAX, 1), Ok(1));
    assert_eq!(swap_output(1, u64::MAX, u64::MAX), Ok(u64::MAX));
}

#[test]
fn curve_rejects_an_empty_reserve() {
    assert_eq!(swap_output(0, 2_000_000, 997), Err(AmmError::DivisionByZero));
    assert_eq!(swap_output(1_000_000, 0, 997), Err(AmmError::DivisionByZero));
    assert_eq!(swap_output(0, 0, 0), Err(AmmError::DivisionByZero));
}

#[test]
fn output_never_falls_when_the_input_grows() {
    let amounts: [u64; 8] = [1, 2, 10, 999, 1000, 1001, 50_000, 4_000_000];
    let mut last: u64 = 0;
    for amount in amounts {
        let after = amount_after_fee(amount, 30).unwrap();
        let output = swap_output(1_000_000, 2_000_000, after).unwrap();
        assert!(output >= last);
        last = output;
    }
    assert_eq!(last, 1_599_038);
}

#[test]
fn output_never_grows_when_the_fee_grows() {
    let fees: [u16; 7] = [0, 1, 30, 100, 2_500, 9_999, 10_000];
    let mut last: u64 = u64::MAX;
    for fee in fees {
        let after = amount_after_fee(1000, fee).unwrap();
        let output = swap_output(1_000_000, 2_000_000, after).unwrap();
        assert!(output <= last);
        last = output;
    }
    assert_eq!(last, 0);
    let free = swap_output(1_000_000, 2_000_000, amount_after_fee(1000, 0).unwrap());
    assert_eq!(free, Ok(1999));
}

/// A small generator of scattered 64-bit values.
fn scatter(state: &mut u64) -> u64 {
    *state = state.wrapping_mul(6_364_136_223_846_793_005).wrapping_add(1_442_695_040_888_963_407);
    let shift = (*state >> 58) as u32;
    *state >> shift
}

#[test]
fn fee_and_curve_agree_with_wide_arithmetic() {
    let mut state: u64 = 0x5eed;
    for _ in 0..2000 {
        let reserve_in = scatter(&mut state);
        let reserve_out = scatter(&mut state);
        let amount = scatter(&mut state);
        let fee = (scatter(&mut state) % 10_001) as u16;

        let kept = (amount as u128) * (10_000 - fee as u128) / 10_000;
        assert_eq!(amount_after_fee(amount, fee), Ok(kept as u64));

        let output = swap_output(reserve_in, reserve_out, kept as u64);
        if reserve_in == 0 || reserve_out == 0 {
            assert_eq!(output, Err(AmmError::DivisionByZero));
        } else {
            let left = (reserve_in as u128) * (reserve_out as u128)
                / (reserve_in as u128 + kept);
            assert_eq!(output, Ok((reserve_out as u128 - left) as u64));
        }
    }
}

#[test]
fn output_is_monotonic_on_scattered_values() {
    let mut state: u64 = 0xfee;
    for _ in 0..2000 {
        let reserve_in = scatter(&mut state).max(1);
        let reserve_out = scatter(&mut state).max(1);
        let a = scatter(&mut state);
        let b = scatter(&mut state);
        let f = (scatter(&mut state) % 10_001) as u16;
        let g = (scatter(&mut state) % 10_001) as u16;
        let price = |amount: u64, fee: u16| {
            swap_output(reserve_in, reserve_out, amount_after_fee(amount, fee).unwrap()).unwrap()
        };
        assert!(price(a.min(b), f) <= price(a.max(b), f));
        assert!(price(a, f.max(g)) <= price(a, f.min(g)));
        assert!(price(a, f) <= reserve_out);
    }
}
