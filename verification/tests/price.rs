use twap_hook_cpmm::{compute_normalized_price, ErrorCode};

#[test]
fn zero_base_reserve_gives_zero() {
    for base_decimals in [0u8, 6, 9, 18, 255] {
        for quote_decimals in [0u8, 6, 9, 18, 255] {
            for reserve_quote in [0u64, 1, 1_000_000, u64::MAX] {
                assert_eq!(
                    compute_normalized_price(0, reserve_quote, base_decimals, quote_decimals),
                    Ok(0)
                );
            }
        }
    }
}

#[test]
fn equal_decimals_price_of_two() {
    assert_eq!(compute_normalized_price(1_000_000, 2_000_000, 6, 6), Ok(2_000_000));
}

#[test]
fn small_reserves_price_of_two() {
    assert_eq!(compute_normalized_price(500, 1_000, 6, 6), Ok(2_000_000));
}

#[test]
fn base_with_more_decimals_scales_up() {
    // 1 base token (9 places) against 3 quote tokens (6 places): 3.000000
    assert_eq!(compute_normalized_price(1_000_000_000, 3_000_000, 9, 6), Ok(3_000_000));
    assert_eq!(compute_normalized_price(7, 1, 2, 0), Ok(14_285_714));
}

#[test]
fn quote_with_more_decimals_scales_down() {
    // 1 base token (6 places) against 2.5 quote tokens (9 places): 2.500000
    assert_eq!(compute_normalized_price(1_000_000, 2_500_000_000, 6, 9), Ok(2_500_000));
    // exponent 0
    assert_eq!(compute_normalized_price(4, 10, 0, 6), Ok(2));
}

#[test]
fn division_rounds_down() {
    assert_eq!(compute_normalized_price(3, 1, 0, 0), Ok(333_333));
    assert_eq!(compute_normalized_price(3, 2, 0, 0), Ok(666_666));
    assert_eq!(compute_normalized_price(1_000_001, 1, 0, 0), Ok(0));
    assert_eq!(compute_normalized_price(1_000_000, 1, 0, 0), Ok(1));
}

#[test]
fn negative_exponent_divides() {
    // exponent -2: quote / (base * 100)
    assert_eq!(compute_normalized_price(3, 1_000_000, 0, 8), Ok(3_333));
    assert_eq!(compute_normalized_price(1, 99, 0, 8), Ok(0));
    assert_eq!(compute_normalized_price(1, 100, 0, 8), Ok(1));
    // exponent -19, the largest divisor that is computed
    assert_eq!(compute_normalized_price(1, u64::MAX, 0, 25), Ok(1));
    assert_eq!(compute_normalized_price(2, u64::MAX, 0, 25), Ok(0));
    assert_eq!(compute_normalized_price(u64::MAX, u64::MAX, 0, 25), Ok(0));
    // beyond that the divisor exceeds every quote reserve
    assert_eq!(compute_normalized_price(1, u64::MAX, 0, 26), Ok(0));
    assert_eq!(compute_normalized_price(1, u64::MAX, 0, 255), Ok(0));
}

#[test]
fn zero_quote_reserve_gives_zero() {
    assert_eq!(compute_normalized_price(1, 0, 255, 0), Ok(0));
    assert_eq!(compute_normalized_price(u64::MAX, 0, 6, 6), Ok(0));
    assert_eq!(compute_normalized_price(5, 0, 0, 255), Ok(0));
}

#[test]
fn price_that_does_not_fit_is_a_fault() {
    assert_eq!(
        compute_normalized_price(1, u64::MAX, 6, 6),
        Err(ErrorCode::ArithmeticFault)
    );
    assert_eq!(
        compute_normalized_price(1, 18_446_744_073_710, 0, 0),
        Err(ErrorCode::ArithmeticFault)
    );
    // the intermediate product leaves 128 bits
    assert_eq!(
        compute_normalized_price(1, u64::MAX, 32, 0),
        Err(ErrorCode::ArithmeticFault)
    );
    // ten to the exponent leaves 128 bits
    assert_eq!(
        compute_normalized_price(u64::MAX, 1, 255, 0),
        Err(ErrorCode::ArithmeticFault)
    );
    assert_eq!(
        compute_normalized_price(u64::MAX, 1, 33, 0),
        Err(ErrorCode::ArithmeticFault)
    );
}

#[test]
fn largest_price_that_fits() {
    assert_eq!(
        compute_normalized_price(1_000_000, u64::MAX, 0, 0),
        Ok(u64::MAX)
    );
    assert_eq!(compute_normalized_price(1, 18_446_744_073_709, 0, 0), Ok(18_446_744_073_709_000_000));
}

#[test]
fn wide_intermediate_product() {
    // the product needs more than 64 bits, the quotient does not
    assert_eq!(
        compute_normalized_price(u64::MAX, u64::MAX, 12, 0),
        Ok(1_000_000_000_000_000_000)
    );
    // ten to the exponent needs more than 64 bits, the quotient does not
    assert_eq!(
        compute_normalized_price(10_000_000_000_000_000_000, 1, 14, 0),
        Ok(10)
    );
    assert_eq!(
        compute_normalized_price(u64::MAX, 1, 32, 0),
        Ok(5_421_010_862_427_522_170)
    );
}

#[test]
fn price_is_the_ratio_of_the_scaled_reserves() {
    let cases: [(u64, u64, u8, u8); 7] = [
        (500, 1_000, 6, 6),
        (3, 1_000_000, 0, 8),
        (1_000_000_000, 3_000_000, 9, 6),
        (7, 1, 2, 0),
        (123_456_789, 987_654_321, 3, 12),
        (u64::MAX, u64::MAX, 8, 18),
        (u64::MAX, 3, 4, 2),
    ];
    for (rb, rq, bd, qd) in cases {
        let up = rq as u128 * 10u128.pow(6 + bd as u32);
        let down = rb as u128 * 10u128.pow(qd as u32);
        assert_eq!(compute_normalized_price(rb, rq, bd, qd), Ok((up / down) as u64));
    }
}
