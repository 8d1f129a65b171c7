use ws_socket::price::{parse_price, PriceError, PRICE_SCALE};

#[test]
fn whole_numbers_scale_to_billionths() {
    assert_eq!(parse_price("10"), Ok(10 * PRICE_SCALE));
    assert_eq!(parse_price("100.0"), Ok(100 * PRICE_SCALE));
    assert_eq!(parse_price("0"), Ok(0));
}

#[test]
fn fractions_are_exact_to_nine_digits() {
    assert_eq!(parse_price("1.5"), Ok(1_500_000_000));
    assert_eq!(parse_price("0.000000001"), Ok(1));
    assert_eq!(parse_price("42.123456789"), Ok(42_123_456_789));
}

#[test]
fn dot_edge_forms_parse_like_decimals() {
    assert_eq!(parse_price("1."), Ok(PRICE_SCALE));
    assert_eq!(parse_price(".5"), Ok(500_000_000));
}

#[test]
fn tenth_fractional_digit_is_truncated() {
    assert_eq!(parse_price("1.2345678901"), Ok(1_234_567_890));
}

#[test]
fn non_numeric_prices_are_rejected_not_coerced() {
    assert_eq!(parse_price("abc"), Err(PriceError::Invalid));
    assert_eq!(parse_price(""), Err(PriceError::Invalid));
    assert_eq!(parse_price("."), Err(PriceError::Invalid));
    assert_eq!(parse_price("1e5"), Err(PriceError::Invalid));
    assert_eq!(parse_price("-1"), Err(PriceError::Invalid));
    assert_eq!(parse_price("1.2.3"), Err(PriceError::Invalid));
    assert_eq!(parse_price("1 "), Err(PriceError::Invalid));
}

#[test]
fn out_of_range_is_overflow_not_wraparound() {
    let huge = "9".repeat(60);
    assert_eq!(parse_price(&huge), Err(PriceError::Overflow));
}
