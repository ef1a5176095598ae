use binance_websocket::decimal::fixed_from_parts;
use binance_websocket::decimal::parse_fixed;
use binance_websocket::decimal::parse_or_zero;

const ONE: u128 = 1_000_000_000_000_000_000;

#[test]
fn parse_simple_decimal() {
    assert_eq!(parse_fixed("10.5"), Some(10 * ONE + ONE / 2));
}

#[test]
fn parse_integer() {
    assert_eq!(parse_or_zero("7"), 7 * ONE);
}

#[test]
fn parse_zero() {
    assert_eq!(parse_fixed("0"), Some(0));
    assert_eq!(parse_fixed("0.000"), Some(0));
}

#[test]
fn parse_garbage_rejected() {
    assert_eq!(parse_fixed("abc"), None);
    assert_eq!(parse_or_zero("abc"), 0);
}

#[test]
fn parse_empty_rejected() {
    assert_eq!(parse_fixed(""), None);
}

#[test]
fn parse_negative_rejected() {
    assert_eq!(parse_fixed("-1"), None);
    assert_eq!(parse_or_zero("-0.5"), 0);
}

#[test]
fn parse_deepest_exact_fraction() {
    // Exactly the smallest representable step.
    assert_eq!(parse_fixed("0.000000000000000001"), Some(1));
    // Nineteen fractional digits, but exactly a multiple of the step.
    assert_eq!(parse_fixed("0.0000000000000000010"), Some(1));
}

#[test]
fn parse_too_fine_rejected() {
    // Below the smallest representable step: exactness would be lost.
    assert_eq!(parse_fixed("0.0000000000000000001"), None);
    assert_eq!(parse_or_zero("0.0000000000000000001"), 0);
}

#[test]
fn fixed_from_parts_scales_up() {
    // 10.5 as mantissa 105, scale 1.
    assert_eq!(fixed_from_parts(105, 1), Some(10 * ONE + ONE / 2));
}

#[test]
fn fixed_from_parts_scales_down() {
    // 10^-19 is not representable; 10 * 10^-19 is.
    assert_eq!(fixed_from_parts(1, 19), None);
    assert_eq!(fixed_from_parts(10, 19), Some(1));
}

#[test]
fn fixed_from_parts_negative_rejected() {
    assert_eq!(fixed_from_parts(-105, 1), None);
}

#[test]
fn parse_at_the_representable_ceiling() {
    // The largest integer whose fixed-point encoding still fits in a u128.
    assert_eq!(
        parse_fixed("340282366920938463463"),
        Some(340_282_366_920_938_463_463_000_000_000_000_000_000)
    );
    // One more and the encoding overflows.
    assert_eq!(parse_fixed("340282366920938463464"), None);
    assert_eq!(parse_or_zero("340282366920938463464"), 0);
}
