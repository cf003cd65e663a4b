use blctl::ops::{
    decrease_from_contents, decrease_value, get_from_contents, increase_from_contents,
    increase_value, max_from_contents, set_from_contents, set_value, ParseError,
};
use blctl::render::render_u32;

#[test]
fn increase_scenario() {
    // max=255, current=100, amount=10%: step = floor(2.55 * 10) = 25.
    assert_eq!(increase_from_contents(b"100\n", b"255\n", 10), Ok(125));
}

#[test]
fn increase_saturates_at_max() {
    assert_eq!(increase_from_contents(b"250\n", b"255\n", 10), Ok(255));
    assert_eq!(increase_from_contents(b"0\n", b"255\n", 100), Ok(255));
}

#[test]
fn increase_truncates_step() {
    // step = floor(2.55 * 1) = 2, not 3.
    assert_eq!(increase_value(0, 255, 1), 2);
}

#[test]
fn increase_by_zero_percent() {
    assert_eq!(increase_from_contents(b"100\n", b"255\n", 0), Ok(100));
}

#[test]
fn increase_over_hundred_percent() {
    assert_eq!(increase_from_contents(b"0\n", b"255\n", 200), Ok(255));
}

#[test]
fn decrease_scenario() {
    // max=255, current=10, amount=50%: step = floor(2.55 * 50) = 127,
    // which exceeds the current value, so the result floors at 0.
    assert_eq!(decrease_from_contents(b"10\n", b"255\n", 50), Ok(0));
}

#[test]
fn decrease_normal_step() {
    assert_eq!(decrease_from_contents(b"100\n", b"255\n", 10), Ok(75));
    assert_eq!(decrease_value(100, 255, 10), 75);
}

#[test]
fn decrease_exact_step_reaches_zero() {
    // current equal to the step decreases to exactly 0.
    assert_eq!(decrease_value(25, 255, 10), 0);
}

#[test]
fn set_scenario() {
    // max=255, request 300: stored value is the maximum.
    assert_eq!(set_from_contents(b"255\n", 300), Ok(255));
}

#[test]
fn set_within_range_is_exact() {
    assert_eq!(set_from_contents(b"255\n", 100), Ok(100));
    assert_eq!(set_value(255, 255), 255);
    assert_eq!(set_value(0, 255), 0);
}

#[test]
fn get_returns_parsed_brightness() {
    assert_eq!(get_from_contents(b"1337\n"), Ok(1337));
    assert_eq!(get_from_contents(b"0"), Ok(0));
}

#[test]
fn max_returns_parsed_maximum() {
    assert_eq!(max_from_contents(b"255\n"), Ok(255));
}

#[test]
fn set_then_get_round_trip() {
    // What `set` writes, `get` reads back: the clamped request.
    let max = b"255\n";
    for request in [0u32, 100, 255, 300, 4000000000] {
        let stored = set_from_contents(max, request).unwrap();
        let written = render_u32(stored);
        assert_eq!(get_from_contents(&written), Ok(stored));
        assert_eq!(stored, request.min(255));
    }
}

#[test]
fn increase_write_round_trips() {
    let stored = increase_from_contents(b"100\n", b"255\n", 10).unwrap();
    let written = render_u32(stored);
    assert_eq!(written, b"125".to_vec());
    assert_eq!(get_from_contents(&written), Ok(125));
}

#[test]
fn render_decimal_text() {
    assert_eq!(render_u32(0), b"0".to_vec());
    assert_eq!(render_u32(7), b"7".to_vec());
    assert_eq!(render_u32(255), b"255".to_vec());
    assert_eq!(render_u32(1000), b"1000".to_vec());
    assert_eq!(render_u32(u32::MAX), b"4294967295".to_vec());
}

#[test]
fn parse_accepts_surrounding_whitespace() {
    assert_eq!(get_from_contents(b"  42 \t\n"), Ok(42));
    assert_eq!(get_from_contents(b"\n817\n"), Ok(817));
}

#[test]
fn parse_accepts_leading_zeros() {
    assert_eq!(get_from_contents(b"007\n"), Ok(7));
    assert_eq!(get_from_contents(b"000\n"), Ok(0));
}

#[test]
fn parse_accepts_u32_max_but_not_more() {
    assert_eq!(get_from_contents(b"4294967295\n"), Ok(4294967295));
    assert_eq!(get_from_contents(b"4294967296\n"), Err(ParseError::Brightness));
    assert_eq!(get_from_contents(b"99999999999999999999\n"), Err(ParseError::Brightness));
}

#[test]
fn malformed_empty_content() {
    assert_eq!(get_from_contents(b""), Err(ParseError::Brightness));
    assert_eq!(get_from_contents(b" \n"), Err(ParseError::Brightness));
}

#[test]
fn malformed_non_numeric_content() {
    assert_eq!(get_from_contents(b"abc\n"), Err(ParseError::Brightness));
    assert_eq!(get_from_contents(b"12a\n"), Err(ParseError::Brightness));
    assert_eq!(get_from_contents(b"-5\n"), Err(ParseError::Brightness));
    assert_eq!(get_from_contents(b"1 2\n"), Err(ParseError::Brightness));
}

#[test]
fn malformed_brightness_fails_each_operation() {
    assert_eq!(increase_from_contents(b"?\n", b"255\n", 10), Err(ParseError::Brightness));
    assert_eq!(decrease_from_contents(b"\n", b"255\n", 10), Err(ParseError::Brightness));
}

#[test]
fn malformed_maximum_fails_each_operation() {
    assert_eq!(increase_from_contents(b"100\n", b"x\n", 10), Err(ParseError::MaxBrightness));
    assert_eq!(decrease_from_contents(b"100\n", b"", 10), Err(ParseError::MaxBrightness));
    assert_eq!(set_from_contents(b"oops", 100), Err(ParseError::MaxBrightness));
    assert_eq!(max_from_contents(b"2 55\n"), Err(ParseError::MaxBrightness));
}

#[test]
fn large_device_range_has_no_overflow() {
    assert_eq!(increase_from_contents(b"4294967294\n", b"4294967295\n", 100), Ok(4294967295));
    assert_eq!(set_from_contents(b"4294967295\n", u32::MAX), Ok(u32::MAX));
    assert_eq!(decrease_from_contents(b"4294967295\n", b"4294967295\n", 100), Ok(0));
}
