//! The five brightness operations.
//!
//! Each operation of the daemon is a one-shot read-compute-write
//! sequence: the surrounding process reads the kernel interface files,
//! hands their raw contents here, and writes back the rendered result.
//! Percentage arguments are taken relative to the device maximum: a
//! step of `amount` percent is `floor(max * amount / 100)` brightness
//! units, truncated, never rounded.

use vstd::prelude::*;
use crate::parse::{parse_u32_spec, parse_u32};

verus! {

/// Why an operation could not run: one of the two kernel interface
/// files did not hold an unsigned decimal integer. The daemon treats
/// this as fatal.
#[derive(Clone, Copy, Debug, PartialEq, Eq, Structural)]
pub enum ParseError {
    /// The brightness file is malformed.
    Brightness,
    /// The max-brightness file is malformed.
    MaxBrightness,
}

/// The absolute brightness step that `amount` percent of the device
/// maximum denotes, truncated to whole units.
pub open spec fn delta_spec(max: u32, amount: u32) -> int {
    (max * amount) / 100
}

/// The value stored by an `increase` request: the current value plus
/// the step, saturating at the device maximum.
pub open spec fn increase_spec(current: u32, max: u32, amount: u32) -> u32 {
    if current + delta_spec(max, amount) >= max {
        max
    } else {
        (current + delta_spec(max, amount)) as u32
    }
}

/// The value stored by a `decrease` request: the current value minus
/// the step, floored at zero.
pub open spec fn decrease_spec(current: u32, max: u32, amount: u32) -> u32 {
    if current <= delta_spec(max, amount) {
        0
    } else {
        (current - delta_spec(max, amount)) as u32
    }
}

/// The value stored by a `set` request: the requested value clamped to
/// the device maximum.
pub open spec fn set_spec(value: u32, max: u32) -> u32 {
    if value > max {
        max
    } else {
        value
    }
}

/// The step is never negative.
pub proof fn lemma_delta_nonneg(max: u32, amount: u32)
    ensures
        0 <= delta_spec(max, amount),
{
    assert(0 <= max * amount) by (nonlinear_arith);
}

/// The percentage step, computed in wide arithmetic so that no input
/// can overflow.
fn compute_delta(max: u32, amount: u32) -> (r: u64)
    ensures
        r == delta_spec(max, amount),
        r <= 0xffff_ffff * 0xffff_ffff / 100,
{
    proof {
        assert((max as int) * (amount as int) <= 0xffff_ffff * 0xffff_ffff) by (nonlinear_arith)
            requires
                max <= 0xffff_ffff,
                amount <= 0xffff_ffff,
        ;
        lemma_delta_nonneg(max, amount);
    }
    (max as u64) * (amount as u64) / 100
}

/// New brightness after increasing by `amount` percent of the maximum.
pub fn increase_value(current: u32, max: u32, amount: u32) -> (r: u32)
    ensures
        r == increase_spec(current, max, amount),
{
    let delta = compute_delta(max, amount);
    let sum: u64 = current as u64 + delta;
    if sum >= max as u64 {
        max
    } else {
        sum as u32
    }
}

/// New brightness after decreasing by `amount` percent of the maximum.
pub fn decrease_value(current: u32, max: u32, amount: u32) -> (r: u32)
    ensures
        r == decrease_spec(current, max, amount),
{
    let delta = compute_delta(max, amount);
    if current as u64 <= delta {
        0
    } else {
        current - delta as u32
    }
}

/// New brightness after a `set` request: the request clamped to the
/// device maximum.
pub fn set_value(value: u32, max: u32) -> (r: u32)
    ensures
        value > max ==> r == max,
        value <= max ==> r == value,
        r == set_spec(value, max),
{
    if value > max {
        max
    } else {
        value
    }
}

/// The `increase` operation over the raw contents of the two kernel
/// interface files: parse both, step up by `amount` percent of the
/// maximum, saturating there. `Ok` holds the value to write back;
/// `Err` names the first malformed file (brightness is read first).
pub fn increase_from_contents(brightness: &[u8], max_brightness: &[u8], amount: u32) -> (r:
    Result<u32, ParseError>)
    ensures
        r is Ok <==> parse_u32_spec(brightness@) is Some && parse_u32_spec(max_brightness@)
            is Some,
        r is Ok ==> r->Ok_0 == increase_spec(
            parse_u32_spec(brightness@)->0,
            parse_u32_spec(max_brightness@)->0,
            amount,
        ),
        parse_u32_spec(brightness@) is None ==> r == Err::<u32, ParseError>(
            ParseError::Brightness,
        ),
        parse_u32_spec(brightness@) is Some && parse_u32_spec(max_brightness@) is None ==> r
            == Err::<u32, ParseError>(ParseError::MaxBrightness),
{
    let current = match parse_u32(brightness) {
        Some(v) => v,
        None => {
            return Err(ParseError::Brightness);
        },
    };
    let max = match parse_u32(max_brightness) {
        Some(v) => v,
        None => {
            return Err(ParseError::MaxBrightness);
        },
    };
    Ok(increase_value(current, max, amount))
}

/// The `decrease` operation over the raw contents of the two kernel
/// interface files: parse both, step down by `amount` percent of the
/// maximum, flooring at zero. `Ok` holds the value to write back;
/// `Err` names the first malformed file (brightness is read first).
pub fn decrease_from_contents(brightness: &[u8], max_brightness: &[u8], amount: u32) -> (r:
    Result<u32, ParseError>)
    ensures
        r is Ok <==> parse_u32_spec(brightness@) is Some && parse_u32_spec(max_brightness@)
            is Some,
        r is Ok ==> r->Ok_0 == decrease_spec(
            parse_u32_spec(brightness@)->0,
            parse_u32_spec(max_brightness@)->0,
            amount,
        ),
        parse_u32_spec(brightness@) is None ==> r == Err::<u32, ParseError>(
            ParseError::Brightness,
        ),
        parse_u32_spec(brightness@) is Some && parse_u32_spec(max_brightness@) is None ==> r
            == Err::<u32, ParseError>(ParseError::MaxBrightness),
{
    let current = match parse_u32(brightness) {
        Some(v) => v,
        None => {
            return Err(ParseError::Brightness);
        },
    };
    let max = match parse_u32(max_brightness) {
        Some(v) => v,
        None => {
            return Err(ParseError::MaxBrightness);
        },
    };
    Ok(decrease_value(current, max, amount))
}

/// The `set` operation over the raw content of the max-brightness
/// file: parse it and clamp the requested value to it. `Ok` holds the
/// value to write back; the brightness file is not read.
pub fn set_from_contents(max_brightness: &[u8], value: u32) -> (r: Result<u32, ParseError>)
    ensures
        r is Ok <==> parse_u32_spec(max_brightness@) is Some,
        r is Ok ==> r->Ok_0 == set_spec(value, parse_u32_spec(max_brightness@)->0),
        parse_u32_spec(max_brightness@) is None ==> r == Err::<u32, ParseError>(
            ParseError::MaxBrightness,
        ),
{
    let max = match parse_u32(max_brightness) {
        Some(v) => v,
        None => {
            return Err(ParseError::MaxBrightness);
        },
    };
    Ok(set_value(value, max))
}

/// The `get` operation: exactly the parsed content of the brightness
/// file, which the max-brightness file cannot influence.
pub fn get_from_contents(brightness: &[u8]) -> (r: Result<u32, ParseError>)
    ensures
        r is Ok <==> parse_u32_spec(brightness@) is Some,
        r is Ok ==> r->Ok_0 == parse_u32_spec(brightness@)->0,
        parse_u32_spec(brightness@) is None ==> r == Err::<u32, ParseError>(
            ParseError::Brightness,
        ),
{
    match parse_u32(brightness) {
        Some(v) => Ok(v),
        None => Err(ParseError::Brightness),
    }
}

/// The `max` operation: exactly the parsed content of the
/// max-brightness file, which writes to the brightness file cannot
/// influence.
pub fn max_from_contents(max_brightness: &[u8]) -> (r: Result<u32, ParseError>)
    ensures
        r is Ok <==> parse_u32_spec(max_brightness@) is Some,
        r is Ok ==> r->Ok_0 == parse_u32_spec(max_brightness@)->0,
        parse_u32_spec(max_brightness@) is None ==> r == Err::<u32, ParseError>(
            ParseError::MaxBrightness,
        ),
{
    match parse_u32(max_brightness) {
        Some(v) => Ok(v),
        None => Err(ParseError::MaxBrightness),
    }
}

/// Increasing never lowers the brightness and never exceeds the device
/// maximum; the result is exactly the maximum whenever the current
/// value plus the step reaches it.
pub proof fn lemma_increase_bounds(current: u32, max: u32, amount: u32)
    requires
        max > 0,
        current <= max,
    ensures
        current <= increase_spec(current, max, amount),
        increase_spec(current, max, amount) <= max,
        current + delta_spec(max, amount) >= max ==> increase_spec(current, max, amount) == max,
{
    lemma_delta_nonneg(max, amount);
}

/// Decreasing never raises the brightness, and floors at zero instead
/// of underflowing: when the step covers the whole current value the
/// result is exactly zero.
pub proof fn lemma_decrease_bounds(current: u32, max: u32, amount: u32)
    requires
        current <= max,
    ensures
        decrease_spec(current, max, amount) <= current,
        current <= delta_spec(max, amount) ==> decrease_spec(current, max, amount) == 0,
{
    lemma_delta_nonneg(max, amount);
}

/// Round trip of `set` followed by `get`: the text written for a `set`
/// request parses back as exactly the clamped request.
pub proof fn lemma_set_get_round_trip(value: u32, max: u32)
    ensures
        parse_u32_spec(crate::render::decimal_digits(set_spec(value, max) as nat)) == Some(
            set_spec(value, max),
        ),
{
    crate::render::lemma_render_parses_back(set_spec(value, max));
}

} // verus!
