//! Rendering a brightness value as the text written back to the
//! kernel interface file: plain decimal digits, no sign, no leading
//! zeros, no trailing newline.

use vstd::prelude::*;
use crate::parse::{
    all_digits, digits_val, is_digit, is_space, parse_u32_spec, trimmed,
    lemma_trim_front_nospace, lemma_trim_back_nospace,
};

verus! {

/// The decimal digit run denoting `v`, most significant digit first.
pub open spec fn decimal_digits(v: nat) -> Seq<u8>
    decreases v,
{
    if v < 10 {
        seq![(48 + v) as u8]
    } else {
        decimal_digits(v / 10).push((48 + v % 10) as u8)
    }
}

/// Render a brightness value as decimal text, the exact bytes written
/// to the kernel interface file.
pub fn render_u32(v: u32) -> (r: Vec<u8>)
    ensures
        r@ == decimal_digits(v as nat),
    decreases v,
{
    if v < 10 {
        let mut r: Vec<u8> = Vec::new();
        r.push(48 + v as u8);
        proof {
            assert(r@ =~= decimal_digits(v as nat));
        }
        r
    } else {
        let mut r = render_u32(v / 10);
        r.push(48 + (v % 10) as u8);
        proof {
            assert(v / 10 == (v as nat) / 10);
            assert(r@ =~= decimal_digits(v as nat));
        }
        r
    }
}

/// A rendered value is a nonempty run of digits.
proof fn lemma_decimal_digits_wf(v: nat)
    ensures
        decimal_digits(v).len() >= 1,
        all_digits(decimal_digits(v)),
    decreases v,
{
    if v >= 10 {
        lemma_decimal_digits_wf(v / 10);
        let d = decimal_digits(v);
        assert(forall|i: int| 0 <= i < d.len() - 1 ==> is_digit(#[trigger] d[i]));
        assert(is_digit(d[d.len() - 1]));
    }
}

/// Rendering is faithful: the digit run of `v` denotes `v`.
proof fn lemma_decimal_digits_val(v: nat)
    ensures
        digits_val(decimal_digits(v)) == v,
    decreases v,
{
    if v < 10 {
        let d = decimal_digits(v);
        assert(d.subrange(0, 0) =~= Seq::<u8>::empty());
        assert(digits_val(Seq::<u8>::empty()) == 0);
        assert(digits_val(d) == digits_val(d.subrange(0, 0)) * 10 + d[0] - 48);
    } else {
        lemma_decimal_digits_val(v / 10);
        let d = decimal_digits(v);
        assert(d.subrange(0, d.len() - 1) =~= decimal_digits(v / 10));
        assert(digits_val(d) == digits_val(decimal_digits(v / 10)) * 10 + (v % 10));
        assert((v / 10) * 10 + v % 10 == v) by (nonlinear_arith);
    }
}

/// Round trip between rendering and parsing: the text written for a
/// value reads back as exactly that value.
pub proof fn lemma_render_parses_back(v: u32)
    ensures
        parse_u32_spec(decimal_digits(v as nat)) == Some(v),
{
    let d = decimal_digits(v as nat);
    lemma_decimal_digits_wf(v as nat);
    lemma_decimal_digits_val(v as nat);
    assert(is_digit(d[0]) && !is_space(d[0]));
    assert(is_digit(d[d.len() - 1]) && !is_space(d[d.len() - 1]));
    lemma_trim_front_nospace(d);
    lemma_trim_back_nospace(d);
    assert(trimmed(d) == d);
}

} // verus!
