//! Parsing of kernel interface file text.
//!
//! A kernel interface file holds a decimal number as ASCII text,
//! optionally surrounded by whitespace such as a trailing newline. A
//! read trims that whitespace and parses the rest as a `u32`; anything
//! else is malformed.

use vstd::prelude::*;

verus! {

/// ASCII whitespace: space, tab, line feed, vertical tab, form feed,
/// carriage return. These are the bytes that trimming removes.
pub open spec fn is_space(b: u8) -> bool {
    b == 32 || (9 <= b && b <= 13)
}

/// An ASCII decimal digit.
pub open spec fn is_digit(b: u8) -> bool {
    48 <= b && b <= 57
}

/// `s` with its leading whitespace removed.
pub open spec fn trim_front(s: Seq<u8>) -> Seq<u8>
    decreases s.len(),
{
    if s.len() > 0 && is_space(s[0]) {
        trim_front(s.subrange(1, s.len() as int))
    } else {
        s
    }
}

/// `s` with its trailing whitespace removed.
pub open spec fn trim_back(s: Seq<u8>) -> Seq<u8>
    decreases s.len(),
{
    if s.len() > 0 && is_space(s[s.len() - 1]) {
        trim_back(s.subrange(0, s.len() - 1))
    } else {
        s
    }
}

/// `s` with whitespace removed from both ends.
pub open spec fn trimmed(s: Seq<u8>) -> Seq<u8> {
    trim_back(trim_front(s))
}

/// Every byte of `s` is a decimal digit.
pub open spec fn all_digits(s: Seq<u8>) -> bool {
    forall|i: int| 0 <= i < s.len() ==> is_digit(#[trigger] s[i])
}

/// The number that a run of decimal digits denotes, most significant
/// digit first.
pub open spec fn digits_val(s: Seq<u8>) -> int
    decreases s.len(),
{
    if s.len() == 0 {
        0
    } else {
        digits_val(s.subrange(0, s.len() - 1)) * 10 + s[s.len() - 1] - 48
    }
}

/// What reading a kernel interface file yields: after trimming, the
/// text must be a nonempty run of decimal digits whose value fits in a
/// `u32`; any other content is malformed.
pub open spec fn parse_u32_spec(s: Seq<u8>) -> Option<u32> {
    let t = trimmed(s);
    if t.len() > 0 && all_digits(t) && digits_val(t) <= u32::MAX {
        Some(digits_val(t) as u32)
    } else {
        None
    }
}

/// Dropping a wholly-whitespace prefix does not change what trimming
/// the front yields.
proof fn lemma_trim_front_skip(s: Seq<u8>, i: int)
    requires
        0 <= i <= s.len(),
        forall|j: int| 0 <= j < i ==> is_space(#[trigger] s[j]),
    ensures
        trim_front(s) == trim_front(s.subrange(i, s.len() as int)),
    decreases i,
{
    if i == 0 {
        assert(s.subrange(0, s.len() as int) =~= s);
    } else {
        let rest = s.subrange(1, s.len() as int);
        lemma_trim_front_skip(rest, i - 1);
        assert(rest.subrange(i - 1, rest.len() as int) =~= s.subrange(i, s.len() as int));
    }
}

/// Trimming the front of a sequence that does not start with whitespace
/// leaves it unchanged.
pub(crate) proof fn lemma_trim_front_nospace(s: Seq<u8>)
    requires
        s.len() == 0 || !is_space(s[0]),
    ensures
        trim_front(s) == s,
{
}

/// Dropping a wholly-whitespace suffix does not change what trimming
/// the back yields.
proof fn lemma_trim_back_take(s: Seq<u8>, k: int)
    requires
        0 <= k <= s.len(),
        forall|j: int| k <= j < s.len() ==> is_space(#[trigger] s[j]),
    ensures
        trim_back(s) == trim_back(s.subrange(0, k)),
    decreases s.len() - k,
{
    if k == s.len() {
        assert(s.subrange(0, s.len() as int) =~= s);
    } else {
        let front = s.subrange(0, s.len() - 1);
        lemma_trim_back_take(front, k);
        assert(front.subrange(0, k) =~= s.subrange(0, k));
    }
}

/// Trimming the back of a sequence that does not end with whitespace
/// leaves it unchanged.
pub(crate) proof fn lemma_trim_back_nospace(s: Seq<u8>)
    requires
        s.len() == 0 || !is_space(s[s.len() - 1]),
    ensures
        trim_back(s) == s,
{
}

/// A sequence of digits is nonnegative as a number.
proof fn lemma_digits_val_nonneg(s: Seq<u8>)
    requires
        all_digits(s),
    ensures
        digits_val(s) >= 0,
    decreases s.len(),
{
    if s.len() > 0 {
        let front = s.subrange(0, s.len() - 1);
        lemma_digits_val_nonneg(front);
    }
}

/// Parse the content of a kernel interface file: trim surrounding
/// whitespace, then read the rest as an unsigned decimal number.
/// Yields `None` when the trimmed text is empty, holds a non-digit, or
/// denotes a value that does not fit in a `u32`.
pub fn parse_u32(s: &[u8]) -> (r: Option<u32>)
    ensures
        r == parse_u32_spec(s@),
{
    let n: usize = s.len();

    let mut lo: usize = 0;
    while lo < n && (s[lo] == 32 || (9 <= s[lo] && s[lo] <= 13))
        invariant
            n == s@.len(),
            0 <= lo <= n,
            forall|j: int| 0 <= j < lo ==> is_space(#[trigger] s@[j]),
        decreases n - lo,
    {
        lo = lo + 1;
    }

    let mut hi: usize = n;
    while hi > lo && (s[hi - 1] == 32 || (9 <= s[hi - 1] && s[hi - 1] <= 13))
        invariant
            n == s@.len(),
            0 <= lo <= hi <= n,
            forall|j: int| hi <= j < n ==> is_space(#[trigger] s@[j]),
        decreases hi - lo,
    {
        hi = hi - 1;
    }

    let ghost t = s@.subrange(lo as int, hi as int);
    proof {
        lemma_trim_front_skip(s@, lo as int);
        let tail = s@.subrange(lo as int, n as int);
        lemma_trim_front_nospace(tail);
        lemma_trim_back_take(tail, hi - lo);
        assert(tail.subrange(0, hi - lo) =~= t);
        lemma_trim_back_nospace(t);
        assert(trimmed(s@) == t);
    }

    if lo == hi {
        return None;
    }

    let mut acc: u64 = 0;
    let mut i: usize = lo;
    while i < hi
        invariant
            n == s@.len(),
            0 <= lo <= i <= hi <= n,
            t == s@.subrange(lo as int, hi as int),
            trimmed(s@) == t,
            lo < hi,
            forall|j: int| lo <= j < i ==> is_digit(#[trigger] s@[j]),
            acc == digits_val(s@.subrange(lo as int, i as int)),
            acc <= u32::MAX,
        decreases hi - i,
    {
        let b = s[i];
        if !(48 <= b && b <= 57) {
            proof {
                assert(!is_digit(t[i - lo]));
            }
            return None;
        }
        let next: u64 = acc * 10 + (b - 48) as u64;
        if next > 0xffff_ffff {
            proof {
                let pre = s@.subrange(lo as int, i + 1);
                assert(pre.subrange(0, pre.len() - 1) =~= s@.subrange(lo as int, i as int));
                assert(digits_val(pre) == next);
                if all_digits(t) && digits_val(t) <= u32::MAX {
                    assert(t.subrange(0, i + 1 - lo) =~= pre);
                    lemma_digits_val_prefix_le(t, i + 1 - lo);
                }
            }
            return None;
        }
        proof {
            let pre = s@.subrange(lo as int, i + 1);
            assert(pre.subrange(0, pre.len() - 1) =~= s@.subrange(lo as int, i as int));
            assert(digits_val(pre) == next);
        }
        acc = next;
        i = i + 1;
    }

    proof {
        assert(s@.subrange(lo as int, i as int) =~= t);
        assert(forall|j: int| 0 <= j < t.len() ==> is_digit(#[trigger] t[j]));
    }
    Some(acc as u32)
}

/// A prefix of a digit run denotes no more than the whole run.
proof fn lemma_digits_val_prefix_le(s: Seq<u8>, k: int)
    requires
        all_digits(s),
        0 <= k <= s.len(),
    ensures
        digits_val(s.subrange(0, k)) <= digits_val(s),
    decreases s.len() - k,
{
    if k == s.len() {
        assert(s.subrange(0, s.len() as int) =~= s);
    } else {
        let front = s.subrange(0, s.len() - 1);
        lemma_digits_val_prefix_le(front, k);
        assert(front.subrange(0, k) =~= s.subrange(0, k));
        lemma_digits_val_nonneg(front);
    }
}

} // verus!
