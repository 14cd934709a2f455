//! Sizes as systemd writes them: a decimal count with an optional binary suffix.
//!
//! `repart.d(5)` sizes are `K`, `M`, `G`, `T`, `P` and `E` over 1024, or a bare
//! byte count. Parsing is exact and checked: an overflowing product is a
//! refusal, never a wrapped value.

use vstd::prelude::*;
use crate::text::{
    ascii_digit, chars_of, is_ascii_digit, lemma_utf8_len_push, trim, trim_bounds,
    utf8_len, utf8_width_of,
};

verus! {

/// One kibibyte, in bytes.
pub const KIBIBYTE: u64 = 1024;

/// One mebibyte, in bytes.
pub const MEBIBYTE: u64 = 1_048_576;

/// One gibibyte, in bytes.
pub const GIBIBYTE: u64 = 1_073_741_824;

/// The smallest ESP the reviewed definitions admit (REQ-P01-10).
pub const ESP_MIN_BYTES: u64 = 536_870_912;

/// The largest ESP the reviewed definitions admit (REQ-P01-10).
pub const ESP_MAX_BYTES: u64 = 1_073_741_824;

/// Scalar bound on the digits a size may carry.
pub const MAX_SIZE_DIGITS: usize = 20;

/// The multiplier a suffix letter names: `K`, `M`, `G`, `T`, `P` and `E`
/// are successive powers of 1024.
pub open spec fn suffix_factor(c: char) -> Option<u64> {
    if c == 'K' {
        Some(1024)
    } else if c == 'M' {
        Some(1_048_576)
    } else if c == 'G' {
        Some(1_073_741_824)
    } else if c == 'T' {
        Some(1_099_511_627_776)
    } else if c == 'P' {
        Some(1_125_899_906_842_624)
    } else if c == 'E' {
        Some(1_152_921_504_606_846_976)
    } else {
        None
    }
}

/// Every character is an ASCII decimal digit.
pub open spec fn all_ascii_digits(s: Seq<char>) -> bool {
    forall|i: int| 0 <= i < s.len() ==> ascii_digit(#[trigger] s[i])
}

/// The value of a run of decimal digits.
pub open spec fn digits_value(s: Seq<char>) -> nat
    decreases s.len(),
{
    if s.len() == 0 {
        0
    } else {
        digits_value(s.drop_last()) * 10 + ((s.last() as u32) - ('0' as u32)) as nat
    }
}

/// What `parse_size` reads `text` as: surrounding white space is ignored,
/// the rest must be at most [`MAX_SIZE_DIGITS`] decimal digits with an
/// optional suffix letter (so at most 21 bytes in all), and the product must
/// fit in 64 bits.
pub open spec fn size_value(text: Seq<char>) -> Option<u64> {
    let t = trim(text);
    if t.len() == 0 || utf8_len(t) > MAX_SIZE_DIGITS + 1 {
        None
    } else {
        let digits = if ascii_digit(t.last()) {
            t
        } else {
            t.drop_last()
        };
        let factor: nat = if ascii_digit(t.last()) {
            1
        } else {
            match suffix_factor(t.last()) {
                Some(f) => f as nat,
                None => 0,
            }
        };
        if factor == 0 || digits.len() == 0 || digits.len() > MAX_SIZE_DIGITS || !all_ascii_digits(
            digits,
        ) {
            None
        } else if digits_value(digits) > u64::MAX || digits_value(digits) * factor > u64::MAX {
            None
        } else {
            Some((digits_value(digits) * factor) as u64)
        }
    }
}

/// Returns the multiplier `suffix` names, or `None` when it names none.
fn multiplier(suffix: char) -> (r: Option<u64>)
    ensures
        r == suffix_factor(suffix),
{
    if suffix == 'K' {
        Some(KIBIBYTE)
    } else if suffix == 'M' {
        Some(MEBIBYTE)
    } else if suffix == 'G' {
        Some(GIBIBYTE)
    } else if suffix == 'T' {
        Some(1_099_511_627_776)
    } else if suffix == 'P' {
        Some(1_125_899_906_842_624)
    } else if suffix == 'E' {
        Some(1_152_921_504_606_846_976)
    } else {
        None
    }
}

/// A longer run of digits is worth at least as much as its prefix.
proof fn lemma_digits_value_prefix(s: Seq<char>, n: int)
    requires
        0 <= n <= s.len(),
    ensures
        digits_value(s.subrange(0, n)) <= digits_value(s),
    decreases s.len() - n,
{
    if n < s.len() {
        lemma_digits_value_prefix(s, n + 1);
        assert(s.subrange(0, n + 1).drop_last() =~= s.subrange(0, n));
    } else {
        assert(s.subrange(0, n) =~= s);
    }
}

/// Splits `chars[lo..hi]` into its digits and its optional suffix multiplier.
fn split_suffix(chars: &Vec<char>, lo: usize, hi: usize) -> (r: Option<(usize, u64)>)
    requires
        lo < hi <= chars.len(),
    ensures
        ({
            let t = chars@.subrange(lo as int, hi as int);
            match r {
                Some((end, factor)) => if ascii_digit(t.last()) {
                    end == hi && factor == 1
                } else {
                    end == hi - 1 && suffix_factor(t.last()) == Some(factor)
                },
                None => !ascii_digit(t.last()) && suffix_factor(t.last()) is None,
            }
        }),
{
    let last = chars[hi - 1];
    if is_ascii_digit(last) {
        return Some((hi, 1));
    }
    match multiplier(last) {
        Some(factor) => Some((hi - 1, factor)),
        None => None,
    }
}

/// Parses a systemd size, returning the exact byte count.
///
/// Returns `None` when `text` is not a decimal count of at most
/// [`MAX_SIZE_DIGITS`] digits with an optional `K`, `M`, `G`, `T`, `P` or `E`
/// suffix, or when the product overflows `u64`.
pub fn parse_size(text: &str) -> (r: Option<u64>)
    ensures
        r == size_value(text@),
{
    let chars = chars_of(text);
    assert(chars@.subrange(0, chars@.len() as int) =~= chars@);
    parse_size_chars(&chars, 0, chars.len())
}

/// [`parse_size`] over `chars[lo..hi]`.
#[verifier::loop_isolation(false)]
pub fn parse_size_chars(chars: &Vec<char>, lo: usize, hi: usize) -> (r: Option<u64>)
    requires
        lo <= hi <= chars.len(),
    ensures
        r == size_value(chars@.subrange(lo as int, hi as int)),
{
    let ghost text = chars@.subrange(lo as int, hi as int);
    let (start, end) = trim_bounds(chars, lo, hi);
    let ghost t = chars@.subrange(start as int, end as int);
    if start == end {
        return None;
    }
    let mut bytes: usize = 0;
    let mut i = start;
    while i < end
        invariant
            start <= i <= end <= chars.len(),
            bytes == utf8_len(chars@.subrange(start as int, i as int)),
            bytes <= MAX_SIZE_DIGITS + 1,
            t == chars@.subrange(start as int, end as int),
        decreases end - i,
    {
        let width = utf8_width_of(chars[i]);
        proof {
            lemma_utf8_len_push(chars@.subrange(start as int, i as int), chars@[i as int]);
            assert(chars@.subrange(start as int, i + 1) =~= chars@.subrange(start as int, i as int).push(
                chars@[i as int],
            ));
        }
        if bytes + width > MAX_SIZE_DIGITS + 1 {
            proof {
                lemma_utf8_len_prefix(t, i + 1 - start);
                assert(t.subrange(0, i + 1 - start) =~= chars@.subrange(start as int, i + 1));
            }
            return None;
        }
        bytes = bytes + width;
        i += 1;
    }
    let (digits_end, factor) = match split_suffix(chars, start, end) {
        Some(split) => split,
        None => return None,
    };
    let ghost digits = chars@.subrange(start as int, digits_end as int);
    proof {
        if !ascii_digit(t.last()) {
            assert(digits =~= t.drop_last());
        } else {
            assert(digits =~= t);
        }
    }
    if digits_end == start || digits_end - start > MAX_SIZE_DIGITS {
        return None;
    }
    let mut value: u64 = 0;
    let mut k = start;
    while k < digits_end
        invariant
            start <= k <= digits_end <= end <= chars.len(),
            digits == chars@.subrange(start as int, digits_end as int),
            value == digits_value(chars@.subrange(start as int, k as int)),
            forall|j: int| start <= j < k ==> ascii_digit(#[trigger] chars@[j]),
        decreases digits_end - k,
    {
        let c = chars[k];
        proof {
            assert(chars@.subrange(start as int, k + 1).drop_last() =~= chars@.subrange(
                start as int,
                k as int,
            ));
        }
        if !is_ascii_digit(c) {
            proof {
                assert(digits[k - start] == c);
                assert(!all_ascii_digits(digits));
            }
            return None;
        }
        let d = (c as u32 - '0' as u32) as u64;
        let scaled = value.checked_mul(10);
        let next = match scaled {
            Some(s) => s.checked_add(d),
            None => None,
        };
        match next {
            Some(n) => {
                value = n;
            },
            None => {
                proof {
                    assert(all_ascii_digits(digits) ==> digits_value(digits)
                        > u64::MAX) by {
                        lemma_digits_value_prefix(digits, k + 1 - start);
                        assert(digits.subrange(0, k + 1 - start) =~= chars@.subrange(
                            start as int,
                            k + 1,
                        ));
                    }
                }
                return None;
            },
        }
        k += 1;
    }
    proof {
        assert(chars@.subrange(start as int, k as int) =~= digits);
        assert(all_ascii_digits(digits)) by {
            assert forall|j: int| 0 <= j < digits.len() implies ascii_digit(#[trigger] digits[j]) by {
                assert(digits[j] == chars@[start + j]);
            }
        }
    }
    value.checked_mul(factor)
}

/// A longer run of characters takes at least as many bytes as its prefix.
proof fn lemma_utf8_len_prefix(s: Seq<char>, n: int)
    requires
        0 <= n <= s.len(),
    ensures
        utf8_len(s.subrange(0, n)) <= utf8_len(s),
    decreases s.len() - n,
{
    if n < s.len() {
        lemma_utf8_len_prefix(s, n + 1);
        lemma_utf8_len_push(s.subrange(0, n), s[n]);
        assert(s.subrange(0, n + 1) =~= s.subrange(0, n).push(s[n]));
    } else {
        assert(s.subrange(0, n) =~= s);
    }
}

} // verus!
