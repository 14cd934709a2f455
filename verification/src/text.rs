//! Text primitives shared by the parsers: character classes, trimming, line
//! splitting, UTF-8 byte lengths and decimal rendering, each with the
//! mathematical statement the parsers' contracts are written against.

use vstd::prelude::*;
use vstd::utf8::{char_is_scalar, encode_scalar, encode_utf8};

verus! {

/// Whether a character carries the Unicode `White_Space` property: the
/// controls U+0009 to U+000D, the space, U+0085, U+00A0, U+1680, U+2000 to
/// U+200A, U+2028, U+2029, U+202F, U+205F and U+3000.
pub open spec fn white_space(c: char) -> bool {
    let n = c as u32;
    ||| 0x09 <= n <= 0x0D
    ||| n == 0x20
    ||| n == 0x85
    ||| n == 0xA0
    ||| n == 0x1680
    ||| 0x2000 <= n <= 0x200A
    ||| n == 0x2028
    ||| n == 0x2029
    ||| n == 0x202F
    ||| n == 0x205F
    ||| n == 0x3000
}

/// Whether a character is Unicode alphabetic or Unicode numeric.
pub uninterp spec fn alphanumeric(c: char) -> bool;

/// `char::is_whitespace`: `true` exactly for the characters with the Unicode
/// `White_Space` property, listed in [`white_space`].
pub assume_specification[ char::is_whitespace ](c: char) -> (r: bool)
    ensures
        r == white_space(c),
;

/// `char::is_alphanumeric`: `true` exactly for the characters that are
/// Unicode alphabetic or Unicode numeric. Among ASCII characters those are
/// the letters and the decimal digits.
pub assume_specification[ char::is_alphanumeric ](c: char) -> (r: bool)
    ensures
        r == alphanumeric(c),
        (c as u32) < 0x80 ==> (r <==> ascii_alphanumeric(c)),
;

/// `String::push`: appends one character.
pub assume_specification[ String::push ](string: &mut String, ch: char)
    ensures
        final(string)@ == old(string)@.push(ch),
;

/// The rendering `format!("{:?}")` gives a string: quoted, with escapes.
pub uninterp spec fn debug_quoted(s: Seq<char>) -> Seq<char>;

/// `<str as Debug>::fmt` through `format!`: the string between double quotes,
/// with quotes, backslashes and control characters escaped. The result
/// depends on the text alone; its exact escaping is not stated here.
#[verifier::external_body]
pub(crate) fn debug_quote(value: &str) -> (r: String)
    ensures
        r@ == debug_quoted(value@),
{
    format!("{value:?}")
}

pub open spec fn ascii_digit(c: char) -> bool {
    '0' <= c && c <= '9'
}

pub open spec fn ascii_upper(c: char) -> bool {
    'A' <= c && c <= 'Z'
}

pub open spec fn ascii_lower(c: char) -> bool {
    'a' <= c && c <= 'z'
}

pub open spec fn ascii_alphanumeric(c: char) -> bool {
    ascii_digit(c) || ascii_upper(c) || ascii_lower(c)
}

pub fn is_ascii_digit(c: char) -> (r: bool)
    ensures
        r == ascii_digit(c),
{
    c >= '0' && c <= '9'
}

pub fn is_ascii_upper(c: char) -> (r: bool)
    ensures
        r == ascii_upper(c),
{
    c >= 'A' && c <= 'Z'
}

pub fn is_ascii_lower(c: char) -> (r: bool)
    ensures
        r == ascii_lower(c),
{
    c >= 'a' && c <= 'z'
}

pub fn is_ascii_alphanumeric(c: char) -> (r: bool)
    ensures
        r == ascii_alphanumeric(c),
{
    is_ascii_digit(c) || is_ascii_upper(c) || is_ascii_lower(c)
}

/// The sequence without its leading white space.
pub open spec fn trim_start(s: Seq<char>) -> Seq<char>
    decreases s.len(),
{
    if s.len() > 0 && white_space(s[0]) {
        trim_start(s.drop_first())
    } else {
        s
    }
}

/// The sequence without its trailing white space.
pub open spec fn trim_end(s: Seq<char>) -> Seq<char>
    decreases s.len(),
{
    if s.len() > 0 && white_space(s.last()) {
        trim_end(s.drop_last())
    } else {
        s
    }
}

/// The sequence without leading or trailing white space, as `str::trim`.
pub open spec fn trim(s: Seq<char>) -> Seq<char> {
    trim_end(trim_start(s))
}

/// The number of bytes one character takes in UTF-8.
pub open spec fn utf8_width(c: char) -> nat {
    if (c as u32) <= 0x7F {
        1
    } else if (c as u32) <= 0x7FF {
        2
    } else if (c as u32) <= 0xFFFF {
        3
    } else {
        4
    }
}

/// The number of bytes a character sequence takes in UTF-8.
pub open spec fn utf8_len(s: Seq<char>) -> nat
    decreases s.len(),
{
    if s.len() == 0 {
        0
    } else {
        utf8_width(s[0]) + utf8_len(s.drop_first())
    }
}

pub proof fn lemma_utf8_len_concat(a: Seq<char>, b: Seq<char>)
    ensures
        utf8_len(a + b) == utf8_len(a) + utf8_len(b),
    decreases a.len(),
{
    if a.len() == 0 {
        assert(a + b =~= b);
    } else {
        assert((a + b).drop_first() =~= a.drop_first() + b);
        lemma_utf8_len_concat(a.drop_first(), b);
    }
}

pub proof fn lemma_utf8_len_push(a: Seq<char>, c: char)
    ensures
        utf8_len(a.push(c)) == utf8_len(a) + utf8_width(c),
{
    lemma_utf8_len_concat(a, seq![c]);
    assert(a + seq![c] =~= a.push(c));
    assert(seq![c].drop_first() =~= Seq::<char>::empty());
    assert(utf8_len(seq![c]) == utf8_width(c) + utf8_len(seq![c].drop_first()));
}

/// The byte length `str::len` reports is the UTF-8 length of the characters.
pub proof fn lemma_utf8_len_is_encoded_len(s: Seq<char>)
    ensures
        utf8_len(s) == encode_utf8(s).len(),
    decreases s.len(),
{
    if s.len() > 0 {
        let c = s[0];
        char_is_scalar(c);
        assert(encode_scalar(c as u32).len() == utf8_width(c));
        lemma_utf8_len_is_encoded_len(s.drop_first());
    }
}

pub fn utf8_width_of(c: char) -> (r: usize)
    ensures
        r == utf8_width(c),
{
    let code = c as u32;
    if code <= 0x7F {
        1
    } else if code <= 0x7FF {
        2
    } else if code <= 0xFFFF {
        3
    } else {
        4
    }
}

/// The characters of `text`.
pub fn chars_of(text: &str) -> (out: Vec<char>)
    ensures
        out@ == text@,
{
    let mut out: Vec<char> = Vec::new();
    for c in it: text.chars()
        invariant
            out@ == it.seq().take(it.index() as int),
    {
        out.push(c);
    }
    out
}

/// A string holding `chars[lo..hi]`.
pub fn string_of(chars: &Vec<char>, lo: usize, hi: usize) -> (out: String)
    requires
        lo <= hi <= chars.len(),
    ensures
        out@ == chars@.subrange(lo as int, hi as int),
{
    let mut out = String::new();
    let mut i = lo;
    while i < hi
        invariant
            lo <= i <= hi <= chars.len(),
            out@ == chars@.subrange(lo as int, i as int),
        decreases hi - i,
    {
        out.push(chars[i]);
        assert(chars@.subrange(lo as int, i + 1) =~= chars@.subrange(lo as int, i as int).push(
            chars@[i as int],
        ));
        i += 1;
    }
    out
}

/// Appends `chars[lo..hi]` to `out`.
pub fn push_chars(out: &mut String, chars: &Vec<char>, lo: usize, hi: usize)
    requires
        lo <= hi <= chars.len(),
    ensures
        final(out)@ == old(out)@ + chars@.subrange(lo as int, hi as int),
{
    let ghost start = out@;
    let mut i = lo;
    while i < hi
        invariant
            lo <= i <= hi <= chars.len(),
            out@ == start + chars@.subrange(lo as int, i as int),
        decreases hi - i,
    {
        out.push(chars[i]);
        assert(chars@.subrange(lo as int, i + 1) =~= chars@.subrange(lo as int, i as int).push(
            chars@[i as int],
        ));
        i += 1;
    }
}

/// Appends a string slice to `out`.
pub fn push_text(out: &mut String, text: &str)
    ensures
        final(out)@ == old(out)@ + text@,
{
    let chars = chars_of(text);
    push_chars(out, &chars, 0, chars.len());
    assert(chars@.subrange(0, chars@.len() as int) =~= chars@);
}

/// Whether two character sequences are equal.
pub fn same_chars(a: &Vec<char>, b: &Vec<char>) -> (r: bool)
    ensures
        r == (a@ == b@),
{
    if a.len() != b.len() {
        return false;
    }
    let mut i: usize = 0;
    while i < a.len()
        invariant
            a.len() == b.len(),
            i <= a.len(),
            forall|j: int| 0 <= j < i ==> a@[j] == b@[j],
        decreases a.len() - i,
    {
        if a[i] != b[i] {
            return false;
        }
        i += 1;
    }
    assert(a@ =~= b@);
    true
}

/// Whether two strings hold the same characters.
pub fn same_text(a: &str, b: &str) -> (r: bool)
    ensures
        r == (a@ == b@),
{
    same_chars(&chars_of(a), &chars_of(b))
}

/// Whether `s` starts with `prefix`.
pub open spec fn starts_with(s: Seq<char>, prefix: Seq<char>) -> bool {
    prefix.len() <= s.len() && s.subrange(0, prefix.len() as int) == prefix
}

pub fn starts_with_chars(s: &Vec<char>, prefix: &Vec<char>) -> (r: bool)
    ensures
        r == starts_with(s@, prefix@),
{
    if prefix.len() > s.len() {
        return false;
    }
    let mut i: usize = 0;
    while i < prefix.len()
        invariant
            prefix.len() <= s.len(),
            i <= prefix.len(),
            forall|j: int| 0 <= j < i ==> s@[j] == prefix@[j],
        decreases prefix.len() - i,
    {
        if s[i] != prefix[i] {
            assert(s@.subrange(0, prefix@.len() as int)[i as int] != prefix@[i as int]);
            return false;
        }
        i += 1;
    }
    assert(s@.subrange(0, prefix@.len() as int) =~= prefix@);
    true
}

/// Finds the bounds of `chars[lo..hi]` with surrounding white space removed.
pub fn trim_bounds(chars: &Vec<char>, lo: usize, hi: usize) -> (r: (usize, usize))
    requires
        lo <= hi <= chars.len(),
    ensures
        lo <= r.0 <= r.1 <= hi,
        chars@.subrange(r.0 as int, r.1 as int) == trim(chars@.subrange(lo as int, hi as int)),
{
    let mut start = lo;
    while start < hi && chars[start].is_whitespace()
        invariant
            lo <= start <= hi <= chars.len(),
            trim_start(chars@.subrange(lo as int, hi as int)) == trim_start(
                chars@.subrange(start as int, hi as int),
            ),
        decreases hi - start,
    {
        let ghost s = chars@.subrange(start as int, hi as int);
        assert(s.drop_first() =~= chars@.subrange(start + 1, hi as int));
        start += 1;
    }
    let mut end = hi;
    while end > start && chars[end - 1].is_whitespace()
        invariant
            lo <= start <= end <= hi <= chars.len(),
            trim_end(chars@.subrange(start as int, hi as int)) == trim_end(
                chars@.subrange(start as int, end as int),
            ),
        decreases end - start,
    {
        let ghost s = chars@.subrange(start as int, end as int);
        assert(s.drop_last() =~= chars@.subrange(start as int, end - 1));
        end -= 1;
    }
    (start, end)
}

/// Trimming already-trimmed text changes nothing.
pub proof fn lemma_trim_of_trimmed(s: Seq<char>)
    requires
        s.len() > 0 ==> !white_space(s[0]) && !white_space(s.last()),
    ensures
        trim(s) == s,
{
}

/// The index of the first line feed at or after `i`, or the length.
pub open spec fn line_break(s: Seq<char>, i: int) -> int
    decreases s.len() - i,
{
    if i >= s.len() {
        s.len() as int
    } else if s[i] == '\n' {
        i
    } else {
        line_break(s, i + 1)
    }
}

pub proof fn lemma_line_break_bounds(s: Seq<char>, i: int)
    requires
        0 <= i,
    ensures
        i <= s.len() ==> i <= line_break(s, i) <= s.len(),
        i > s.len() ==> line_break(s, i) == s.len(),
        line_break(s, i) < s.len() ==> s[line_break(s, i)] == '\n',
        forall|j: int| i <= j < line_break(s, i) ==> s[j] != '\n',
    decreases s.len() - i,
{
    if i < s.len() && s[i] != '\n' {
        lemma_line_break_bounds(s, i + 1);
    }
}

/// The end of the line starting at `i`, without its carriage return when
/// the line ends with a line feed, as `str::lines` reads it.
pub open spec fn line_end(s: Seq<char>, i: int) -> int {
    let e = line_break(s, i);
    if e < s.len() && e > i && s[e - 1] == '\r' {
        e - 1
    } else {
        e
    }
}

/// The lines of `s` from position `i`, as `str::lines` yields them.
pub open spec fn lines_from(s: Seq<char>, i: int) -> Seq<Seq<char>>
    decreases s.len() - i,
{
    if i < 0 || i >= s.len() {
        Seq::empty()
    } else {
        let e = line_break(s, i);
        let line = s.subrange(i, line_end(s, i));
        if e < i || e >= s.len() {
            seq![line]
        } else {
            seq![line] + lines_from(s, e + 1)
        }
    }
}

/// The lines of `s`, as `str::lines` yields them.
pub open spec fn lines(s: Seq<char>) -> Seq<Seq<char>> {
    lines_from(s, 0)
}

/// Finds the line starting at `i`: returns its end and the line break.
pub fn next_line(chars: &Vec<char>, i: usize) -> (r: (usize, usize))
    requires
        i < chars.len(),
    ensures
        r.1 == line_break(chars@, i as int),
        r.0 == line_end(chars@, i as int),
        i <= r.0 <= r.1 <= chars.len(),
{
    let mut e = i;
    while e < chars.len() && chars[e] != '\n'
        invariant
            i <= e <= chars.len(),
            line_break(chars@, i as int) == line_break(chars@, e as int),
        decreases chars.len() - e,
    {
        e += 1;
    }
    if e < chars.len() && e > i && chars[e - 1] == '\r' {
        (e - 1, e)
    } else {
        (e, e)
    }
}

/// The decimal digits of `n`.
pub open spec fn decimal(n: nat) -> Seq<char>
    decreases n,
{
    if n < 10 {
        seq![digit_char(n)]
    } else {
        decimal(n / 10).push(digit_char(n % 10))
    }
}

pub open spec fn digit_char(d: nat) -> char {
    if d == 0 {
        '0'
    } else if d == 1 {
        '1'
    } else if d == 2 {
        '2'
    } else if d == 3 {
        '3'
    } else if d == 4 {
        '4'
    } else if d == 5 {
        '5'
    } else if d == 6 {
        '6'
    } else if d == 7 {
        '7'
    } else if d == 8 {
        '8'
    } else {
        '9'
    }
}

fn digit_of(d: u64) -> (c: char)
    requires
        d < 10,
    ensures
        c == digit_char(d as nat),
{
    if d == 0 {
        '0'
    } else if d == 1 {
        '1'
    } else if d == 2 {
        '2'
    } else if d == 3 {
        '3'
    } else if d == 4 {
        '4'
    } else if d == 5 {
        '5'
    } else if d == 6 {
        '6'
    } else if d == 7 {
        '7'
    } else if d == 8 {
        '8'
    } else {
        '9'
    }
}

/// Appends the decimal digits of `n`.
pub fn push_decimal(out: &mut String, n: u64)
    ensures
        final(out)@ == old(out)@ + decimal(n as nat),
    decreases n,
{
    if n < 10 {
        out.push(digit_of(n));
        assert(old(out)@.push(digit_char(n as nat)) =~= old(out)@ + seq![digit_char(n as nat)]);
    } else {
        push_decimal(out, n / 10);
        out.push(digit_of(n % 10));
        assert(old(out)@ + decimal(n as nat / 10).push(digit_char(n as nat % 10)) =~= (old(out)@
            + decimal(n as nat / 10)).push(digit_char(n as nat % 10)));
    }
}

} // verus!
