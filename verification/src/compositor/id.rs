//! The bounded, allocation-free identifiers the compositor carries: a
//! [`Label`] for a surface title or an application identifier, and a
//! [`KeyExpr`] for the mesh key expression a publication or a subscription
//! names. Each is validated on construction and stored inline; a malformed
//! input is refused, never truncated or sanitised.

use vstd::prelude::*;
use vstd::utf8::{
    char_is_scalar, char_u32_cast, encode_scalar, encode_utf8, has_width_1_encoding, has_width_2_encoding,
    has_width_3_encoding, leading_byte_width_2, leading_byte_width_3, leading_byte_width_4,
};
use crate::text::{decimal, push_decimal, push_text};

verus! {

/// Scalar upper bound, in bytes, on a surface title or application identifier.
pub const MAX_LABEL_LEN: usize = 32;

/// Scalar upper bound, in bytes, on a mesh key expression.
pub const MAX_KEY_EXPR_LEN: usize = 96;

/// The separator between the segments of a key expression, `/`.
pub const KEY_EXPR_SEPARATOR: u8 = 47u8;

/// Reasons an identifier is refused.
#[derive(Debug, Clone, Copy, PartialEq, Eq, Structural)]
#[non_exhaustive]
pub enum IdError {
    /// The identifier was empty.
    Empty,
    /// The identifier was longer than its bound.
    TooLong { max: usize, actual: usize },
    /// The identifier carries a byte outside the permitted character set.
    Charset,
    /// A key expression carries an empty segment.
    EmptyKeySegment,
}

/// The text an [`IdError`] is reported with.
pub open spec fn id_error_message(e: IdError) -> Seq<char> {
    match e {
        IdError::Empty => "an identifier is empty"@,
        IdError::TooLong { max, actual } => "an identifier of "@ + decimal(actual as nat)
            + " bytes exceeds the bound of "@ + decimal(max as nat),
        IdError::Charset => "an identifier carries a byte outside the permitted character set"@,
        IdError::EmptyKeySegment => "a key expression carries an empty segment"@,
    }
}

impl IdError {
    /// The text this refusal is reported with.
    pub fn message(&self) -> (r: String)
        ensures
            r@ == id_error_message(*self),
    {
        let mut out = String::new();
        match self {
            IdError::Empty => push_text(&mut out, "an identifier is empty"),
            IdError::TooLong { max, actual } => {
                push_text(&mut out, "an identifier of ");
                push_decimal(&mut out, *actual as u64);
                push_text(&mut out, " bytes exceeds the bound of ");
                push_decimal(&mut out, *max as u64);
            },
            IdError::Charset => push_text(
                &mut out,
                "an identifier carries a byte outside the permitted character set",
            ),
            IdError::EmptyKeySegment => push_text(
                &mut out,
                "a key expression carries an empty segment",
            ),
        }
        assert(out@ =~= id_error_message(*self));
        out
    }
}

/// Whether `b` is an ASCII letter or digit (`0-9`, `A-Z`, `a-z`).
pub open spec fn alnum_byte(b: u8) -> bool {
    (48u8 <= b <= 57u8) || (65u8 <= b <= 90u8) || (97u8 <= b <= 122u8)
}

/// The bytes permitted inside a label: letters, digits and `.-_:@/`.
pub open spec fn label_byte(b: u8) -> bool {
    alnum_byte(b) || b == 46u8 || b == 45u8 || b == 95u8 || b == 58u8 || b == 64u8 || b == 47u8
}

/// The bytes permitted inside a key expression segment: letters, digits
/// and `.-_*`, where `*` is admitted
/// because a subscription names a pattern.
pub open spec fn key_byte(b: u8) -> bool {
    alnum_byte(b) || b == 46u8 || b == 45u8 || b == 95u8 || b == 42u8
}

/// Why `raw` is refused as a label, if it is: empty, past
/// [`MAX_LABEL_LEN`], then a byte outside the permitted set.
pub open spec fn label_fault(raw: Seq<u8>) -> Option<IdError> {
    if raw.len() == 0 {
        Some(IdError::Empty)
    } else if raw.len() > MAX_LABEL_LEN {
        Some(IdError::TooLong { max: MAX_LABEL_LEN, actual: raw.len() as usize })
    } else if !(forall|i: int| 0 <= i < raw.len() ==> #[trigger] label_byte(raw[i])) {
        Some(IdError::Charset)
    } else {
        None
    }
}

/// One byte of the key-expression walk over the current segment length: a
/// separator closes a non-empty segment and refuses an empty one.
pub open spec fn key_step_spec(b: u8, segment: nat) -> Result<nat, IdError> {
    if b == KEY_EXPR_SEPARATOR {
        if segment == 0 {
            Err(IdError::EmptyKeySegment)
        } else {
            Ok(0)
        }
    } else if key_byte(b) {
        Ok(segment + 1)
    } else {
        Err(IdError::Charset)
    }
}

/// The key-expression walk over `raw`: the length of the open segment, or
/// the first refusal.
pub open spec fn key_walk(raw: Seq<u8>) -> Result<nat, IdError>
    decreases raw.len(),
{
    if raw.len() == 0 {
        Ok(0)
    } else {
        match key_walk(raw.drop_last()) {
            Err(e) => Err(e),
            Ok(segment) => key_step_spec(raw.last(), segment),
        }
    }
}

/// Why `raw` is refused as a key expression, if it is: empty, past
/// [`MAX_KEY_EXPR_LEN`], the first empty segment or foreign byte in order,
/// then a trailing separator.
pub open spec fn key_fault(raw: Seq<u8>) -> Option<IdError> {
    if raw.len() == 0 {
        Some(IdError::Empty)
    } else if raw.len() > MAX_KEY_EXPR_LEN {
        Some(IdError::TooLong { max: MAX_KEY_EXPR_LEN, actual: raw.len() as usize })
    } else {
        match key_walk(raw) {
            Err(e) => Some(e),
            Ok(segment) => if segment == 0 {
                Some(IdError::EmptyKeySegment)
            } else {
                None
            },
        }
    }
}

/// How many separators `v` holds.
pub open spec fn separators(v: Seq<u8>) -> nat
    decreases v.len(),
{
    if v.len() == 0 {
        0
    } else {
        separators(v.drop_last()) + if v.last() == KEY_EXPR_SEPARATOR {
            1nat
        } else {
            0nat
        }
    }
}

/// The characters of ASCII bytes.
pub open spec fn ascii_text(v: Seq<u8>) -> Seq<char> {
    v.map_values(|b: u8| b as char)
}

/// Returns `true` for the bytes permitted inside a label.
fn permitted(byte: u8) -> (r: bool)
    ensures
        r == label_byte(byte),
{
    (byte >= 48u8 && byte <= 57u8) || (byte >= 65u8 && byte <= 90u8) || (byte >= 97u8 && byte
        <= 122u8) || byte == 46u8 || byte == 45u8 || byte == 95u8 || byte == 58u8 || byte == 64u8
        || byte == 47u8
}

/// Returns `true` for the bytes permitted inside a key expression segment.
fn permitted_in_key(byte: u8) -> (r: bool)
    ensures
        r == key_byte(byte),
{
    (byte >= 48u8 && byte <= 57u8) || (byte >= 65u8 && byte <= 90u8) || (byte >= 97u8 && byte
        <= 122u8) || byte == 46u8 || byte == 45u8 || byte == 95u8 || byte == 42u8
}

/// Advances the current segment length over one key-expression byte.
fn key_step(byte: u8, segment_len: usize) -> (r: Result<usize, IdError>)
    requires
        segment_len < usize::MAX,
    ensures
        match r {
            Ok(n) => key_step_spec(byte, segment_len as nat) == Ok::<nat, IdError>(n as nat),
            Err(e) => key_step_spec(byte, segment_len as nat) == Err::<nat, IdError>(e),
        },
{
    if byte == KEY_EXPR_SEPARATOR {
        if segment_len == 0 {
            return Err(IdError::EmptyKeySegment);
        }
        return Ok(0);
    }
    if permitted_in_key(byte) {
        return Ok(segment_len + 1);
    }
    Err(IdError::Charset)
}

/// Copies `raw` into `slot`, refusing an empty, over-long or ill-formed
/// label; on success the first bytes of `slot` hold `raw` and the rest stay
/// as they were.
fn fill(raw: &str, slot: &mut [u8; MAX_LABEL_LEN]) -> (r: Result<u8, IdError>)
    ensures
        match r {
            Ok(len) => {
                &&& label_fault(encode_utf8(raw@)) is None
                &&& len as nat == encode_utf8(raw@).len()
                &&& final(slot)@.subrange(0, len as int) == encode_utf8(raw@)
                &&& final(slot)@.subrange(len as int, 32) == old(slot)@.subrange(len as int, 32)
            },
            Err(e) => label_fault(encode_utf8(raw@)) == Some(e),
        },
{
    let source = raw.as_bytes();
    let n = source.len();
    if n == 0 {
        return Err(IdError::Empty);
    }
    if n > MAX_LABEL_LEN {
        return Err(IdError::TooLong { max: MAX_LABEL_LEN, actual: n });
    }
    let ghost start = slot@;
    let mut i: usize = 0;
    while i < n
        invariant
            i <= n <= MAX_LABEL_LEN,
            n == source@.len(),
            source@ == encode_utf8(raw@),
            slot@.len() == MAX_LABEL_LEN,
            forall|k: int| 0 <= k < i ==> label_byte(#[trigger] source@[k]),
            forall|k: int| 0 <= k < i ==> #[trigger] slot@[k] == source@[k],
            forall|k: int| i <= k < MAX_LABEL_LEN ==> #[trigger] slot@[k] == start[k],
        decreases n - i,
    {
        let byte = source[i];
        if !permitted(byte) {
            return Err(IdError::Charset);
        }
        slot[i] = byte;
        i += 1;
    }
    assert(slot@.subrange(0, n as int) =~= encode_utf8(raw@));
    assert(slot@.subrange(n as int, MAX_LABEL_LEN as int) =~= start.subrange(
        n as int,
        MAX_LABEL_LEN as int,
    ));
    Ok(n as u8)
}

/// A validated surface title or application identifier.
#[derive(Debug, Clone, Copy, PartialEq, Eq, Hash)]
pub struct Label {
    bytes: [u8; MAX_LABEL_LEN],
    len: u8,
}

impl Label {
    /// Every label holds one to [`MAX_LABEL_LEN`] permitted bytes, with the
    /// padding after them zero.
    #[verifier::type_invariant]
    pub closed spec fn well_formed(self) -> bool {
        &&& 1 <= self.len <= MAX_LABEL_LEN
        &&& label_fault(self.bytes@.subrange(0, self.len as int)) is None
        &&& forall|k: int| self.len <= k < MAX_LABEL_LEN ==> #[trigger] self.bytes@[k] == 0
    }

    /// Parses `raw` into a label. The input is never truncated or
    /// sanitised: a title with a space is [`IdError::Charset`].
    pub fn parse(raw: &str) -> (r: Result<Self, IdError>)
        ensures
            match r {
                Ok(label) => label_fault(encode_utf8(raw@)) is None && label@ == encode_utf8(raw@),
                Err(e) => label_fault(encode_utf8(raw@)) == Some(e),
            },
    {
        let mut bytes = [0u8; 32];
        let ghost zero = bytes@;
        assert(forall|k: int| 0 <= k < MAX_LABEL_LEN ==> zero[k] == 0);
        let len = match fill(raw, &mut bytes) {
            Ok(len) => len,
            Err(e) => return Err(e),
        };
        assert forall|k: int| len <= k < MAX_LABEL_LEN implies #[trigger] bytes@[k] == 0 by {
            assert(bytes@.subrange(len as int, MAX_LABEL_LEN as int)[k - len] == zero.subrange(
                len as int,
                MAX_LABEL_LEN as int,
            )[k - len]);
        }
        Ok(Label { bytes, len })
    }

    /// The validated bytes, without the trailing padding.
    pub fn as_bytes(&self) -> (r: &[u8])
        ensures
            r@ == self@,
    {
        proof {
            use_type_invariant(self);
        }
        let all = self.bytes.as_slice();
        let n = self.len as usize;
        &all[0..n]
    }

    /// The length in bytes.
    pub fn len(&self) -> (r: usize)
        ensures
            r == self@.len(),
            1 <= r <= MAX_LABEL_LEN,
    {
        proof {
            use_type_invariant(self);
        }
        self.len as usize
    }

    /// Returns `false`: a label is never empty by construction.
    pub fn is_empty(&self) -> (r: bool)
        ensures
            r == (self@.len() == 0),
            !r,
    {
        proof {
            use_type_invariant(self);
        }
        self.len == 0
    }

    /// The label as text.
    pub fn text(&self) -> (r: String)
        ensures
            r@ == ascii_text(self@),
    {
        bytes_text(self.as_bytes())
    }
}

impl View for Label {
    type V = Seq<u8>;

    closed spec fn view(&self) -> Seq<u8> {
        self.bytes@.subrange(0, self.len as int)
    }
}

/// The characters of `bytes`, one per byte.
fn bytes_text(bytes: &[u8]) -> (r: String)
    ensures
        r@ == ascii_text(bytes@),
{
    let mut out = String::new();
    let mut i: usize = 0;
    while i < bytes.len()
        invariant
            i <= bytes@.len(),
            out@ == ascii_text(bytes@.subrange(0, i as int)),
        decreases bytes.len() - i,
    {
        let c = bytes[i] as char;
        out.push(c);
        assert(ascii_text(bytes@.subrange(0, i + 1)) =~= ascii_text(
            bytes@.subrange(0, i as int),
        ).push(c));
        i += 1;
    }
    assert(bytes@.subrange(0, bytes@.len() as int) =~= bytes@);
    out
}

/// A validated mesh key expression, such as `aegis/compositor/focus`: one or
/// more non-empty segments joined by `/`.
#[derive(Debug, Clone, Copy, PartialEq, Eq, Hash)]
pub struct KeyExpr {
    bytes: [u8; MAX_KEY_EXPR_LEN],
    len: u8,
}

impl KeyExpr {
    /// Every key expression is a valid one, with the padding after it zero.
    #[verifier::type_invariant]
    pub closed spec fn well_formed(self) -> bool {
        &&& 1 <= self.len <= MAX_KEY_EXPR_LEN
        &&& key_fault(self.bytes@.subrange(0, self.len as int)) is None
        &&& forall|k: int| self.len <= k < MAX_KEY_EXPR_LEN ==> #[trigger] self.bytes@[k] == 0
    }

    /// Parses `raw` into a key expression.
    pub fn parse(raw: &str) -> (r: Result<Self, IdError>)
        ensures
            match r {
                Ok(key) => key_fault(encode_utf8(raw@)) is None && key@ == encode_utf8(raw@),
                Err(e) => key_fault(encode_utf8(raw@)) == Some(e),
            },
    {
        let source = raw.as_bytes();
        let n = source.len();
        if n == 0 {
            return Err(IdError::Empty);
        }
        if n > MAX_KEY_EXPR_LEN {
            return Err(IdError::TooLong { max: MAX_KEY_EXPR_LEN, actual: n });
        }
        let mut bytes = [0u8; 96];
        let ghost zero = bytes@;
        assert(forall|k: int| 0 <= k < MAX_KEY_EXPR_LEN ==> zero[k] == 0);
        let mut segment_len: usize = 0;
        let mut i: usize = 0;
        while i < n
            invariant
                i <= n <= MAX_KEY_EXPR_LEN,
                n == source@.len(),
                source@ == encode_utf8(raw@),
                bytes@.len() == MAX_KEY_EXPR_LEN,
                segment_len <= i,
                key_walk(source@.subrange(0, i as int)) == Ok::<nat, IdError>(segment_len as nat),
                forall|k: int| 0 <= k < i ==> #[trigger] bytes@[k] == source@[k],
                forall|k: int| i <= k < MAX_KEY_EXPR_LEN ==> #[trigger] bytes@[k] == 0,
            decreases n - i,
        {
            let byte = source[i];
            assert(source@.subrange(0, i + 1).drop_last() =~= source@.subrange(0, i as int));
            segment_len = match key_step(byte, segment_len) {
                Ok(s) => s,
                Err(e) => {
                    proof {
                        lemma_key_walk_stops(source@, i as int);
                    }
                    return Err(e);
                },
            };
            bytes[i] = byte;
            i += 1;
        }
        assert(source@.subrange(0, n as int) =~= source@);
        if segment_len == 0 {
            return Err(IdError::EmptyKeySegment);
        }
        assert(bytes@.subrange(0, n as int) =~= source@);
        Ok(KeyExpr { bytes, len: n as u8 })
    }

    /// The validated bytes, without the trailing padding.
    pub fn as_bytes(&self) -> (r: &[u8])
        ensures
            r@ == self@,
    {
        proof {
            use_type_invariant(self);
        }
        let all = self.bytes.as_slice();
        let n = self.len as usize;
        &all[0..n]
    }

    /// The length in bytes.
    pub fn len(&self) -> (r: usize)
        ensures
            r == self@.len(),
            1 <= r <= MAX_KEY_EXPR_LEN,
    {
        proof {
            use_type_invariant(self);
        }
        self.len as usize
    }

    /// Returns `false`: a key expression is never empty by construction.
    pub fn is_empty(&self) -> (r: bool)
        ensures
            r == (self@.len() == 0),
            !r,
    {
        proof {
            use_type_invariant(self);
        }
        self.len == 0
    }

    /// How many segments the expression carries: one more than its
    /// separators.
    pub fn segments(&self) -> (r: usize)
        ensures
            r == separators(self@) + 1,
    {
        proof {
            use_type_invariant(self);
        }
        let bytes = self.as_bytes();
        let mut seen: usize = 1;
        let mut i: usize = 0;
        while i < bytes.len()
            invariant
                i <= bytes@.len(),
                bytes@.len() <= MAX_KEY_EXPR_LEN,
                seen == separators(bytes@.subrange(0, i as int)) + 1,
                seen <= i + 1,
            decreases bytes.len() - i,
        {
            assert(bytes@.subrange(0, i + 1).drop_last() =~= bytes@.subrange(0, i as int));
            if bytes[i] == KEY_EXPR_SEPARATOR {
                seen = seen + 1;
            }
            i += 1;
        }
        assert(bytes@.subrange(0, bytes@.len() as int) =~= bytes@);
        seen
    }

    /// The key expression as text.
    pub fn text(&self) -> (r: String)
        ensures
            r@ == ascii_text(self@),
    {
        bytes_text(self.as_bytes())
    }

    /// Whether two key expressions name the same key.
    pub(crate) fn same(&self, other: &KeyExpr) -> (r: bool)
        ensures
            r == (self@ == other@),
    {
        let a = self.as_bytes();
        let b = other.as_bytes();
        if a.len() != b.len() {
            return false;
        }
        let mut i: usize = 0;
        while i < a.len()
            invariant
                i <= a@.len(),
                a@.len() == b@.len(),
                a@ == self@,
                b@ == other@,
                forall|k: int| 0 <= k < i ==> a@[k] == b@[k],
            decreases a.len() - i,
        {
            if a[i] != b[i] {
                return false;
            }
            i += 1;
        }
        assert(a@ =~= b@);
        true
    }
}

impl View for KeyExpr {
    type V = Seq<u8>;

    closed spec fn view(&self) -> Seq<u8> {
        self.bytes@.subrange(0, self.len as int)
    }
}

proof fn lemma_key_walk_stops(raw: Seq<u8>, i: int)
    requires
        0 <= i < raw.len(),
        key_walk(raw.subrange(0, i + 1)) is Err,
    ensures
        key_fault(raw) == (if raw.len() > MAX_KEY_EXPR_LEN {
            key_fault(raw)
        } else {
            Some(key_walk(raw.subrange(0, i + 1))->Err_0)
        }),
    decreases raw.len() - i,
{
    if i + 1 < raw.len() {
        assert(raw.subrange(0, i + 2).drop_last() =~= raw.subrange(0, i + 1));
        lemma_key_walk_stops(raw, i + 1);
    } else {
        assert(raw.subrange(0, i + 1) =~= raw);
    }
}

/// A text whose UTF-8 encoding is all ASCII reads back from its bytes.
proof fn lemma_ascii_text_of_ascii(raw: Seq<char>)
    requires
        forall|i: int| 0 <= i < encode_utf8(raw).len() ==> #[trigger] encode_utf8(raw)[i] < 128u8,
    ensures
        ascii_text(encode_utf8(raw)) == raw,
    decreases raw.len(),
{
    if raw.len() > 0 {
        let c = raw[0] as u32;
        let head = encode_scalar(c);
        let rest = encode_utf8(raw.drop_first());
        assert(encode_utf8(raw) == head + rest);
        char_is_scalar(raw[0]);
        assert(head.len() > 0);
        assert(encode_utf8(raw)[0] == head[0]);
        if has_width_1_encoding(c) {
            assert(head[0] == (c & 0x7F) as u8);
            assert((c & 0x7F) == c) by (bit_vector)
                requires
                    c <= 0x7F,
            ;
        } else if has_width_2_encoding(c) {
            assert(leading_byte_width_2(c) >= 128u8) by (bit_vector);
        } else if has_width_3_encoding(c) {
            assert(leading_byte_width_3(c) >= 128u8) by (bit_vector);
        } else {
            assert(leading_byte_width_4(c) >= 128u8) by (bit_vector);
        }
        assert(head =~= seq![c as u8]);
        assert forall|i: int| 0 <= i < rest.len() implies #[trigger] rest[i] < 128u8 by {
            assert(rest[i] == encode_utf8(raw)[i + 1]);
        }
        lemma_ascii_text_of_ascii(raw.drop_first());
        assert(ascii_text(encode_utf8(raw)) =~= seq![(c as u8) as char] + ascii_text(rest));
        char_u32_cast(raw[0], c);
        assert((c as u8) as u32 == c);
        assert(((c as u8) as char) == (c as char));
        assert(((c as u8) as char) == raw[0]);
        assert(ascii_text(encode_utf8(raw)) =~= raw);
    }
}

/// A label renders back exactly what it was given: the text of an accepted
/// label is the text it was parsed from.
pub proof fn label_text_round_trip(raw: Seq<char>)
    ensures
        label_fault(encode_utf8(raw)) is None ==> ascii_text(encode_utf8(raw)) == raw,
{
    if label_fault(encode_utf8(raw)) is None {
        assert forall|i: int| 0 <= i < encode_utf8(raw).len() implies #[trigger] encode_utf8(raw)[i]
            < 128u8 by {
            assert(label_byte(encode_utf8(raw)[i]));
        }
        lemma_ascii_text_of_ascii(raw);
    }
}

/// A walk that reaches its end met only separators and segment bytes.
proof fn lemma_key_walk_ascii(raw: Seq<u8>)
    requires
        key_walk(raw) is Ok,
    ensures
        forall|i: int| 0 <= i < raw.len() ==> #[trigger] raw[i] < 128u8,
    decreases raw.len(),
{
    if raw.len() > 0 {
        lemma_key_walk_ascii(raw.drop_last());
        assert forall|i: int| 0 <= i < raw.len() implies #[trigger] raw[i] < 128u8 by {
            if i < raw.len() - 1 {
                assert(raw[i] == raw.drop_last()[i]);
            }
        }
    }
}

/// A key expression renders back exactly what it was given: the text of an
/// accepted key expression is the text it was parsed from.
pub proof fn key_expr_text_round_trip(raw: Seq<char>)
    ensures
        key_fault(encode_utf8(raw)) is None ==> ascii_text(encode_utf8(raw)) == raw,
{
    if key_fault(encode_utf8(raw)) is None {
        lemma_key_walk_ascii(encode_utf8(raw));
        lemma_ascii_text_of_ascii(raw);
    }
}

/// Whether `raw` is made of segment bytes and separators, with no separator
/// that closes an empty segment: none first, none right after another.
pub open spec fn key_segments_well_formed(raw: Seq<u8>) -> bool {
    &&& forall|i: int| 0 <= i < raw.len() ==> key_byte(#[trigger] raw[i]) || raw[i] == KEY_EXPR_SEPARATOR
    &&& forall|i: int|
        0 <= i < raw.len() && #[trigger] raw[i] == KEY_EXPR_SEPARATOR ==> i > 0 && raw[i - 1]
            != KEY_EXPR_SEPARATOR
}

proof fn lemma_key_walk_shape(raw: Seq<u8>)
    ensures
        key_walk(raw) is Ok <==> key_segments_well_formed(raw),
        key_walk(raw) matches Ok(n) ==> (n == 0 <==> (raw.len() == 0 || raw.last()
            == KEY_EXPR_SEPARATOR)),
    decreases raw.len(),
{
    if raw.len() > 0 {
        let front = raw.drop_last();
        lemma_key_walk_shape(front);
        let b = raw.last();
        assert forall|i: int| 0 <= i < front.len() implies front[i] == raw[i] by {}
        if key_segments_well_formed(raw) {
            assert(key_segments_well_formed(front)) by {
                assert forall|i: int| 0 <= i < front.len() implies key_byte(#[trigger] front[i])
                    || front[i] == KEY_EXPR_SEPARATOR by {
                    assert(front[i] == raw[i]);
                }
                assert forall|i: int|
                    0 <= i < front.len() && #[trigger] front[i] == KEY_EXPR_SEPARATOR implies i > 0
                    && front[i - 1] != KEY_EXPR_SEPARATOR by {
                    assert(front[i] == raw[i]);
                    assert(raw[i - 1] == front[i - 1]);
                }
            }
            assert(key_byte(raw[raw.len() - 1]) || raw[raw.len() - 1] == KEY_EXPR_SEPARATOR);
            if b == KEY_EXPR_SEPARATOR {
                assert(raw[raw.len() - 1] == KEY_EXPR_SEPARATOR);
                assert(front.last() == raw[raw.len() - 2]);
            }
        }
        if key_walk(raw) is Ok {
            assert(key_segments_well_formed(raw)) by {
                assert forall|i: int| 0 <= i < raw.len() implies key_byte(#[trigger] raw[i]) || raw[i]
                    == KEY_EXPR_SEPARATOR by {
                    if i < front.len() {
                        assert(front[i] == raw[i]);
                    }
                }
                assert forall|i: int|
                    0 <= i < raw.len() && #[trigger] raw[i] == KEY_EXPR_SEPARATOR implies i > 0
                    && raw[i - 1] != KEY_EXPR_SEPARATOR by {
                    if i < front.len() {
                        assert(front[i] == raw[i]);
                        assert(raw[i - 1] == front[i - 1]);
                    } else {
                        assert(i == raw.len() - 1);
                        if front.len() > 0 {
                            assert(front.last() == raw[i - 1]);
                        }
                    }
                }
            }
        }
    }
}

/// What a key expression is. A text is accepted as a key expression exactly
/// when its UTF-8 bytes number 1 to [`MAX_KEY_EXPR_LEN`] and split at each
/// `/` into non-empty segments of letters, digits and `.-_*`: no byte
/// outside that set, no `/` first, last, or right after another `/`.
pub proof fn key_expr_shape(raw: Seq<u8>)
    ensures
        key_fault(raw) is None <==> {
            &&& 1 <= raw.len() <= MAX_KEY_EXPR_LEN
            &&& key_segments_well_formed(raw)
            &&& raw.last() != KEY_EXPR_SEPARATOR
        },
{
    lemma_key_walk_shape(raw);
}

/// An ASCII digit, an upper-case or lower-case ASCII letter, or one of
/// `.-_:@/`, written out byte by byte.
pub open spec fn ascii_name_byte(b: u8) -> bool {
    ||| 48u8 <= b <= 57u8
    ||| 65u8 <= b <= 90u8
    ||| 97u8 <= b <= 122u8
    ||| b == 46u8
    ||| b == 45u8
    ||| b == 95u8
    ||| b == 58u8
    ||| b == 64u8
    ||| b == 47u8
}

/// What a label is. A byte sequence is accepted as a label exactly when it
/// holds 1 to [`MAX_LABEL_LEN`] bytes, each an ASCII digit, an upper-case or
/// lower-case ASCII letter, or one of `.-_:@/`. So every 1 to 32-byte text
/// of ASCII letters and digits, such as `Firefox`, is a label.
pub proof fn label_shape(raw: Seq<u8>)
    ensures
        label_fault(raw) is None <==> {
            &&& 1 <= raw.len() <= MAX_LABEL_LEN
            &&& forall|i: int| 0 <= i < raw.len() ==> #[trigger] ascii_name_byte(raw[i])
        },
{
    if label_fault(raw) is None {
        assert forall|i: int| 0 <= i < raw.len() implies #[trigger] ascii_name_byte(raw[i]) by {
            assert(label_byte(raw[i]));
        }
    }
    if 1 <= raw.len() <= MAX_LABEL_LEN && forall|i: int|
        0 <= i < raw.len() ==> #[trigger] ascii_name_byte(raw[i]) {
        assert forall|i: int| 0 <= i < raw.len() implies #[trigger] label_byte(raw[i]) by {
            assert(ascii_name_byte(raw[i]));
        }
    }
}

} // verus!
