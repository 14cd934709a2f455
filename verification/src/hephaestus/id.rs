//! The bounded, allocation-free identifier the geometry slice carries: the
//! path of a `STEP` source. It is validated on construction and stored
//! inline; nothing here touches a filesystem, so a parsed path is a
//! well-formed name and not an existing file.

use vstd::prelude::*;
use vstd::utf8::encode_utf8;
use crate::compositor::id::{ascii_name_byte, ascii_text, label_byte};
use crate::text::{decimal, push_decimal, push_text};

verus! {

/// Scalar upper bound, in bytes, on a `STEP` source path.
pub const MAX_STEP_PATH_LEN: usize = 128;

/// Reasons a `STEP` source path is refused.
#[derive(Debug, Clone, Copy, PartialEq, Eq, Structural)]
#[non_exhaustive]
pub enum IdError {
    /// The path was empty.
    Empty,
    /// The path was longer than [`MAX_STEP_PATH_LEN`].
    TooLong { max: usize, actual: usize },
    /// The path carries a byte outside the permitted character set.
    Charset,
}

/// The text an [`IdError`] is reported with.
pub open spec fn step_id_error_message(e: IdError) -> Seq<char> {
    match e {
        IdError::Empty => "a STEP source path is empty"@,
        IdError::TooLong { max, actual } => "a STEP source path of "@ + decimal(actual as nat)
            + " bytes exceeds the bound of "@ + decimal(max as nat),
        IdError::Charset =>
            "a STEP source path carries a byte outside the permitted character set"@,
    }
}

impl IdError {
    /// The text this refusal is reported with.
    pub fn message(&self) -> (r: String)
        ensures
            r@ == step_id_error_message(*self),
    {
        let mut out = String::new();
        match self {
            IdError::Empty => push_text(&mut out, "a STEP source path is empty"),
            IdError::TooLong { max, actual } => {
                push_text(&mut out, "a STEP source path of ");
                push_decimal(&mut out, *actual as u64);
                push_text(&mut out, " bytes exceeds the bound of ");
                push_decimal(&mut out, *max as u64);
            },
            IdError::Charset => push_text(
                &mut out,
                "a STEP source path carries a byte outside the permitted character set",
            ),
        }
        assert(out@ =~= step_id_error_message(*self));
        out
    }
}

/// Why `raw` is refused as a `STEP` source path, if it is: empty, past
/// [`MAX_STEP_PATH_LEN`], then a byte outside letters, digits and `.-_:@/`.
pub open spec fn step_path_fault(raw: Seq<u8>) -> Option<IdError> {
    if raw.len() == 0 {
        Some(IdError::Empty)
    } else if raw.len() > MAX_STEP_PATH_LEN {
        Some(IdError::TooLong { max: MAX_STEP_PATH_LEN, actual: raw.len() as usize })
    } else if !(forall|i: int| 0 <= i < raw.len() ==> #[trigger] label_byte(raw[i])) {
        Some(IdError::Charset)
    } else {
        None
    }
}

/// Returns `true` for the bytes permitted inside a path.
fn permitted(byte: u8) -> (r: bool)
    ensures
        r == label_byte(byte),
{
    (byte >= 48u8 && byte <= 57u8) || (byte >= 65u8 && byte <= 90u8) || (byte >= 97u8 && byte
        <= 122u8) || byte == 46u8 || byte == 45u8 || byte == 95u8 || byte == 58u8 || byte == 64u8
        || byte == 47u8
}

/// A validated `STEP` source path.
#[derive(Debug, Clone, Copy, PartialEq, Eq, Hash)]
pub struct StepPath {
    bytes: [u8; MAX_STEP_PATH_LEN],
    len: u8,
}

impl View for StepPath {
    type V = Seq<u8>;

    closed spec fn view(&self) -> Seq<u8> {
        self.bytes@.subrange(0, self.len as int)
    }
}

impl StepPath {
    /// Every path holds one to [`MAX_STEP_PATH_LEN`] permitted bytes, with
    /// the padding after them zero.
    #[verifier::type_invariant]
    pub closed spec fn well_formed(self) -> bool {
        &&& 1 <= self.len <= MAX_STEP_PATH_LEN
        &&& step_path_fault(self.bytes@.subrange(0, self.len as int)) is None
        &&& forall|k: int| self.len <= k < MAX_STEP_PATH_LEN ==> #[trigger] self.bytes@[k] == 0
    }

    /// Parses `raw` into a `STEP` source path, never truncating or
    /// sanitising it.
    pub fn parse(raw: &str) -> (r: Result<Self, IdError>)
        ensures
            match r {
                Ok(path) => step_path_fault(encode_utf8(raw@)) is None && path@ == encode_utf8(
                    raw@,
                ),
                Err(e) => step_path_fault(encode_utf8(raw@)) == Some(e),
            },
    {
        let source = raw.as_bytes();
        let n = source.len();
        if n == 0 {
            return Err(IdError::Empty);
        }
        if n > MAX_STEP_PATH_LEN {
            return Err(IdError::TooLong { max: MAX_STEP_PATH_LEN, actual: n });
        }
        let mut bytes = [0u8; 128];
        let ghost zero = bytes@;
        assert(forall|k: int| 0 <= k < MAX_STEP_PATH_LEN ==> zero[k] == 0);
        let mut i: usize = 0;
        while i < n
            invariant
                i <= n <= MAX_STEP_PATH_LEN,
                n == source@.len(),
                source@ == encode_utf8(raw@),
                bytes@.len() == MAX_STEP_PATH_LEN,
                forall|k: int| 0 <= k < i ==> label_byte(#[trigger] source@[k]),
                forall|k: int| 0 <= k < i ==> #[trigger] bytes@[k] == source@[k],
                forall|k: int| i <= k < MAX_STEP_PATH_LEN ==> #[trigger] bytes@[k] == 0,
            decreases n - i,
        {
            let byte = source[i];
            if !permitted(byte) {
                return Err(IdError::Charset);
            }
            bytes[i] = byte;
            i += 1;
        }
        assert(bytes@.subrange(0, n as int) =~= source@);
        Ok(StepPath { bytes, len: n as u8 })
    }

    /// The validated bytes, without the trailing padding.
    pub fn as_bytes(&self) -> (r: &[u8])
        ensures
            r@ == self@,
    {
        proof {
            use_type_invariant(self);
        }
        let all = self.bytes.as_slice();
        let n = self.len as usize;
        &all[0..n]
    }

    /// The length in bytes.
    pub fn len(&self) -> (r: usize)
        ensures
            r == self@.len(),
            1 <= r <= MAX_STEP_PATH_LEN,
    {
        proof {
            use_type_invariant(self);
        }
        self.len as usize
    }

    /// Returns `false`: a parsed path is never empty by construction.
    pub fn is_empty(&self) -> (r: bool)
        ensures
            r == (self@.len() == 0),
            !r,
    {
        proof {
            use_type_invariant(self);
        }
        self.len == 0
    }

    /// The path as text.
    pub fn text(&self) -> (r: String)
        ensures
            r@ == ascii_text(self@),
    {
        let bytes = self.as_bytes();
        let mut out = String::new();
        let mut i: usize = 0;
        while i < bytes.len()
            invariant
                i <= bytes@.len(),
                out@ == ascii_text(bytes@.subrange(0, i as int)),
            decreases bytes.len() - i,
        {
            let c = bytes[i] as char;
            out.push(c);
            assert(ascii_text(bytes@.subrange(0, i + 1)) =~= ascii_text(
                bytes@.subrange(0, i as int),
            ).push(c));
            i += 1;
        }
        assert(bytes@.subrange(0, bytes@.len() as int) =~= bytes@);
        out
    }
}

/// What a `STEP` source path is. A byte sequence is accepted as a path
/// exactly when it holds 1 to [`MAX_STEP_PATH_LEN`] bytes, each an ASCII
/// digit, an upper-case or lower-case ASCII letter, or one of `.-_:@/`.
pub proof fn step_path_shape(raw: Seq<u8>)
    ensures
        step_path_fault(raw) is None <==> {
            &&& 1 <= raw.len() <= MAX_STEP_PATH_LEN
            &&& forall|i: int| 0 <= i < raw.len() ==> #[trigger] ascii_name_byte(raw[i])
        },
{
    if step_path_fault(raw) is None {
        assert forall|i: int| 0 <= i < raw.len() implies #[trigger] ascii_name_byte(raw[i]) by {
            assert(label_byte(raw[i]));
        }
    }
    if 1 <= raw.len() <= MAX_STEP_PATH_LEN && forall|i: int|
        0 <= i < raw.len() ==> #[trigger] ascii_name_byte(raw[i]) {
        assert forall|i: int| 0 <= i < raw.len() implies #[trigger] label_byte(raw[i]) by {
            assert(ascii_name_byte(raw[i]));
        }
    }
}

} // verus!
