//! The bounded, validated field types both schemas are built from.
//!
//! Each type is a newtype over `String` that can only be built through its
//! validating constructor. Every field carries a scalar bound, checked before
//! the character set so a refusal never echoes an unbounded value, and a
//! shape is refused rather than repaired.

use vstd::prelude::*;
use crate::fabrica::unit::at_most;
use crate::text::{
    ascii_digit, ascii_lower, ascii_upper, chars_of, debug_quote, debug_quoted, decimal, digit_char,
    is_ascii_digit, is_ascii_lower,
    is_ascii_upper, lemma_utf8_len_is_encoded_len, push_decimal, push_text, utf8_len,
};

verus! {

/// Scalar bound, in bytes, on a general bounded text field.
pub const MAX_FIELD_BYTES: usize = 128;

/// Width, in characters, of a full git commit identifier.
pub const REVISION_CHARS: usize = 40;

/// Width, in characters, of a sha256 digest in lower-case hexadecimal.
pub const DIGEST_CHARS: usize = 64;

/// Scalar bound, in characters, on a signature in lower-case hexadecimal.
pub const MAX_SIGNATURE_CHARS: usize = 256;

/// Width, in characters, of a dated distribution snapshot (`YYYY/MM/DD`).
pub const SNAPSHOT_CHARS: usize = 10;

/// Scalar bound, in bytes, on a kernel release string.
pub const MAX_RELEASE_BYTES: usize = 64;

/// Scalar bound, in bytes, on a Kconfig symbol name.
pub const MAX_SYMBOL_BYTES: usize = 64;

/// Scalar bound on the dotted numeric components a release comparison reads.
pub const MAX_RELEASE_COMPONENTS: usize = 8;

/// The prefix every Kconfig symbol carries.
pub const SYMBOL_PREFIX: &'static str = "CONFIG_";

/// The prefix every recorded requirement identifier carries.
pub const REQUIREMENT_PREFIX: &'static str = "REQ-";

/// Why a bounded field was refused.
#[derive(Debug, Clone, PartialEq, Eq)]
pub enum FieldError {
    /// The field carried no value at all.
    Empty { field: &'static str },
    /// The field is longer than its scalar bound allows.
    TooLong { field: &'static str, bytes: usize, bound: usize },
    /// The field carries a character its charset does not admit.
    Charset { field: &'static str, value: String, expected: &'static str },
    /// The field is inside its charset but not in the shape the field demands.
    Shape { field: &'static str, value: String, expected: &'static str },
}

/// The mathematical content of a [`FieldError`].
pub enum FieldFault {
    Empty { field: Seq<char> },
    TooLong { field: Seq<char>, bytes: nat, bound: nat },
    Charset { field: Seq<char>, value: Seq<char>, expected: Seq<char> },
    Shape { field: Seq<char>, value: Seq<char>, expected: Seq<char> },
}

impl View for FieldError {
    type V = FieldFault;

    open spec fn view(&self) -> FieldFault {
        match self {
            FieldError::Empty { field } => FieldFault::Empty { field: field@ },
            FieldError::TooLong { field, bytes, bound } => FieldFault::TooLong {
                field: field@,
                bytes: *bytes as nat,
                bound: *bound as nat,
            },
            FieldError::Charset { field, value, expected } => FieldFault::Charset {
                field: field@,
                value: value@,
                expected: expected@,
            },
            FieldError::Shape { field, value, expected } => FieldFault::Shape {
                field: field@,
                value: value@,
                expected: expected@,
            },
        }
    }
}


/// The text a [`FieldError`] is reported with.
pub open spec fn field_fault_message(f: FieldFault) -> Seq<char> {
    match f {
        FieldFault::Empty { field } => field + ": an empty value is not admissible"@,
        FieldFault::TooLong { field, bytes, bound } => field + ": "@ + decimal(bytes)
            + " bytes exceeds the bound of "@ + decimal(bound),
        FieldFault::Charset { field, value, expected } => field + ": "@ + debug_quoted(value)
            + " carries a character outside "@ + expected,
        FieldFault::Shape { field, value, expected } => field + ": "@ + debug_quoted(value) + " is not "@
            + expected,
    }
}

impl FieldError {
    /// The text this refusal is reported with.
    pub fn message(&self) -> (r: String)
        ensures
            r@ == field_fault_message(self@),
    {
        let mut out = String::new();
        match self {
            FieldError::Empty { field } => {
                push_text(&mut out, field);
                push_text(&mut out, ": an empty value is not admissible");
            },
            FieldError::TooLong { field, bytes, bound } => {
                push_text(&mut out, field);
                push_text(&mut out, ": ");
                push_decimal(&mut out, *bytes as u64);
                push_text(&mut out, " bytes exceeds the bound of ");
                push_decimal(&mut out, *bound as u64);
            },
            FieldError::Charset { field, value, expected } => {
                push_text(&mut out, field);
                push_text(&mut out, ": ");
                let q = debug_quote(value.as_str());
                push_text(&mut out, q.as_str());
                push_text(&mut out, " carries a character outside ");
                push_text(&mut out, expected);
            },
            FieldError::Shape { field, value, expected } => {
                push_text(&mut out, field);
                push_text(&mut out, ": ");
                let q = debug_quote(value.as_str());
                push_text(&mut out, q.as_str());
                push_text(&mut out, " is not ");
                push_text(&mut out, expected);
            },
        }
        assert(out@ =~= field_fault_message(self@));
        out
    }
}

/// The bounded field types, for the rules they share.
#[derive(Debug, Clone, Copy, PartialEq, Eq, Structural)]
pub enum FieldKind {
    Correlation,
    Revision,
    Snapshot,
    Path,
    Package,
    Digest,
    Signature,
    Symbol,
    Release,
    Requirement,
}

/// The name a refusal reports the field under.
pub open spec fn field_name(kind: FieldKind) -> &'static str {
    match kind {
        FieldKind::Correlation => "correlation-id",
        FieldKind::Revision => "revision",
        FieldKind::Snapshot => "snapshot",
        FieldKind::Path => "path",
        FieldKind::Package => "package",
        FieldKind::Digest => "artifact-digest",
        FieldKind::Signature => "artifact-signature",
        FieldKind::Symbol => "symbol",
        FieldKind::Release => "release",
        FieldKind::Requirement => "required-by",
    }
}

/// The byte bound of a field.
pub open spec fn field_limit(kind: FieldKind) -> nat {
    match kind {
        FieldKind::Correlation => MAX_FIELD_BYTES as nat,
        FieldKind::Revision => REVISION_CHARS as nat,
        FieldKind::Snapshot => SNAPSHOT_CHARS as nat,
        FieldKind::Path => MAX_FIELD_BYTES as nat,
        FieldKind::Package => MAX_FIELD_BYTES as nat,
        FieldKind::Digest => DIGEST_CHARS as nat,
        FieldKind::Signature => MAX_SIGNATURE_CHARS as nat,
        FieldKind::Symbol => MAX_SYMBOL_BYTES as nat,
        FieldKind::Release => MAX_RELEASE_BYTES as nat,
        FieldKind::Requirement => MAX_FIELD_BYTES as nat,
    }
}

/// The charset a refusal names.
pub open spec fn field_charset(kind: FieldKind) -> &'static str {
    match kind {
        FieldKind::Correlation => "[A-Za-z0-9._:-]",
        FieldKind::Revision => "[0-9a-f]",
        FieldKind::Snapshot => "[0-9/]",
        FieldKind::Path => "[A-Za-z0-9._/-]",
        FieldKind::Package => "[a-z0-9@._+-]",
        FieldKind::Digest => "[0-9a-f]",
        FieldKind::Signature => "[0-9a-f]",
        FieldKind::Symbol => "[A-Z0-9_]",
        FieldKind::Release => "[0-9A-Za-z._+-]",
        FieldKind::Requirement => "[A-Z0-9-]",
    }
}

/// Whether `c` is a lower-case hexadecimal digit.
pub open spec fn lower_hex(c: char) -> bool {
    ascii_digit(c) || ('a' <= c && c <= 'f')
}

/// Whether the field's charset admits `c`.
pub open spec fn admits(kind: FieldKind, c: char) -> bool {
    match kind {
        FieldKind::Correlation => ascii_digit(c) || ascii_upper(c) || ascii_lower(c) || c == '.'
            || c == '_' || c == ':' || c == '-',
        FieldKind::Revision | FieldKind::Digest | FieldKind::Signature => lower_hex(c),
        FieldKind::Snapshot => ascii_digit(c) || c == '/',
        FieldKind::Path => ascii_digit(c) || ascii_upper(c) || ascii_lower(c) || c == '.' || c
            == '_' || c == '/' || c == '-',
        FieldKind::Package => ascii_lower(c) || ascii_digit(c) || c == '@' || c == '.' || c == '_'
            || c == '+' || c == '-',
        FieldKind::Symbol => ascii_upper(c) || ascii_digit(c) || c == '_',
        FieldKind::Release => ascii_digit(c) || ascii_upper(c) || ascii_lower(c) || c == '.' || c
            == '_' || c == '+' || c == '-',
        FieldKind::Requirement => ascii_upper(c) || ascii_digit(c) || c == '-',
    }
}

/// Whether a path names an empty or parent-directory component: a run
/// between separators (or the ends) that is empty or `..`.
pub open spec fn has_bad_component(v: Seq<char>) -> bool {
    exists|a: int, b: int|
        #![trigger component_at(v, a, b)]
        component_at(v, a, b) && (b == a || (b == a + 2 && v[a] == '.' && v[a + 1] == '.'))
}

/// `v[a..b]` is one `/`-separated component of `v`.
pub open spec fn component_at(v: Seq<char>, a: int, b: int) -> bool {
    &&& 0 <= a <= b <= v.len()
    &&& (a == 0 || v[a - 1] == '/')
    &&& (b == v.len() || v[b] == '/')
    &&& forall|k: int| a <= k < b ==> v[k] != '/'
}

/// Whether a value inside its charset has the shape its field demands.
pub open spec fn has_shape(kind: FieldKind, v: Seq<char>) -> bool {
    match kind {
        FieldKind::Correlation => true,
        FieldKind::Revision => v.len() == REVISION_CHARS,
        FieldKind::Snapshot => v.len() == SNAPSHOT_CHARS && v[4] == '/' && v[7] == '/' && forall|
            k: int,
        | 0 <= k < v.len() && k != 4 && k != 7 ==> v[k] != '/',
        FieldKind::Path => !has_bad_component(v) && v[0] != '/',
        FieldKind::Package => ascii_lower(v[0]) || ascii_digit(v[0]),
        FieldKind::Digest => v.len() == DIGEST_CHARS,
        FieldKind::Signature => v.len() % 2 == 0,
        FieldKind::Symbol => v.len() > 7 && v.subrange(0, 7) == SYMBOL_PREFIX@,
        FieldKind::Release => ascii_digit(v[0]),
        FieldKind::Requirement => v.len() > 4 && v.subrange(0, 4) == REQUIREMENT_PREFIX@,
    }
}

/// What a shape refusal names.
pub open spec fn shape_expectation(kind: FieldKind) -> &'static str {
    match kind {
        FieldKind::Correlation => "",
        FieldKind::Revision => "a full 40-character lower-case commit identifier",
        FieldKind::Snapshot => "a dated snapshot in the form YYYY/MM/DD",
        FieldKind::Path => "a repository-relative path with no empty or parent component",
        FieldKind::Package => "a package name starting with a lower-case letter or a digit",
        FieldKind::Digest => "a 64-character lower-case sha256 digest",
        FieldKind::Signature => "an even number of hexadecimal digits",
        FieldKind::Symbol => "a Kconfig symbol with a CONFIG_ prefix and a name after it",
        FieldKind::Release => "a release starting with a version digit",
        FieldKind::Requirement => "a recorded requirement identifier with a REQ- prefix",
    }
}

/// Why a field of `kind` refuses `v`, if it does: empty, then past the
/// byte bound, then outside the charset, then the wrong shape.
pub open spec fn field_fault(kind: FieldKind, v: Seq<char>) -> Option<FieldFault> {
    let field = field_name(kind)@;
    if v.len() == 0 {
        Some(FieldFault::Empty { field })
    } else if utf8_len(v) > field_limit(kind) {
        Some(FieldFault::TooLong { field, bytes: utf8_len(v), bound: field_limit(kind) })
    } else if !(forall|k: int| 0 <= k < v.len() ==> #[trigger] admits(kind, v[k])) {
        Some(FieldFault::Charset { field, value: v, expected: field_charset(kind)@ })
    } else if !has_shape(kind, v) {
        Some(FieldFault::Shape { field, value: v, expected: shape_expectation(kind)@ })
    } else {
        None
    }
}

fn name_of(kind: FieldKind) -> (r: &'static str)
    ensures
        r == field_name(kind),
{
    match kind {
        FieldKind::Correlation => "correlation-id",
        FieldKind::Revision => "revision",
        FieldKind::Snapshot => "snapshot",
        FieldKind::Path => "path",
        FieldKind::Package => "package",
        FieldKind::Digest => "artifact-digest",
        FieldKind::Signature => "artifact-signature",
        FieldKind::Symbol => "symbol",
        FieldKind::Release => "release",
        FieldKind::Requirement => "required-by",
    }
}

fn limit_of(kind: FieldKind) -> (r: usize)
    ensures
        r == field_limit(kind),
{
    match kind {
        FieldKind::Correlation => MAX_FIELD_BYTES,
        FieldKind::Revision => REVISION_CHARS,
        FieldKind::Snapshot => SNAPSHOT_CHARS,
        FieldKind::Path => MAX_FIELD_BYTES,
        FieldKind::Package => MAX_FIELD_BYTES,
        FieldKind::Digest => DIGEST_CHARS,
        FieldKind::Signature => MAX_SIGNATURE_CHARS,
        FieldKind::Symbol => MAX_SYMBOL_BYTES,
        FieldKind::Release => MAX_RELEASE_BYTES,
        FieldKind::Requirement => MAX_FIELD_BYTES,
    }
}

fn charset_of(kind: FieldKind) -> (r: &'static str)
    ensures
        r == field_charset(kind),
{
    match kind {
        FieldKind::Correlation => "[A-Za-z0-9._:-]",
        FieldKind::Revision => "[0-9a-f]",
        FieldKind::Snapshot => "[0-9/]",
        FieldKind::Path => "[A-Za-z0-9._/-]",
        FieldKind::Package => "[a-z0-9@._+-]",
        FieldKind::Digest => "[0-9a-f]",
        FieldKind::Signature => "[0-9a-f]",
        FieldKind::Symbol => "[A-Z0-9_]",
        FieldKind::Release => "[0-9A-Za-z._+-]",
        FieldKind::Requirement => "[A-Z0-9-]",
    }
}

fn expectation_of(kind: FieldKind) -> (r: &'static str)
    ensures
        r == shape_expectation(kind),
{
    match kind {
        FieldKind::Correlation => "",
        FieldKind::Revision => "a full 40-character lower-case commit identifier",
        FieldKind::Snapshot => "a dated snapshot in the form YYYY/MM/DD",
        FieldKind::Path => "a repository-relative path with no empty or parent component",
        FieldKind::Package => "a package name starting with a lower-case letter or a digit",
        FieldKind::Digest => "a 64-character lower-case sha256 digest",
        FieldKind::Signature => "an even number of hexadecimal digits",
        FieldKind::Symbol => "a Kconfig symbol with a CONFIG_ prefix and a name after it",
        FieldKind::Release => "a release starting with a version digit",
        FieldKind::Requirement => "a recorded requirement identifier with a REQ- prefix",
    }
}

/// Returns `true` when `c` is a lower-case hexadecimal digit.
fn is_lower_hex(c: char) -> (r: bool)
    ensures
        r == lower_hex(c),
{
    is_ascii_digit(c) || (c >= 'a' && c <= 'f')
}

/// Whether the field's charset admits `c`.
fn admitted(kind: FieldKind, c: char) -> (r: bool)
    ensures
        r == admits(kind, c),
{
    match kind {
        FieldKind::Correlation => is_ascii_digit(c) || is_ascii_upper(c) || is_ascii_lower(c) || c
            == '.' || c == '_' || c == ':' || c == '-',
        FieldKind::Revision | FieldKind::Digest | FieldKind::Signature => is_lower_hex(c),
        FieldKind::Snapshot => is_ascii_digit(c) || c == '/',
        FieldKind::Path => is_ascii_digit(c) || is_ascii_upper(c) || is_ascii_lower(c) || c == '.'
            || c == '_' || c == '/' || c == '-',
        FieldKind::Package => is_ascii_lower(c) || is_ascii_digit(c) || c == '@' || c == '.' || c
            == '_' || c == '+' || c == '-',
        FieldKind::Symbol => is_ascii_upper(c) || is_ascii_digit(c) || c == '_',
        FieldKind::Release => is_ascii_digit(c) || is_ascii_upper(c) || is_ascii_lower(c) || c
            == '.' || c == '_' || c == '+' || c == '-',
        FieldKind::Requirement => is_ascii_upper(c) || is_ascii_digit(c) || c == '-',
    }
}

/// Refuses an empty value or one past its scalar byte bound.
fn bound(kind: FieldKind, value: &str) -> (r: Result<(), FieldError>)
    ensures
        match r {
            Ok(()) => value@.len() > 0 && utf8_len(value@) <= field_limit(kind),
            Err(e) => field_fault(kind, value@) == Some(e@),
        },
{
    proof {
        lemma_utf8_len_is_encoded_len(value@);
    }
    if value.is_empty() {
        return Err(FieldError::Empty { field: name_of(kind) });
    }
    let limit = limit_of(kind);
    let bytes = value.as_bytes().len();
    if bytes > limit {
        return Err(FieldError::TooLong { field: name_of(kind), bytes, bound: limit });
    }
    Ok(())
}

/// Whether a path has an empty or parent-directory component.
#[verifier::loop_isolation(false)]
fn bad_component(chars: &Vec<char>) -> (r: bool)
    ensures
        r == has_bad_component(chars@),
{
    let ghost v = chars@;
    let mut start: usize = 0;
    let mut i: usize = 0;
    while i <= chars.len()
        invariant
            start <= i,
            i <= chars.len() + 1,
            start <= chars.len(),
            start == 0 || chars@[start - 1] == '/',
            forall|k: int| start <= k < i && k < chars.len() ==> chars@[k] != '/',
            forall|a: int, b: int|
                #![trigger component_at(v, a, b)]
                component_at(v, a, b) && b < i && (b == a || (b == a + 2 && v[a] == '.' && v[a + 1]
                    == '.')) ==> false,
        decreases chars.len() + 1 - i,
    {
        if i == chars.len() || chars[i] == '/' {
            let width = i - start;
            proof {
                assert(component_at(v, start as int, i as int));
            }
            if width == 0 || (width == 2 && chars[start] == '.' && chars[start + 1] == '.') {
                return true;
            }
            proof {
                assert forall|a: int, b: int|
                    #![trigger component_at(v, a, b)]
                    component_at(v, a, b) && b < i + 1 && (b == a || (b == a + 2 && v[a] == '.'
                        && v[a + 1] == '.')) implies false by {
                    if b == i {
                        if a < start {
                            assert(v[start - 1] == '/');
                        } else if a > start {
                            assert(v[a - 1] != '/');
                        }
                    }
                }
            }
            if i == chars.len() {
                return false;
            }
            start = i + 1;
        }
        i += 1;
    }
    false
}

/// Whether `chars` starts with the characters of `prefix`.
fn has_prefix(chars: &Vec<char>, prefix: &str) -> (r: bool)
    ensures
        r == (chars@.len() >= prefix@.len() && chars@.subrange(0, prefix@.len() as int) == prefix@),
{
    let p = chars_of(prefix);
    crate::text::starts_with_chars(chars, &p)
}

/// Whether a value inside its charset has the shape its field demands.
#[verifier::loop_isolation(false)]
fn shaped(kind: FieldKind, chars: &Vec<char>) -> (r: bool)
    requires
        chars.len() > 0,
    ensures
        r == has_shape(kind, chars@),
{
    match kind {
        FieldKind::Correlation => true,
        FieldKind::Revision => chars.len() == REVISION_CHARS,
        FieldKind::Snapshot => {
            if chars.len() != SNAPSHOT_CHARS || chars[4] != '/' || chars[7] != '/' {
                return false;
            }
            let mut k: usize = 0;
            while k < chars.len()
                invariant
                    k <= chars.len(),
                    forall|j: int| 0 <= j < k && j != 4 && j != 7 ==> chars@[j] != '/',
                decreases chars.len() - k,
            {
                if k != 4 && k != 7 && chars[k] == '/' {
                    return false;
                }
                k += 1;
            }
            true
        },
        FieldKind::Path => !bad_component(chars) && chars[0] != '/',
        FieldKind::Package => is_ascii_lower(chars[0]) || is_ascii_digit(chars[0]),
        FieldKind::Digest => chars.len() == DIGEST_CHARS,
        FieldKind::Signature => chars.len() % 2 == 0,
        FieldKind::Symbol => {
            proof {
                reveal_strlit("CONFIG_");
            }
            chars.len() > 7 && has_prefix(chars, SYMBOL_PREFIX)
        },
        FieldKind::Release => is_ascii_digit(chars[0]),
        FieldKind::Requirement => {
            proof {
                reveal_strlit("REQ-");
            }
            chars.len() > 4 && has_prefix(chars, REQUIREMENT_PREFIX)
        },
    }
}

/// Checks `value` against every rule of its field.
#[verifier::loop_isolation(false)]
pub fn check_field(kind: FieldKind, value: &String) -> (r: Result<(), FieldError>)
    ensures
        match r {
            Ok(()) => field_fault(kind, value@) is None,
            Err(e) => field_fault(kind, value@) == Some(e@),
        },
{
    match bound(kind, value.as_str()) {
        Ok(()) => {},
        Err(e) => return Err(e),
    }
    let chars = chars_of(value.as_str());
    let mut k: usize = 0;
    while k < chars.len()
        invariant
            k <= chars.len(),
            chars@ == value@,
            forall|j: int| 0 <= j < k ==> #[trigger] admits(kind, chars@[j]),
        decreases chars.len() - k,
    {
        if !admitted(kind, chars[k]) {
            return Err(
                FieldError::Charset {
                    field: name_of(kind),
                    value: value.clone(),
                    expected: charset_of(kind),
                },
            );
        }
        k += 1;
    }
    if !shaped(kind, &chars) {
        return Err(
            FieldError::Shape {
                field: name_of(kind),
                value: value.clone(),
                expected: expectation_of(kind),
            },
        );
    }
    Ok(())
}

/// The value of an ASCII digit.
pub open spec fn digit_value(c: char) -> int {
    c as int - '0' as int
}

/// `x`, or `u64::MAX` where `x` does not fit.
pub open spec fn saturated(x: int) -> u64 {
    if x > u64::MAX {
        u64::MAX
    } else {
        x as u64
    }
}

/// The state of a component scan: the components finished so far, the one
/// being read, whether it has a digit yet, and whether the scan has stopped.
pub type ScanState = (Seq<u64>, u64, bool, bool);

/// One character of a component scan. A digit extends the current component
/// (saturating), a dot after a digit finishes it while fewer than
/// [`MAX_RELEASE_COMPONENTS`] are finished, and anything else stops the scan.
pub open spec fn scan_step(s: ScanState, c: char) -> ScanState {
    let (out, cur, started, done) = s;
    if done {
        s
    } else if ascii_digit(c) {
        (out, saturated(cur * 10 + digit_value(c)), true, false)
    } else if c != '.' || !started || out.len() >= MAX_RELEASE_COMPONENTS {
        (out, cur, started, true)
    } else {
        (out.push(cur), 0, false, false)
    }
}

/// The scan state after reading `v`.
pub open spec fn scan(v: Seq<char>) -> ScanState
    decreases v.len(),
{
    if v.len() == 0 {
        (Seq::empty(), 0, false, false)
    } else {
        scan_step(scan(v.drop_last()), v.last())
    }
}

/// The leading dotted numeric components of a release, read from at most its
/// first [`MAX_RELEASE_BYTES`] characters: `7.2.4-1-cachyos` reads as
/// `[7, 2, 4]` and `6.12` as `[6, 12]`.
pub open spec fn release_components(v: Seq<char>) -> Seq<u64> {
    let (out, cur, started, done) = scan(at_most(v, MAX_RELEASE_BYTES as nat));
    if started && out.len() < MAX_RELEASE_COMPONENTS {
        out.push(cur)
    } else {
        out
    }
}

/// Component `i` of `v`, a missing one reading as zero.
pub open spec fn component(v: Seq<u64>, i: nat) -> u64 {
    if i < v.len() {
        v[i as int]
    } else {
        0
    }
}

/// Whether `a` is at least `b`, comparing from component `i` on: the first
/// component (of [`MAX_RELEASE_COMPONENTS`]) that differs decides.
pub open spec fn compare_from(a: Seq<u64>, b: Seq<u64>, i: nat) -> bool
    decreases MAX_RELEASE_COMPONENTS - i,
{
    if i >= MAX_RELEASE_COMPONENTS {
        true
    } else if component(a, i) != component(b, i) {
        component(a, i) > component(b, i)
    } else {
        compare_from(a, b, i + 1)
    }
}

/// Whether the release `a` is the release `b` or newer.
pub open spec fn release_at_least(a: Seq<char>, b: Seq<char>) -> bool {
    compare_from(release_components(a), release_components(b), 0)
}

proof fn lemma_compare_reflexive(x: Seq<u64>, i: nat)
    ensures
        compare_from(x, x, i),
    decreases MAX_RELEASE_COMPONENTS - i,
{
    if i < MAX_RELEASE_COMPONENTS {
        lemma_compare_reflexive(x, i + 1);
    }
}

proof fn lemma_compare_total(x: Seq<u64>, y: Seq<u64>, i: nat)
    ensures
        compare_from(x, y, i) || compare_from(y, x, i),
    decreases MAX_RELEASE_COMPONENTS - i,
{
    if i < MAX_RELEASE_COMPONENTS {
        lemma_compare_total(x, y, i + 1);
    }
}

proof fn lemma_compare_transitive(x: Seq<u64>, y: Seq<u64>, z: Seq<u64>, i: nat)
    requires
        compare_from(x, y, i),
        compare_from(y, z, i),
    ensures
        compare_from(x, z, i),
    decreases MAX_RELEASE_COMPONENTS - i,
{
    if i < MAX_RELEASE_COMPONENTS && component(x, i) == component(y, i) && component(y, i)
        == component(z, i) {
        lemma_compare_transitive(x, y, z, i + 1);
    }
}

/// Every release is at least itself.
pub proof fn release_order_reflexive(a: Seq<char>)
    ensures
        release_at_least(a, a),
{
    lemma_compare_reflexive(release_components(a), 0);
}

/// Of any two releases, one is at least the other.
pub proof fn release_order_total(a: Seq<char>, b: Seq<char>)
    ensures
        release_at_least(a, b) || release_at_least(b, a),
{
    lemma_compare_total(release_components(a), release_components(b), 0);
}

/// A release at least a second one, which is at least a third, is at least
/// the third.
pub proof fn release_order_transitive(a: Seq<char>, b: Seq<char>, c: Seq<char>)
    requires
        release_at_least(a, b),
        release_at_least(b, c),
    ensures
        release_at_least(a, c),
{
    lemma_compare_transitive(release_components(a), release_components(b), release_components(c), 0);
}

/// Reads the leading dotted numeric components of a release string.
fn numeric_components(text: &str) -> (r: Vec<u64>)
    ensures
        r@ == release_components(text@),
{
    let chars = chars_of(text);
    let n: usize = if chars.len() < MAX_RELEASE_BYTES {
        chars.len()
    } else {
        MAX_RELEASE_BYTES
    };
    let ghost v = at_most(text@, MAX_RELEASE_BYTES as nat);
    assert(v.len() == n);
    let mut out: Vec<u64> = Vec::new();
    let mut current: u64 = 0;
    let mut started = false;
    let mut done = false;
    let mut k: usize = 0;
    while k < n
        invariant
            k <= n,
            n <= chars.len(),
            chars@ == text@,
            v.len() == n,
            forall|j: int| 0 <= j < n ==> v[j] == chars@[j],
            (out@, current, started, done) == scan(v.take(k as int)),
        decreases n - k,
    {
        let c = chars[k];
        assert(v.take(k as int + 1).drop_last() =~= v.take(k as int));
        if !done {
            if is_ascii_digit(c) {
                let digit = (c as u32 - '0' as u32) as u64;
                current = match current.checked_mul(10) {
                    Some(m) => m.saturating_add(digit),
                    None => u64::MAX,
                };
                started = true;
            } else if c != '.' || !started || out.len() >= MAX_RELEASE_COMPONENTS {
                done = true;
            } else {
                out.push(current);
                current = 0;
                started = false;
            }
        }
        k += 1;
    }
    assert(v.take(n as int) =~= v);
    if started && out.len() < MAX_RELEASE_COMPONENTS {
        out.push(current);
    }
    out
}

/// The identifier threading a request, its result and its audit trail together.
#[derive(Debug, PartialEq, Eq, Hash)]
pub struct CorrelationId(String);

impl CorrelationId {
    /// A value of this type passes every rule of its field.
    #[verifier::type_invariant]
    pub closed spec fn well_formed(self) -> bool {
        field_fault(FieldKind::Correlation, self.0@) is None
    }

    /// The value, as written.
    pub fn as_str(&self) -> (r: &str)
        ensures
            r@ == self@,
            field_fault(FieldKind::Correlation, r@) is None,
    {
        proof {
            use_type_invariant(self);
        }
        self.0.as_str()
    }
}

impl Clone for CorrelationId {
    fn clone(&self) -> (r: Self)
        ensures
            r@ == self@,
    {
        proof {
            use_type_invariant(self);
        }
        CorrelationId(self.0.clone())
    }
}

impl View for CorrelationId {
    type V = Seq<char>;

    closed spec fn view(&self) -> Seq<char> {
        self.0@
    }
}

impl TryFrom<String> for CorrelationId {
    type Error = FieldError;

    fn try_from(value: String) -> (r: Result<Self, FieldError>)
        ensures
            match r {
                Ok(field) => field@ == value@ && field_fault(FieldKind::Correlation, value@) is None,
                Err(e) => field_fault(FieldKind::Correlation, value@) == Some(e@),
            },
    {
        match check_field(FieldKind::Correlation, &value) {
            Ok(()) => Ok(CorrelationId(value)),
            Err(e) => Err(e),
        }
    }
}

impl vstd::std_specs::convert::TryFromSpecImpl<String> for CorrelationId {
    open spec fn obeys_try_from_spec() -> bool {
        false
    }

    open spec fn try_from_spec(v: String) -> Result<Self, FieldError> {
        arbitrary()
    }
}

impl From<CorrelationId> for String {
    fn from(value: CorrelationId) -> (r: String)
        ensures
            r@ == value@,
    {
        value.0
    }
}

impl vstd::std_specs::convert::FromSpecImpl<CorrelationId> for String {
    open spec fn obeys_from_spec() -> bool {
        false
    }

    open spec fn from_spec(v: CorrelationId) -> String {
        arbitrary()
    }
}

/// An exact source revision: a full 40-character git commit identifier.
#[derive(Debug, PartialEq, Eq, Hash)]
pub struct Revision(String);

impl Revision {
    /// A value of this type passes every rule of its field.
    #[verifier::type_invariant]
    pub closed spec fn well_formed(self) -> bool {
        field_fault(FieldKind::Revision, self.0@) is None
    }

    /// The revision, as written.
    pub fn as_str(&self) -> (r: &str)
        ensures
            r@ == self@,
            field_fault(FieldKind::Revision, r@) is None,
    {
        proof {
            use_type_invariant(self);
        }
        self.0.as_str()
    }
}

impl Clone for Revision {
    fn clone(&self) -> (r: Self)
        ensures
            r@ == self@,
    {
        proof {
            use_type_invariant(self);
        }
        Revision(self.0.clone())
    }
}

impl View for Revision {
    type V = Seq<char>;

    closed spec fn view(&self) -> Seq<char> {
        self.0@
    }
}

impl TryFrom<String> for Revision {
    type Error = FieldError;

    fn try_from(value: String) -> (r: Result<Self, FieldError>)
        ensures
            match r {
                Ok(field) => field@ == value@ && field_fault(FieldKind::Revision, value@) is None,
                Err(e) => field_fault(FieldKind::Revision, value@) == Some(e@),
            },
    {
        match check_field(FieldKind::Revision, &value) {
            Ok(()) => Ok(Revision(value)),
            Err(e) => Err(e),
        }
    }
}

impl vstd::std_specs::convert::TryFromSpecImpl<String> for Revision {
    open spec fn obeys_try_from_spec() -> bool {
        false
    }

    open spec fn try_from_spec(v: String) -> Result<Self, FieldError> {
        arbitrary()
    }
}

impl From<Revision> for String {
    fn from(value: Revision) -> (r: String)
        ensures
            r@ == value@,
    {
        value.0
    }
}

impl vstd::std_specs::convert::FromSpecImpl<Revision> for String {
    open spec fn obeys_from_spec() -> bool {
        false
    }

    open spec fn from_spec(v: Revision) -> String {
        arbitrary()
    }
}

/// A dated distribution snapshot identifier, `YYYY/MM/DD`.
#[derive(Debug, PartialEq, Eq, Hash)]
pub struct SnapshotId(String);

impl SnapshotId {
    /// A value of this type passes every rule of its field.
    #[verifier::type_invariant]
    pub closed spec fn well_formed(self) -> bool {
        field_fault(FieldKind::Snapshot, self.0@) is None
    }

    /// The snapshot identifier, as written.
    pub fn as_str(&self) -> (r: &str)
        ensures
            r@ == self@,
            field_fault(FieldKind::Snapshot, r@) is None,
    {
        proof {
            use_type_invariant(self);
        }
        self.0.as_str()
    }
}

impl Clone for SnapshotId {
    fn clone(&self) -> (r: Self)
        ensures
            r@ == self@,
    {
        proof {
            use_type_invariant(self);
        }
        SnapshotId(self.0.clone())
    }
}

impl View for SnapshotId {
    type V = Seq<char>;

    closed spec fn view(&self) -> Seq<char> {
        self.0@
    }
}

impl TryFrom<String> for SnapshotId {
    type Error = FieldError;

    fn try_from(value: String) -> (r: Result<Self, FieldError>)
        ensures
            match r {
                Ok(field) => field@ == value@ && field_fault(FieldKind::Snapshot, value@) is None,
                Err(e) => field_fault(FieldKind::Snapshot, value@) == Some(e@),
            },
    {
        match check_field(FieldKind::Snapshot, &value) {
            Ok(()) => Ok(SnapshotId(value)),
            Err(e) => Err(e),
        }
    }
}

impl vstd::std_specs::convert::TryFromSpecImpl<String> for SnapshotId {
    open spec fn obeys_try_from_spec() -> bool {
        false
    }

    open spec fn try_from_spec(v: String) -> Result<Self, FieldError> {
        arbitrary()
    }
}

impl From<SnapshotId> for String {
    fn from(value: SnapshotId) -> (r: String)
        ensures
            r@ == value@,
    {
        value.0
    }
}

impl vstd::std_specs::convert::FromSpecImpl<SnapshotId> for String {
    open spec fn obeys_from_spec() -> bool {
        false
    }

    open spec fn from_spec(v: SnapshotId) -> String {
        arbitrary()
    }
}

/// A repository-relative path to a reviewed configuration input.
#[derive(Debug, PartialEq, Eq, Hash)]
pub struct RelativePath(String);

impl RelativePath {
    /// A value of this type passes every rule of its field.
    #[verifier::type_invariant]
    pub closed spec fn well_formed(self) -> bool {
        field_fault(FieldKind::Path, self.0@) is None
    }

    /// The path, as written.
    pub fn as_str(&self) -> (r: &str)
        ensures
            r@ == self@,
            field_fault(FieldKind::Path, r@) is None,
    {
        proof {
            use_type_invariant(self);
        }
        self.0.as_str()
    }
}

impl Clone for RelativePath {
    fn clone(&self) -> (r: Self)
        ensures
            r@ == self@,
    {
        proof {
            use_type_invariant(self);
        }
        RelativePath(self.0.clone())
    }
}

impl View for RelativePath {
    type V = Seq<char>;

    closed spec fn view(&self) -> Seq<char> {
        self.0@
    }
}

impl TryFrom<String> for RelativePath {
    type Error = FieldError;

    fn try_from(value: String) -> (r: Result<Self, FieldError>)
        ensures
            match r {
                Ok(field) => field@ == value@ && field_fault(FieldKind::Path, value@) is None,
                Err(e) => field_fault(FieldKind::Path, value@) == Some(e@),
            },
    {
        match check_field(FieldKind::Path, &value) {
            Ok(()) => Ok(RelativePath(value)),
            Err(e) => Err(e),
        }
    }
}

impl vstd::std_specs::convert::TryFromSpecImpl<String> for RelativePath {
    open spec fn obeys_try_from_spec() -> bool {
        false
    }

    open spec fn try_from_spec(v: String) -> Result<Self, FieldError> {
        arbitrary()
    }
}

impl From<RelativePath> for String {
    fn from(value: RelativePath) -> (r: String)
        ensures
            r@ == value@,
    {
        value.0
    }
}

impl vstd::std_specs::convert::FromSpecImpl<RelativePath> for String {
    open spec fn obeys_from_spec() -> bool {
        false
    }

    open spec fn from_spec(v: RelativePath) -> String {
        arbitrary()
    }
}

/// One package name in the pinned image content set.
#[derive(Debug, PartialEq, Eq, Hash)]
pub struct PackageName(String);

impl PackageName {
    /// A value of this type passes every rule of its field.
    #[verifier::type_invariant]
    pub closed spec fn well_formed(self) -> bool {
        field_fault(FieldKind::Package, self.0@) is None
    }

    /// The package name, as written.
    pub fn as_str(&self) -> (r: &str)
        ensures
            r@ == self@,
            field_fault(FieldKind::Package, r@) is None,
    {
        proof {
            use_type_invariant(self);
        }
        self.0.as_str()
    }
}

impl Clone for PackageName {
    fn clone(&self) -> (r: Self)
        ensures
            r@ == self@,
    {
        proof {
            use_type_invariant(self);
        }
        PackageName(self.0.clone())
    }
}

impl View for PackageName {
    type V = Seq<char>;

    closed spec fn view(&self) -> Seq<char> {
        self.0@
    }
}

impl TryFrom<String> for PackageName {
    type Error = FieldError;

    fn try_from(value: String) -> (r: Result<Self, FieldError>)
        ensures
            match r {
                Ok(field) => field@ == value@ && field_fault(FieldKind::Package, value@) is None,
                Err(e) => field_fault(FieldKind::Package, value@) == Some(e@),
            },
    {
        match check_field(FieldKind::Package, &value) {
            Ok(()) => Ok(PackageName(value)),
            Err(e) => Err(e),
        }
    }
}

impl vstd::std_specs::convert::TryFromSpecImpl<String> for PackageName {
    open spec fn obeys_try_from_spec() -> bool {
        false
    }

    open spec fn try_from_spec(v: String) -> Result<Self, FieldError> {
        arbitrary()
    }
}

impl From<PackageName> for String {
    fn from(value: PackageName) -> (r: String)
        ensures
            r@ == value@,
    {
        value.0
    }
}

impl vstd::std_specs::convert::FromSpecImpl<PackageName> for String {
    open spec fn obeys_from_spec() -> bool {
        false
    }

    open spec fn from_spec(v: PackageName) -> String {
        arbitrary()
    }
}

/// The sha256 of a produced artifact, in lower-case hexadecimal.
#[derive(Debug, PartialEq, Eq, Hash)]
pub struct ArtifactDigest(String);

impl ArtifactDigest {
    /// A value of this type passes every rule of its field.
    #[verifier::type_invariant]
    pub closed spec fn well_formed(self) -> bool {
        field_fault(FieldKind::Digest, self.0@) is None
    }

    /// The digest, as written.
    pub fn as_str(&self) -> (r: &str)
        ensures
            r@ == self@,
            field_fault(FieldKind::Digest, r@) is None,
    {
        proof {
            use_type_invariant(self);
        }
        self.0.as_str()
    }
}

impl Clone for ArtifactDigest {
    fn clone(&self) -> (r: Self)
        ensures
            r@ == self@,
    {
        proof {
            use_type_invariant(self);
        }
        ArtifactDigest(self.0.clone())
    }
}

impl View for ArtifactDigest {
    type V = Seq<char>;

    closed spec fn view(&self) -> Seq<char> {
        self.0@
    }
}

impl TryFrom<String> for ArtifactDigest {
    type Error = FieldError;

    fn try_from(value: String) -> (r: Result<Self, FieldError>)
        ensures
            match r {
                Ok(field) => field@ == value@ && field_fault(FieldKind::Digest, value@) is None,
                Err(e) => field_fault(FieldKind::Digest, value@) == Some(e@),
            },
    {
        match check_field(FieldKind::Digest, &value) {
            Ok(()) => Ok(ArtifactDigest(value)),
            Err(e) => Err(e),
        }
    }
}

impl vstd::std_specs::convert::TryFromSpecImpl<String> for ArtifactDigest {
    open spec fn obeys_try_from_spec() -> bool {
        false
    }

    open spec fn try_from_spec(v: String) -> Result<Self, FieldError> {
        arbitrary()
    }
}

impl From<ArtifactDigest> for String {
    fn from(value: ArtifactDigest) -> (r: String)
        ensures
            r@ == value@,
    {
        value.0
    }
}

impl vstd::std_specs::convert::FromSpecImpl<ArtifactDigest> for String {
    open spec fn obeys_from_spec() -> bool {
        false
    }

    open spec fn from_spec(v: ArtifactDigest) -> String {
        arbitrary()
    }
}

/// The signature over a produced artifact, in lower-case hexadecimal.
#[derive(Debug, PartialEq, Eq, Hash)]
pub struct ArtifactSignature(String);

impl ArtifactSignature {
    /// A value of this type passes every rule of its field.
    #[verifier::type_invariant]
    pub closed spec fn well_formed(self) -> bool {
        field_fault(FieldKind::Signature, self.0@) is None
    }

    /// The signature, as written.
    pub fn as_str(&self) -> (r: &str)
        ensures
            r@ == self@,
            field_fault(FieldKind::Signature, r@) is None,
    {
        proof {
            use_type_invariant(self);
        }
        self.0.as_str()
    }
}

impl Clone for ArtifactSignature {
    fn clone(&self) -> (r: Self)
        ensures
            r@ == self@,
    {
        proof {
            use_type_invariant(self);
        }
        ArtifactSignature(self.0.clone())
    }
}

impl View for ArtifactSignature {
    type V = Seq<char>;

    closed spec fn view(&self) -> Seq<char> {
        self.0@
    }
}

impl TryFrom<String> for ArtifactSignature {
    type Error = FieldError;

    fn try_from(value: String) -> (r: Result<Self, FieldError>)
        ensures
            match r {
                Ok(field) => field@ == value@ && field_fault(FieldKind::Signature, value@) is None,
                Err(e) => field_fault(FieldKind::Signature, value@) == Some(e@),
            },
    {
        match check_field(FieldKind::Signature, &value) {
            Ok(()) => Ok(ArtifactSignature(value)),
            Err(e) => Err(e),
        }
    }
}

impl vstd::std_specs::convert::TryFromSpecImpl<String> for ArtifactSignature {
    open spec fn obeys_try_from_spec() -> bool {
        false
    }

    open spec fn try_from_spec(v: String) -> Result<Self, FieldError> {
        arbitrary()
    }
}

impl From<ArtifactSignature> for String {
    fn from(value: ArtifactSignature) -> (r: String)
        ensures
            r@ == value@,
    {
        value.0
    }
}

impl vstd::std_specs::convert::FromSpecImpl<ArtifactSignature> for String {
    open spec fn obeys_from_spec() -> bool {
        false
    }

    open spec fn from_spec(v: ArtifactSignature) -> String {
        arbitrary()
    }
}

/// One Kconfig symbol name, such as `CONFIG_BPF_LSM`.
#[derive(Debug, PartialEq, Eq, Hash)]
pub struct ConfigSymbol(String);

impl ConfigSymbol {
    /// A value of this type passes every rule of its field.
    #[verifier::type_invariant]
    pub closed spec fn well_formed(self) -> bool {
        field_fault(FieldKind::Symbol, self.0@) is None
    }

    /// The symbol, as written.
    pub fn as_str(&self) -> (r: &str)
        ensures
            r@ == self@,
            field_fault(FieldKind::Symbol, r@) is None,
    {
        proof {
            use_type_invariant(self);
        }
        self.0.as_str()
    }
}

impl Clone for ConfigSymbol {
    fn clone(&self) -> (r: Self)
        ensures
            r@ == self@,
    {
        proof {
            use_type_invariant(self);
        }
        ConfigSymbol(self.0.clone())
    }
}

impl View for ConfigSymbol {
    type V = Seq<char>;

    closed spec fn view(&self) -> Seq<char> {
        self.0@
    }
}

impl TryFrom<String> for ConfigSymbol {
    type Error = FieldError;

    fn try_from(value: String) -> (r: Result<Self, FieldError>)
        ensures
            match r {
                Ok(field) => field@ == value@ && field_fault(FieldKind::Symbol, value@) is None,
                Err(e) => field_fault(FieldKind::Symbol, value@) == Some(e@),
            },
    {
        match check_field(FieldKind::Symbol, &value) {
            Ok(()) => Ok(ConfigSymbol(value)),
            Err(e) => Err(e),
        }
    }
}

impl vstd::std_specs::convert::TryFromSpecImpl<String> for ConfigSymbol {
    open spec fn obeys_try_from_spec() -> bool {
        false
    }

    open spec fn try_from_spec(v: String) -> Result<Self, FieldError> {
        arbitrary()
    }
}

impl From<ConfigSymbol> for String {
    fn from(value: ConfigSymbol) -> (r: String)
        ensures
            r@ == value@,
    {
        value.0
    }
}

impl vstd::std_specs::convert::FromSpecImpl<ConfigSymbol> for String {
    open spec fn obeys_from_spec() -> bool {
        false
    }

    open spec fn from_spec(v: ConfigSymbol) -> String {
        arbitrary()
    }
}

/// A kernel release string, such as `6.12` or `7.2.4-1-cachyos`.
#[derive(Debug, PartialEq, Eq, Hash)]
pub struct KernelRelease(String);

impl KernelRelease {
    /// A value of this type passes every rule of its field.
    #[verifier::type_invariant]
    pub closed spec fn well_formed(self) -> bool {
        field_fault(FieldKind::Release, self.0@) is None
    }

    /// The release, as written.
    pub fn as_str(&self) -> (r: &str)
        ensures
            r@ == self@,
            field_fault(FieldKind::Release, r@) is None,
    {
        proof {
            use_type_invariant(self);
        }
        self.0.as_str()
    }

    /// Returns `true` when this release is `floor` or newer.
    ///
    /// Only the leading dotted numeric components are compared, a missing
    /// component reading as zero.
    pub fn at_least(&self, floor: &Self) -> (r: bool)
        ensures
            r == release_at_least(self@, floor@),
    {
        let mine = numeric_components(self.0.as_str());
        let theirs = numeric_components(floor.0.as_str());
        let mut index: usize = 0;
        while index < MAX_RELEASE_COMPONENTS
            invariant
                index <= MAX_RELEASE_COMPONENTS,
                mine@ == release_components(self@),
                theirs@ == release_components(floor@),
                release_at_least(self@, floor@) == compare_from(mine@, theirs@, index as nat),
            decreases MAX_RELEASE_COMPONENTS - index,
        {
            let left = if index < mine.len() { mine[index] } else { 0 };
            let right = if index < theirs.len() { theirs[index] } else { 0 };
            if left != right {
                return left > right;
            }
            index += 1;
        }
        true
    }
}

impl Clone for KernelRelease {
    fn clone(&self) -> (r: Self)
        ensures
            r@ == self@,
    {
        proof {
            use_type_invariant(self);
        }
        KernelRelease(self.0.clone())
    }
}

impl View for KernelRelease {
    type V = Seq<char>;

    closed spec fn view(&self) -> Seq<char> {
        self.0@
    }
}

impl TryFrom<String> for KernelRelease {
    type Error = FieldError;

    fn try_from(value: String) -> (r: Result<Self, FieldError>)
        ensures
            match r {
                Ok(field) => field@ == value@ && field_fault(FieldKind::Release, value@) is None,
                Err(e) => field_fault(FieldKind::Release, value@) == Some(e@),
            },
    {
        match check_field(FieldKind::Release, &value) {
            Ok(()) => Ok(KernelRelease(value)),
            Err(e) => Err(e),
        }
    }
}

impl vstd::std_specs::convert::TryFromSpecImpl<String> for KernelRelease {
    open spec fn obeys_try_from_spec() -> bool {
        false
    }

    open spec fn try_from_spec(v: String) -> Result<Self, FieldError> {
        arbitrary()
    }
}

impl From<KernelRelease> for String {
    fn from(value: KernelRelease) -> (r: String)
        ensures
            r@ == value@,
    {
        value.0
    }
}

impl vstd::std_specs::convert::FromSpecImpl<KernelRelease> for String {
    open spec fn obeys_from_spec() -> bool {
        false
    }

    open spec fn from_spec(v: KernelRelease) -> String {
        arbitrary()
    }
}

/// The identifier of the recorded requirement a payload row comes from.
#[derive(Debug, PartialEq, Eq, Hash)]
pub struct RequirementId(String);

impl RequirementId {
    /// A value of this type passes every rule of its field.
    #[verifier::type_invariant]
    pub closed spec fn well_formed(self) -> bool {
        field_fault(FieldKind::Requirement, self.0@) is None
    }

    /// The identifier, as written.
    pub fn as_str(&self) -> (r: &str)
        ensures
            r@ == self@,
            field_fault(FieldKind::Requirement, r@) is None,
    {
        proof {
            use_type_invariant(self);
        }
        self.0.as_str()
    }
}

impl Clone for RequirementId {
    fn clone(&self) -> (r: Self)
        ensures
            r@ == self@,
    {
        proof {
            use_type_invariant(self);
        }
        RequirementId(self.0.clone())
    }
}

impl View for RequirementId {
    type V = Seq<char>;

    closed spec fn view(&self) -> Seq<char> {
        self.0@
    }
}

impl TryFrom<String> for RequirementId {
    type Error = FieldError;

    fn try_from(value: String) -> (r: Result<Self, FieldError>)
        ensures
            match r {
                Ok(field) => field@ == value@ && field_fault(FieldKind::Requirement, value@) is None,
                Err(e) => field_fault(FieldKind::Requirement, value@) == Some(e@),
            },
    {
        match check_field(FieldKind::Requirement, &value) {
            Ok(()) => Ok(RequirementId(value)),
            Err(e) => Err(e),
        }
    }
}

impl vstd::std_specs::convert::TryFromSpecImpl<String> for RequirementId {
    open spec fn obeys_try_from_spec() -> bool {
        false
    }

    open spec fn try_from_spec(v: String) -> Result<Self, FieldError> {
        arbitrary()
    }
}

impl From<RequirementId> for String {
    fn from(value: RequirementId) -> (r: String)
        ensures
            r@ == value@,
    {
        value.0
    }
}

impl vstd::std_specs::convert::FromSpecImpl<RequirementId> for String {
    open spec fn obeys_from_spec() -> bool {
        false
    }

    open spec fn from_spec(v: RequirementId) -> String {
        arbitrary()
    }
}

/// The decimal numeral of `d < 10` is one digit, worth `d`.
proof fn lemma_digit_char_value(d: nat)
    requires
        d < 10,
    ensures
        ascii_digit(digit_char(d)),
        digit_value(digit_char(d)) == d,
{
}

/// Reading the decimal numeral of `n`, from a state with no component
/// started, leaves `n` as the component being read.
proof fn lemma_scan_decimal(p: Seq<char>, n: nat)
    requires
        n <= u64::MAX,
        !scan(p).3,
        !scan(p).2,
        scan(p).1 == 0,
    ensures
        scan(p + decimal(n)) == (scan(p).0, n as u64, true, false),
        decimal(n).len() >= 1,
    decreases n,
{
    if n < 10 {
        lemma_digit_char_value(n);
        assert((p + decimal(n)).drop_last() =~= p);
        assert((p + decimal(n)).last() == digit_char(n));
    } else {
        lemma_scan_decimal(p, n / 10);
        lemma_digit_char_value(n % 10);
        assert((p + decimal(n)).drop_last() =~= p + decimal(n / 10));
        assert((p + decimal(n)).last() == digit_char(n % 10));
        assert((n / 10) * 10 + n % 10 == n) by (nonlinear_arith);
    }
}

/// A release written as two dotted decimal numbers reads as exactly those
/// two numbers: `6.12` reads as `[6, 12]`.
pub proof fn two_part_release_components(a: nat, b: nat)
    requires
        a <= u64::MAX,
        b <= u64::MAX,
        decimal(a).len() + 1 + decimal(b).len() <= MAX_RELEASE_BYTES,
    ensures
        release_components(decimal(a) + seq!['.'] + decimal(b)) == seq![a as u64, b as u64],
{
    let e = Seq::<char>::empty();
    assert(scan(e) == (Seq::<u64>::empty(), 0u64, false, false));
    lemma_scan_decimal(e, a);
    assert(e + decimal(a) =~= decimal(a));
    let pa = decimal(a) + seq!['.'];
    assert(pa.drop_last() =~= decimal(a));
    assert(pa.last() == '.');
    assert(scan(pa) == (seq![a as u64], 0u64, false, false));
    lemma_scan_decimal(pa, b);
    let v = decimal(a) + seq!['.'] + decimal(b);
    assert(v =~= pa + decimal(b));
    assert(at_most(v, MAX_RELEASE_BYTES as nat) == v);
    assert(seq![a as u64].push(b as u64) =~= seq![a as u64, b as u64]);
}

/// Releases are ordered by the value of each dotted component, the first
/// that differs deciding: `a.b` is at least `c.d` exactly when `a > c`, or
/// `a == c` and `b >= d`. So `6.12` is at least `6.9`.
pub proof fn two_part_release_order(a: nat, b: nat, c: nat, d: nat)
    requires
        a <= u64::MAX,
        b <= u64::MAX,
        c <= u64::MAX,
        d <= u64::MAX,
        decimal(a).len() + 1 + decimal(b).len() <= MAX_RELEASE_BYTES,
        decimal(c).len() + 1 + decimal(d).len() <= MAX_RELEASE_BYTES,
    ensures
        release_at_least(decimal(a) + seq!['.'] + decimal(b), decimal(c) + seq!['.'] + decimal(d))
            <==> (a > c || (a == c && b >= d)),
{
    two_part_release_components(a, b);
    two_part_release_components(c, d);
    let x = seq![a as u64, b as u64];
    let y = seq![c as u64, d as u64];
    assert(component(x, 0) == a && component(y, 0) == c);
    assert(component(x, 1) == b && component(y, 1) == d);
    lemma_compare_zero_tail(x, y, 2);
    assert(compare_from(x, y, 1) == if b != d {
        b > d
    } else {
        compare_from(x, y, 2)
    });
    assert(compare_from(x, y, 0) == if a != c {
        a > c
    } else {
        compare_from(x, y, 1)
    });
}

/// Past the components two short sequences hold, the comparison is even.
proof fn lemma_compare_zero_tail(x: Seq<u64>, y: Seq<u64>, i: nat)
    requires
        x.len() <= i,
        y.len() <= i,
    ensures
        compare_from(x, y, i),
    decreases MAX_RELEASE_COMPONENTS - i,
{
    if i < MAX_RELEASE_COMPONENTS {
        lemma_compare_zero_tail(x, y, i + 1);
    }
}

} // verus!
