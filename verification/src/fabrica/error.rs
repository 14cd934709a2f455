//! The refusals: everything this crate reads as "not a valid definition".
//!
//! A variant exists for one of two reasons: systemd itself refuses the input,
//! or systemd accepts it after printing a diagnostic and accepting it would
//! let a definition drift away from what the tool will actually do.

use vstd::prelude::*;
use crate::text::{debug_quote, debug_quoted, decimal, push_decimal, push_text};

verus! {

/// Why a definition was refused.
#[derive(Debug, Clone, PartialEq, Eq)]
pub enum DefinitionError {
    /// The file has more lines than the scalar bound allows.
    TooManyLines { name: String, lines: usize, bound: usize },
    /// A single line is longer than the scalar bound allows.
    LineTooLong { name: String, line: usize, bound: usize },
    /// The file declares more sections or assignments than the bound allows.
    TooMany { name: String, what: &'static str, bound: usize },
    /// A line is neither a comment, a section header nor a `Key=Value` pair.
    MalformedLine { name: String, line: usize },
    /// An assignment appeared before any section header.
    KeyOutsideSection { name: String, line: usize, key: String },
    /// A section header repeats; systemd merges, this reader refuses.
    DuplicateSection { name: String, line: usize, section: String },
    /// A key repeats inside one section; systemd takes the last, this reader refuses.
    DuplicateKey { name: String, line: usize, section: String, key: String },
    /// A section this definition kind does not define.
    UnknownSection { name: String, line: usize, section: String },
    /// A key systemd does not define; systemd only warns about it.
    UnknownKey { name: String, line: usize, section: String, key: String },
    /// A mandatory key is absent.
    MissingKey { name: String, section: String, key: &'static str },
    /// A size, count or boolean value could not be read.
    MalformedValue {
        name: String,
        line: usize,
        key: String,
        value: String,
        expected: &'static str,
    },
    /// `SizeMinBytes=` is larger than `SizeMaxBytes=`.
    InvertedSize { name: String, minimum: u64, maximum: u64 },
}

/// The mathematical content of a [`DefinitionError`].
pub enum DefinitionFault {
    TooManyLines { name: Seq<char>, lines: nat, bound: nat },
    LineTooLong { name: Seq<char>, line: nat, bound: nat },
    TooMany { name: Seq<char>, what: Seq<char>, bound: nat },
    MalformedLine { name: Seq<char>, line: nat },
    KeyOutsideSection { name: Seq<char>, line: nat, key: Seq<char> },
    DuplicateSection { name: Seq<char>, line: nat, section: Seq<char> },
    DuplicateKey { name: Seq<char>, line: nat, section: Seq<char>, key: Seq<char> },
    UnknownSection { name: Seq<char>, line: nat, section: Seq<char> },
    UnknownKey { name: Seq<char>, line: nat, section: Seq<char>, key: Seq<char> },
    MissingKey { name: Seq<char>, section: Seq<char>, key: Seq<char> },
    MalformedValue {
        name: Seq<char>,
        line: nat,
        key: Seq<char>,
        value: Seq<char>,
        expected: Seq<char>,
    },
    InvertedSize { name: Seq<char>, minimum: nat, maximum: nat },
}

impl View for DefinitionError {
    type V = DefinitionFault;

    open spec fn view(&self) -> DefinitionFault {
        match self {
            DefinitionError::TooManyLines { name, lines, bound } => DefinitionFault::TooManyLines {
                name: name@,
                lines: *lines as nat,
                bound: *bound as nat,
            },
            DefinitionError::LineTooLong { name, line, bound } => DefinitionFault::LineTooLong {
                name: name@,
                line: *line as nat,
                bound: *bound as nat,
            },
            DefinitionError::TooMany { name, what, bound } => DefinitionFault::TooMany {
                name: name@,
                what: what@,
                bound: *bound as nat,
            },
            DefinitionError::MalformedLine { name, line } => DefinitionFault::MalformedLine {
                name: name@,
                line: *line as nat,
            },
            DefinitionError::KeyOutsideSection { name, line, key } =>
                DefinitionFault::KeyOutsideSection { name: name@, line: *line as nat, key: key@ },
            DefinitionError::DuplicateSection { name, line, section } =>
                DefinitionFault::DuplicateSection {
                name: name@,
                line: *line as nat,
                section: section@,
            },
            DefinitionError::DuplicateKey { name, line, section, key } =>
                DefinitionFault::DuplicateKey {
                name: name@,
                line: *line as nat,
                section: section@,
                key: key@,
            },
            DefinitionError::UnknownSection { name, line, section } =>
                DefinitionFault::UnknownSection {
                name: name@,
                line: *line as nat,
                section: section@,
            },
            DefinitionError::UnknownKey { name, line, section, key } =>
                DefinitionFault::UnknownKey {
                name: name@,
                line: *line as nat,
                section: section@,
                key: key@,
            },
            DefinitionError::MissingKey { name, section, key } => DefinitionFault::MissingKey {
                name: name@,
                section: section@,
                key: key@,
            },
            DefinitionError::MalformedValue { name, line, key, value, expected } =>
                DefinitionFault::MalformedValue {
                name: name@,
                line: *line as nat,
                key: key@,
                value: value@,
                expected: expected@,
            },
            DefinitionError::InvertedSize { name, minimum, maximum } =>
                DefinitionFault::InvertedSize {
                name: name@,
                minimum: *minimum as nat,
                maximum: *maximum as nat,
            },
        }
    }
}

/// `name:line: ` as the refusals prefix a located message.
pub open spec fn located(name: Seq<char>, line: nat) -> Seq<char> {
    name + ":"@ + decimal(line) + ": "@
}

/// The text a [`DefinitionError`] is reported with.
pub open spec fn fault_message(f: DefinitionFault) -> Seq<char> {
    match f {
        DefinitionFault::TooManyLines { name, lines, bound } => name + ": "@ + decimal(lines)
            + " lines exceeds the bound of "@ + decimal(bound),
        DefinitionFault::LineTooLong { name, line, bound } => located(name, line)
            + "line is longer than the bound of "@ + decimal(bound) + " bytes"@,
        DefinitionFault::TooMany { name, what, bound } => name + ": more than "@ + decimal(bound)
            + " "@ + what,
        DefinitionFault::MalformedLine { name, line } => located(name, line)
            + "not a comment, a section header or a Key=Value pair"@,
        DefinitionFault::KeyOutsideSection { name, line, key } => located(name, line)
            + "assignment "@ + key + "= appears before any section header"@,
        DefinitionFault::DuplicateSection { name, line, section } => located(name, line)
            + "section ["@ + section + "] is declared more than once"@,
        DefinitionFault::DuplicateKey { name, line, section, key } => located(name, line) + "key "@
            + key + "= is assigned more than once in ["@ + section + "]"@,
        DefinitionFault::UnknownSection { name, line, section } => located(name, line)
            + "unknown section ["@ + section + "]"@,
        DefinitionFault::UnknownKey { name, line, section, key } => located(name, line)
            + "unknown key "@ + key + "= in section ["@ + section + "]"@,
        DefinitionFault::MissingKey { name, section, key } => name + ": ["@ + section + "] has no "@
            + key + "=, which is mandatory"@,
        DefinitionFault::MalformedValue { name, line, key, value, expected } => located(name, line)
            + key + "= value "@ + debug_quoted(value) + " is not a valid "@ + expected,
        DefinitionFault::InvertedSize { name, minimum, maximum } => name + ": SizeMinBytes="@
            + decimal(minimum) + " is larger than SizeMaxBytes="@ + decimal(maximum),
    }
}

fn push_located(out: &mut String, name: &String, line: usize)
    ensures
        final(out)@ == old(out)@ + located(name@, line as nat),
{
    push_text(out, name.as_str());
    push_text(out, ":");
    push_decimal(out, line as u64);
    push_text(out, ": ");
    assert(final(out)@ =~= old(out)@ + located(name@, line as nat));
}

impl DefinitionError {
    /// The text this refusal is reported with.
    pub fn message(&self) -> (r: String)
        ensures
            r@ == fault_message(self@),
    {
        let mut out = String::new();
        match self {
            DefinitionError::TooManyLines { name, lines, bound } => {
                push_text(&mut out, name.as_str());
                push_text(&mut out, ": ");
                push_decimal(&mut out, *lines as u64);
                push_text(&mut out, " lines exceeds the bound of ");
                push_decimal(&mut out, *bound as u64);
            },
            DefinitionError::LineTooLong { name, line, bound } => {
                push_located(&mut out, name, *line);
                push_text(&mut out, "line is longer than the bound of ");
                push_decimal(&mut out, *bound as u64);
                push_text(&mut out, " bytes");
            },
            DefinitionError::TooMany { name, what, bound } => {
                push_text(&mut out, name.as_str());
                push_text(&mut out, ": more than ");
                push_decimal(&mut out, *bound as u64);
                push_text(&mut out, " ");
                push_text(&mut out, what);
            },
            DefinitionError::MalformedLine { name, line } => {
                push_located(&mut out, name, *line);
                push_text(&mut out, "not a comment, a section header or a Key=Value pair");
            },
            DefinitionError::KeyOutsideSection { name, line, key } => {
                push_located(&mut out, name, *line);
                push_text(&mut out, "assignment ");
                push_text(&mut out, key.as_str());
                push_text(&mut out, "= appears before any section header");
            },
            DefinitionError::DuplicateSection { name, line, section } => {
                push_located(&mut out, name, *line);
                push_text(&mut out, "section [");
                push_text(&mut out, section.as_str());
                push_text(&mut out, "] is declared more than once");
            },
            DefinitionError::DuplicateKey { name, line, section, key } => {
                push_located(&mut out, name, *line);
                push_text(&mut out, "key ");
                push_text(&mut out, key.as_str());
                push_text(&mut out, "= is assigned more than once in [");
                push_text(&mut out, section.as_str());
                push_text(&mut out, "]");
            },
            DefinitionError::UnknownSection { name, line, section } => {
                push_located(&mut out, name, *line);
                push_text(&mut out, "unknown section [");
                push_text(&mut out, section.as_str());
                push_text(&mut out, "]");
            },
            DefinitionError::UnknownKey { name, line, section, key } => {
                push_located(&mut out, name, *line);
                push_text(&mut out, "unknown key ");
                push_text(&mut out, key.as_str());
                push_text(&mut out, "= in section [");
                push_text(&mut out, section.as_str());
                push_text(&mut out, "]");
            },
            DefinitionError::MissingKey { name, section, key } => {
                push_text(&mut out, name.as_str());
                push_text(&mut out, ": [");
                push_text(&mut out, section.as_str());
                push_text(&mut out, "] has no ");
                push_text(&mut out, key);
                push_text(&mut out, "=, which is mandatory");
            },
            DefinitionError::MalformedValue { name, line, key, value, expected } => {
                push_located(&mut out, name, *line);
                push_text(&mut out, key.as_str());
                push_text(&mut out, "= value ");
                let quoted = debug_quote(value.as_str());
                push_text(&mut out, quoted.as_str());
                push_text(&mut out, " is not a valid ");
                push_text(&mut out, expected);
            },
            DefinitionError::InvertedSize { name, minimum, maximum } => {
                push_text(&mut out, name.as_str());
                push_text(&mut out, ": SizeMinBytes=");
                push_decimal(&mut out, *minimum);
                push_text(&mut out, " is larger than SizeMaxBytes=");
                push_decimal(&mut out, *maximum);
            },
        }
        assert(out@ =~= fault_message(self@));
        out
    }
}

} // verus!
