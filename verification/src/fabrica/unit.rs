//! The systemd drop-in reader both definition kinds are built on.
//!
//! It reads the subset of the unit-file syntax that `repart.d(5)` and
//! `sysupdate.d(5)` drop-ins use: comment lines, `[Section]` headers and
//! `Key=Value` assignments. Line continuations, quoting and `Key=` resets are
//! deliberately absent: a reader that silently accepted syntax it does not
//! implement would report a definition as understood when it is not.
//!
//! Every loop below is bounded by a constant declared in this module.

use vstd::prelude::*;
use crate::fabrica::error::{DefinitionError, DefinitionFault};
use crate::text::{
    alphanumeric, ascii_alphanumeric, chars_of, is_ascii_alphanumeric, lemma_utf8_len_push, lines,
    lines_from, next_line, push_text, string_of, trim, trim_bounds, utf8_len, utf8_width_of,
};

verus! {

/// Scalar bound on the lines one definition file may hold.
pub const MAX_LINES: usize = 512;

/// Scalar bound on the bytes one line may hold.
pub const MAX_LINE_BYTES: usize = 512;

/// Scalar bound on the sections one definition file may declare.
pub const MAX_SECTIONS: usize = 8;

/// Scalar bound on the assignments one definition file may hold.
pub const MAX_ENTRIES: usize = 128;

/// One `Key=Value` assignment, with the section and line it came from.
#[derive(Debug, Clone, PartialEq, Eq)]
pub struct Entry {
    /// The section header this assignment sits under, without brackets.
    pub section: String,
    /// The key, as written.
    pub key: String,
    /// The value, trimmed of surrounding whitespace.
    pub value: String,
    /// The 1-based line number the assignment was read from.
    pub line: usize,
}

/// The mathematical content of an [`Entry`].
pub struct EntryView {
    pub section: Seq<char>,
    pub key: Seq<char>,
    pub value: Seq<char>,
    pub line: nat,
}

impl View for Entry {
    type V = EntryView;

    open spec fn view(&self) -> EntryView {
        EntryView {
            section: self.section@,
            key: self.key@,
            value: self.value@,
            line: self.line as nat,
        }
    }
}

/// A parsed drop-in: its section order and its assignments, in file order.
#[derive(Debug, Clone, PartialEq, Eq)]
pub struct UnitFile {
    name: String,
    sections: Vec<String>,
    entries: Vec<Entry>,
}

/// The mathematical content of a [`UnitFile`].
pub struct UnitView {
    pub name: Seq<char>,
    pub sections: Seq<Seq<char>>,
    pub entries: Seq<EntryView>,
}

pub open spec fn strings_view(v: Seq<String>) -> Seq<Seq<char>> {
    v.map_values(|s: String| s@)
}

pub open spec fn entries_view(v: Seq<Entry>) -> Seq<EntryView> {
    v.map_values(|e: Entry| e@)
}

pub open spec fn opt_string_view(o: Option<String>) -> Option<Seq<char>> {
    match o {
        Some(s) => Some(s@),
        None => None,
    }
}

pub open spec fn opt_str_view(o: Option<&str>) -> Option<Seq<char>> {
    match o {
        Some(s) => Some(s@),
        None => None,
    }
}

impl View for UnitFile {
    type V = UnitView;

    closed spec fn view(&self) -> UnitView {
        UnitView {
            name: self.name@,
            sections: strings_view(self.sections@),
            entries: entries_view(self.entries@),
        }
    }
}

/// The index of the first assignment to `key` in `section`, at or after `i`.
pub open spec fn find_entry(entries: Seq<EntryView>, section: Seq<char>, key: Seq<char>, i: int) -> Option<int>
    decreases entries.len() - i,
{
    if i < 0 || i >= entries.len() {
        None
    } else if entries[i].section == section && entries[i].key == key {
        Some(i)
    } else {
        find_entry(entries, section, key, i + 1)
    }
}

pub proof fn lemma_find_entry_bounds(entries: Seq<EntryView>, section: Seq<char>, key: Seq<char>, i: int)
    requires
        0 <= i,
    ensures
        find_entry(entries, section, key, i) matches Some(j) ==> i <= j < entries.len()
            && entries[j].section == section && entries[j].key == key,
        find_entry(entries, section, key, i) is None ==> forall|j: int|
            i <= j < entries.len() ==> !(entries[j].section == section && entries[j].key == key),
    decreases entries.len() - i,
{
    if i < entries.len() {
        lemma_find_entry_bounds(entries, section, key, i + 1);
    }
}

/// The value assigned to `key` in `section`: the first such assignment.
pub open spec fn value_of(u: UnitView, section: Seq<char>, key: Seq<char>) -> Option<Seq<char>> {
    match find_entry(u.entries, section, key, 0) {
        Some(i) => Some(u.entries[i].value),
        None => None,
    }
}

/// The line `key` was assigned on in `section`: the first such assignment.
pub open spec fn line_of_key(u: UnitView, section: Seq<char>, key: Seq<char>) -> Option<nat> {
    match find_entry(u.entries, section, key, 0) {
        Some(i) => Some(u.entries[i].line),
        None => None,
    }
}

/// A trimmed line that declares nothing: blank, or a `#` or `;` comment.
pub open spec fn blank_or_comment(t: Seq<char>) -> bool {
    t.len() == 0 || t[0] == '#' || t[0] == ';'
}

/// The section a trimmed header line names: `[Name]` with a non-empty,
/// alphanumeric name.
pub open spec fn header_of(t: Seq<char>) -> Option<Seq<char>> {
    if t.len() >= 2 && t[0] == '[' && t.last() == ']' {
        let inner = t.subrange(1, t.len() - 1);
        if inner.len() > 0 && forall|i: int| 0 <= i < inner.len() ==> alphanumeric(#[trigger] inner[i]) {
            Some(inner)
        } else {
            None
        }
    } else {
        None
    }
}

/// The index of the first `=` at or after `i`, or the length.
pub open spec fn equals_at(t: Seq<char>, i: int) -> int
    decreases t.len() - i,
{
    if i < 0 || i >= t.len() {
        t.len() as int
    } else if t[i] == '=' {
        i
    } else {
        equals_at(t, i + 1)
    }
}

pub proof fn lemma_equals_at_bounds(t: Seq<char>, i: int)
    requires
        0 <= i <= t.len(),
    ensures
        i <= equals_at(t, i) <= t.len(),
        equals_at(t, i) < t.len() ==> t[equals_at(t, i)] == '=',
        forall|j: int| i <= j < equals_at(t, i) ==> t[j] != '=',
    decreases t.len() - i,
{
    if i < t.len() && t[i] != '=' {
        lemma_equals_at_bounds(t, i + 1);
    }
}

/// The key and value a trimmed line assigns: split at the first `=`, each
/// side trimmed, the key a non-empty run of ASCII letters and digits.
pub open spec fn assignment_of(t: Seq<char>) -> Option<(Seq<char>, Seq<char>)> {
    let p = equals_at(t, 0);
    if p >= t.len() {
        None
    } else {
        let key = trim(t.subrange(0, p));
        if key.len() == 0 || !(forall|i: int| 0 <= i < key.len() ==> ascii_alphanumeric(#[trigger] key[i])) {
            None
        } else {
            Some((key, trim(t.subrange(p + 1, t.len() as int))))
        }
    }
}

/// What reading one line does to a unit under construction: the unit and
/// the open section after it, or the refusal.
pub open spec fn read_line(
    name: Seq<char>,
    raw: Seq<char>,
    line: nat,
    unit: UnitView,
    current: Option<Seq<char>>,
) -> Result<(UnitView, Option<Seq<char>>), DefinitionFault> {
    if utf8_len(raw) > MAX_LINE_BYTES {
        Err(DefinitionFault::LineTooLong { name, line, bound: MAX_LINE_BYTES as nat })
    } else {
        let t = trim(raw);
        if blank_or_comment(t) {
            Ok((unit, current))
        } else {
            match header_of(t) {
                Some(h) => if unit.sections.contains(h) {
                    Err(DefinitionFault::DuplicateSection { name, line, section: h })
                } else if unit.sections.len() >= MAX_SECTIONS {
                    Err(DefinitionFault::TooMany { name, what: "sections"@, bound: MAX_SECTIONS as nat })
                } else {
                    Ok((UnitView { sections: unit.sections.push(h), ..unit }, Some(h)))
                },
                None => match assignment_of(t) {
                    None => Err(DefinitionFault::MalformedLine { name, line }),
                    Some((key, value)) => match current {
                        None => Err(DefinitionFault::KeyOutsideSection { name, line, key }),
                        Some(section) => if find_entry(unit.entries, section, key, 0) is Some {
                            Err(DefinitionFault::DuplicateKey { name, line, section, key })
                        } else if unit.entries.len() >= MAX_ENTRIES {
                            Err(
                                DefinitionFault::TooMany {
                                    name,
                                    what: "assignments"@,
                                    bound: MAX_ENTRIES as nat,
                                },
                            )
                        } else {
                            Ok(
                                (
                                    UnitView {
                                        entries: unit.entries.push(
                                            EntryView { section, key, value, line },
                                        ),
                                        ..unit
                                    },
                                    current,
                                ),
                            )
                        },
                    },
                },
            }
        }
    }
}

/// Reads lines `k..` of `ls`, numbering line `k` as `k + 1`.
pub open spec fn read_lines(
    name: Seq<char>,
    ls: Seq<Seq<char>>,
    k: int,
    unit: UnitView,
    current: Option<Seq<char>>,
) -> Result<UnitView, DefinitionFault>
    decreases ls.len() - k,
{
    if k < 0 || k >= ls.len() {
        Ok(unit)
    } else {
        match read_line(name, ls[k], (k + 1) as nat, unit, current) {
            Err(f) => Err(f),
            Ok((u, c)) => read_lines(name, ls, k + 1, u, c),
        }
    }
}

/// The empty unit named `name`.
pub open spec fn empty_unit(name: Seq<char>) -> UnitView {
    UnitView { name, sections: Seq::empty(), entries: Seq::empty() }
}

/// What [`UnitFile::parse`] reads `text` as: refused past [`MAX_LINES`]
/// lines, otherwise every line read in order from an empty unit.
pub open spec fn unit_parse(name: Seq<char>, text: Seq<char>) -> Result<UnitView, DefinitionFault> {
    if lines(text).len() > MAX_LINES {
        Err(
            DefinitionFault::TooManyLines {
                name,
                lines: (MAX_LINES + 1) as nat,
                bound: MAX_LINES as nat,
            },
        )
    } else {
        read_lines(name, lines(text), 0, empty_unit(name), None)
    }
}

/// The canonical text of the assignments in `entries` that belong to `section`.
pub open spec fn render_entries(entries: Seq<EntryView>, section: Seq<char>) -> Seq<char>
    decreases entries.len(),
{
    if entries.len() == 0 {
        Seq::empty()
    } else {
        let e = entries.last();
        render_entries(entries.drop_last(), section) + if e.section == section {
            e.key + "="@ + e.value + "\n"@
        } else {
            Seq::empty()
        }
    }
}

/// The canonical text of `sections`, each followed by its assignments.
pub open spec fn render_sections(sections: Seq<Seq<char>>, entries: Seq<EntryView>) -> Seq<char>
    decreases sections.len(),
{
    if sections.len() == 0 {
        Seq::empty()
    } else {
        let s = sections.last();
        render_sections(sections.drop_last(), entries) + "["@ + s + "]\n"@ + render_entries(
            entries,
            s,
        ) + "\n"@
    }
}

/// The first `n` elements of `s`, or all of them when it holds fewer.
pub open spec fn at_most<A>(s: Seq<A>, n: nat) -> Seq<A> {
    if s.len() <= n {
        s
    } else {
        s.take(n as int)
    }
}

/// The canonical text of a unit: comments dropped, one assignment per line.
pub open spec fn unit_render(u: UnitView) -> Seq<char> {
    render_sections(at_most(u.sections, MAX_SECTIONS as nat), at_most(u.entries, MAX_ENTRIES as nat))
}

/// The section headers hold no repeat, and the counts are inside their bounds.
pub open spec fn unit_well_formed(u: UnitView) -> bool {
    &&& u.sections.len() <= MAX_SECTIONS
    &&& u.entries.len() <= MAX_ENTRIES
}

/// Returns whether `chars[lo..hi]` takes more than `bound` bytes in UTF-8.
fn utf8_len_exceeds(chars: &Vec<char>, lo: usize, hi: usize, bound: usize) -> (r: bool)
    requires
        lo <= hi <= chars.len(),
        bound < usize::MAX - 4,
    ensures
        r == (utf8_len(chars@.subrange(lo as int, hi as int)) > bound),
{
    let mut bytes: usize = 0;
    let mut i = lo;
    while i < hi
        invariant
            lo <= i <= hi <= chars.len(),
            bytes == utf8_len(chars@.subrange(lo as int, i as int)),
            bytes <= bound,
            bound < usize::MAX - 4,
        decreases hi - i,
    {
        let width = utf8_width_of(chars[i]);
        proof {
            lemma_utf8_len_push(chars@.subrange(lo as int, i as int), chars@[i as int]);
            assert(chars@.subrange(lo as int, i + 1) =~= chars@.subrange(lo as int, i as int).push(
                chars@[i as int],
            ));
        }
        if bytes + width > bound {
            proof {
                lemma_utf8_len_prefix_le(chars@.subrange(lo as int, hi as int), i + 1 - lo);
                assert(chars@.subrange(lo as int, hi as int).subrange(0, i + 1 - lo)
                    =~= chars@.subrange(lo as int, i + 1));
            }
            return true;
        }
        bytes = bytes + width;
        i += 1;
    }
    false
}

proof fn lemma_utf8_len_prefix_le(s: Seq<char>, n: int)
    requires
        0 <= n <= s.len(),
    ensures
        utf8_len(s.subrange(0, n)) <= utf8_len(s),
    decreases s.len() - n,
{
    if n < s.len() {
        lemma_utf8_len_prefix_le(s, n + 1);
        lemma_utf8_len_push(s.subrange(0, n), s[n]);
        assert(s.subrange(0, n + 1) =~= s.subrange(0, n).push(s[n]));
    } else {
        assert(s.subrange(0, n) =~= s);
    }
}

/// Returns `true` when the trimmed line `chars[lo..hi]` carries no declaration.
fn is_blank_or_comment(chars: &Vec<char>, lo: usize, hi: usize) -> (r: bool)
    requires
        lo <= hi <= chars.len(),
    ensures
        r == blank_or_comment(chars@.subrange(lo as int, hi as int)),
{
    lo == hi || chars[lo] == '#' || chars[lo] == ';'
}

/// Returns the bounds of the section name the header line `chars[lo..hi]`
/// declares, without its brackets.
#[verifier::loop_isolation(false)]
fn section_header(chars: &Vec<char>, lo: usize, hi: usize) -> (r: Option<(usize, usize)>)
    requires
        lo <= hi <= chars.len(),
    ensures
        match r {
            Some((a, b)) => lo <= a <= b <= hi && header_of(chars@.subrange(lo as int, hi as int))
                == Some(chars@.subrange(a as int, b as int)),
            None => header_of(chars@.subrange(lo as int, hi as int)) is None,
        },
{
    let ghost t = chars@.subrange(lo as int, hi as int);
    if hi - lo < 2 || chars[lo] != '[' || chars[hi - 1] != ']' {
        return None;
    }
    let a = lo + 1;
    let b = hi - 1;
    assert(t[0] == chars@[lo as int] && t.last() == chars@[hi - 1]);
    assert(t.subrange(1, t.len() - 1) =~= chars@.subrange(a as int, b as int));
    if a == b {
        return None;
    }
    let mut i = a;
    while i < b
        invariant
            a <= i <= b <= chars.len(),
            forall|j: int| a <= j < i ==> alphanumeric(#[trigger] chars@[j]),
        decreases b - i,
    {
        if !chars[i].is_alphanumeric() {
            proof {
                let inner = chars@.subrange(a as int, b as int);
                assert(inner[i - a] == chars@[i as int]);
            }
            return None;
        }
        i += 1;
    }
    proof {
        let inner = chars@.subrange(a as int, b as int);
        assert forall|j: int| 0 <= j < inner.len() implies alphanumeric(#[trigger] inner[j]) by {
            assert(inner[j] == chars@[a + j]);
        }
    }
    Some((a, b))
}

/// Splits the trimmed `Key=Value` line `chars[lo..hi]`, returning the
/// bounds of the trimmed key and the trimmed value.
#[verifier::loop_isolation(false)]
fn split_assignment(chars: &Vec<char>, lo: usize, hi: usize) -> (r: Option<((usize, usize), (usize, usize))>)
    requires
        lo <= hi <= chars.len(),
    ensures
        match r {
            Some(((ka, kb), (va, vb))) => ka <= kb <= chars.len() && va <= vb <= chars.len()
                && assignment_of(chars@.subrange(lo as int, hi as int)) == Some(
                (chars@.subrange(ka as int, kb as int), chars@.subrange(va as int, vb as int)),
            ),
            None => assignment_of(chars@.subrange(lo as int, hi as int)) is None,
        },
{
    let ghost t = chars@.subrange(lo as int, hi as int);
    let mut p = lo;
    while p < hi && chars[p] != '='
        invariant
            lo <= p <= hi <= chars.len(),
            t == chars@.subrange(lo as int, hi as int),
            equals_at(t, 0) == equals_at(t, p - lo),
        decreases hi - p,
    {
        assert(t[p - lo] == chars@[p as int]);
        p += 1;
    }
    proof {
        if p < hi {
            assert(t[p - lo] == chars@[p as int]);
        }
    }
    if p == hi {
        return None;
    }
    let (ka, kb) = trim_bounds(chars, lo, p);
    assert(t.subrange(0, p - lo) =~= chars@.subrange(lo as int, p as int));
    assert(t.subrange(p - lo + 1, t.len() as int) =~= chars@.subrange(p + 1, hi as int));
    if ka == kb {
        return None;
    }
    let mut i = ka;
    while i < kb
        invariant
            ka <= i <= kb <= chars.len(),
            forall|j: int| ka <= j < i ==> ascii_alphanumeric(#[trigger] chars@[j]),
        decreases kb - i,
    {
        if !is_ascii_alphanumeric(chars[i]) {
            proof {
                let key = chars@.subrange(ka as int, kb as int);
                assert(key[i - ka] == chars@[i as int]);
            }
            return None;
        }
        i += 1;
    }
    proof {
        let key = chars@.subrange(ka as int, kb as int);
        assert forall|j: int| 0 <= j < key.len() implies ascii_alphanumeric(#[trigger] key[j]) by {
            assert(key[j] == chars@[ka + j]);
        }
    }
    let (va, vb) = trim_bounds(chars, p + 1, hi);
    Some(((ka, kb), (va, vb)))
}

impl UnitFile {
    /// Parses `text` as the drop-in named `name`.
    ///
    /// Refuses a bound that is passed, a line that is neither a comment nor
    /// a header nor an assignment, an assignment before every header, and a
    /// section or key that repeats.
    pub fn parse(name: &str, text: &str) -> (r: Result<Self, DefinitionError>)
        ensures
            match r {
                Ok(unit) => unit_parse(name@, text@) == Ok::<UnitView, DefinitionFault>(unit@)
                    && unit_well_formed(unit@),
                Err(e) => unit_parse(name@, text@) == Err::<UnitView, DefinitionFault>(e@),
            },
    {
        let chars = chars_of(text);
        let mut unit = UnitFile { name: name.to_owned(), sections: Vec::new(), entries: Vec::new() };
        proof {
            assert(unit@.sections =~= Seq::<Seq<char>>::empty());
            assert(unit@.entries =~= Seq::<EntryView>::empty());
        }
        match unit.count_lines(&chars) {
            Ok(()) => {},
            Err(e) => return Err(e),
        }
        let ghost ls = lines(text@);
        let mut current: Option<String> = None;
        let mut i: usize = 0;
        let mut line: usize = 1;
        while i < chars.len()
            invariant
                chars@ == text@,
                ls == lines(text@),
                ls.len() <= MAX_LINES,
                1 <= line <= ls.len() + 1,
                i <= chars.len(),
                lines_from(text@, i as int) == ls.subrange(line - 1, ls.len() as int),
                unit@.name == name@,
                unit_well_formed(unit@),
                unit_parse(name@, text@) == read_lines(name@, ls, line - 1, unit@, opt_string_view(current)),
            decreases chars.len() + 1 - i,
        {
            let (end, brk) = next_line(&chars, i);
            proof {
                let here = lines_from(text@, i as int);
                if brk < chars.len() {
                    assert(here == seq![chars@.subrange(i as int, end as int)] + lines_from(text@, brk + 1));
                    assert(lines_from(text@, brk + 1) =~= here.subrange(1, here.len() as int));
                } else {
                    assert(here == seq![chars@.subrange(i as int, end as int)]);
                    assert(lines_from(text@, chars@.len() as int) =~= Seq::<Seq<char>>::empty());
                }
                assert(here[0] == chars@.subrange(i as int, end as int));
                assert(here.len() > 0);
                assert(ls[line - 1] == here[0]);
                assert(ls.subrange(line as int, ls.len() as int) =~= here.subrange(1, here.len() as int));
            }
            match unit.read_line(&chars, i, end, line, &mut current) {
                Ok(()) => {},
                Err(e) => return Err(e),
            }
            i = if brk < chars.len() {
                brk + 1
            } else {
                chars.len()
            };
            line = line + 1;
        }
        proof {
            assert(ls.subrange(line - 1, ls.len() as int).len() == 0);
        }
        Ok(unit)
    }

    /// Refuses a file with more lines than [`MAX_LINES`].
    fn count_lines(&self, chars: &Vec<char>) -> (r: Result<(), DefinitionError>)
        ensures
            match r {
                Ok(()) => lines(chars@).len() <= MAX_LINES,
                Err(e) => lines(chars@).len() > MAX_LINES && e@ == DefinitionFault::TooManyLines {
                    name: self.name@,
                    lines: (MAX_LINES + 1) as nat,
                    bound: MAX_LINES as nat,
                },
            },
    {
        let mut count: usize = 0;
        let mut i: usize = 0;
        while i < chars.len() && count <= MAX_LINES
            invariant
                i <= chars.len(),
                count <= MAX_LINES + 1,
                count + lines_from(chars@, i as int).len() == lines(chars@).len(),
            decreases chars.len() + 1 - i,
        {
            let (_end, brk) = next_line(chars, i);
            i = if brk < chars.len() {
                brk + 1
            } else {
                chars.len()
            };
            count += 1;
        }
        if count > MAX_LINES {
            return Err(
                DefinitionError::TooManyLines {
                    name: self.name.clone(),
                    lines: count,
                    bound: MAX_LINES,
                },
            );
        }
        Ok(())
    }

    /// Reads one line, `chars[lo..hi]`, numbered `line`.
    fn read_line(
        &mut self,
        chars: &Vec<char>,
        lo: usize,
        hi: usize,
        line: usize,
        current: &mut Option<String>,
    ) -> (r: Result<(), DefinitionError>)
        requires
            lo <= hi <= chars.len(),
            1 <= line <= MAX_LINES,
            unit_well_formed(old(self)@),
        ensures
            final(self)@.name == old(self)@.name,
            unit_well_formed(final(self)@),
            match r {
                Ok(()) => read_line(
                    old(self)@.name,
                    chars@.subrange(lo as int, hi as int),
                    line as nat,
                    old(self)@,
                    opt_string_view(*old(current)),
                ) == Ok::<(UnitView, Option<Seq<char>>), DefinitionFault>(
                    (final(self)@, opt_string_view(*final(current))),
                ),
                Err(e) => read_line(
                    old(self)@.name,
                    chars@.subrange(lo as int, hi as int),
                    line as nat,
                    old(self)@,
                    opt_string_view(*old(current)),
                ) == Err::<(UnitView, Option<Seq<char>>), DefinitionFault>(e@),
            },
    {
        if utf8_len_exceeds(chars, lo, hi, MAX_LINE_BYTES) {
            return Err(
                DefinitionError::LineTooLong {
                    name: self.name.clone(),
                    line,
                    bound: MAX_LINE_BYTES,
                },
            );
        }
        let (a, b) = trim_bounds(chars, lo, hi);
        if is_blank_or_comment(chars, a, b) {
            return Ok(());
        }
        if let Some((ha, hb)) = section_header(chars, a, b) {
            let header = string_of(chars, ha, hb);
            return match self.open_section(line, header) {
                Ok(()) => {
                    *current = Some(string_of(chars, ha, hb));
                    Ok(())
                },
                Err(e) => Err(e),
            };
        }
        match split_assignment(chars, a, b) {
            None => Err(DefinitionError::MalformedLine { name: self.name.clone(), line }),
            Some(((ka, kb), (va, vb))) => {
                let key = string_of(chars, ka, kb);
                let value = string_of(chars, va, vb);
                self.add_entry(line, key, value, current)
            },
        }
    }

    /// Records a section header, refusing a repeat or an overflow.
    #[verifier::loop_isolation(false)]
    fn open_section(&mut self, line: usize, header: String) -> (r: Result<(), DefinitionError>)
        requires
            unit_well_formed(old(self)@),
        ensures
            final(self)@.name == old(self)@.name,
            unit_well_formed(final(self)@),
            match r {
                Ok(()) => !old(self)@.sections.contains(header@) && old(self)@.sections.len()
                    < MAX_SECTIONS && final(self)@ == UnitView {
                    sections: old(self)@.sections.push(header@),
                    ..old(self)@
                },
                Err(e) => final(self)@ == old(self)@ && if old(self)@.sections.contains(header@) {
                    e@ == DefinitionFault::DuplicateSection {
                        name: old(self)@.name,
                        line: line as nat,
                        section: header@,
                    }
                } else {
                    old(self)@.sections.len() >= MAX_SECTIONS && e@ == DefinitionFault::TooMany {
                        name: old(self)@.name,
                        what: "sections"@,
                        bound: MAX_SECTIONS as nat,
                    }
                },
            },
    {
        let mut i: usize = 0;
        while i < self.sections.len()
            invariant
                i <= self.sections.len(),
                forall|j: int| 0 <= j < i ==> self.sections@[j]@ != header@,
            decreases self.sections.len() - i,
        {
            if self.sections[i] == header {
                proof {
                    assert(strings_view(self.sections@)[i as int] == header@);
                }
                return Err(
                    DefinitionError::DuplicateSection { name: self.name.clone(), line, section: header },
                );
            }
            i += 1;
        }
        proof {
            assert(!strings_view(self.sections@).contains(header@)) by {
                if strings_view(self.sections@).contains(header@) {
                    let j = choose|j: int| 0 <= j < strings_view(self.sections@).len() && strings_view(self.sections@)[j] == header@;
                    assert(self.sections@[j]@ == header@);
                }
            }
        }
        if self.sections.len() >= MAX_SECTIONS {
            return Err(
                DefinitionError::TooMany {
                    name: self.name.clone(),
                    what: "sections",
                    bound: MAX_SECTIONS,
                },
            );
        }
        let ghost before = self@;
        self.sections.push(header);
        proof {
            assert(self@.sections =~= before.sections.push(header@));
            assert(self@.entries =~= before.entries);
        }
        Ok(())
    }

    /// Records one assignment, refusing a stray key, a repeat or an overflow.
    #[verifier::loop_isolation(false)]
    fn add_entry(
        &mut self,
        line: usize,
        key: String,
        value: String,
        current: &mut Option<String>,
    ) -> (r: Result<(), DefinitionError>)
        requires
            unit_well_formed(old(self)@),
        ensures
            final(self)@.name == old(self)@.name,
            unit_well_formed(final(self)@),
            *final(current) == *old(current),
            match opt_string_view(*old(current)) {
                None => r matches Err(e) && e@ == DefinitionFault::KeyOutsideSection {
                    name: old(self)@.name,
                    line: line as nat,
                    key: key@,
                },
                Some(section) => match r {
                    Ok(()) => find_entry(old(self)@.entries, section, key@, 0) is None
                        && old(self)@.entries.len() < MAX_ENTRIES && final(self)@ == UnitView {
                        entries: old(self)@.entries.push(
                            EntryView { section, key: key@, value: value@, line: line as nat },
                        ),
                        ..old(self)@
                    },
                    Err(e) => if find_entry(old(self)@.entries, section, key@, 0) is Some {
                        e@ == DefinitionFault::DuplicateKey {
                            name: old(self)@.name,
                            line: line as nat,
                            section,
                            key: key@,
                        }
                    } else {
                        old(self)@.entries.len() >= MAX_ENTRIES && e@ == DefinitionFault::TooMany {
                            name: old(self)@.name,
                            what: "assignments"@,
                            bound: MAX_ENTRIES as nat,
                        }
                    },
                },
            },
            r is Err ==> final(self)@ == old(self)@,
    {
        let section = match current {
            Some(section) => section.clone(),
            None => {
                return Err(
                    DefinitionError::KeyOutsideSection { name: self.name.clone(), line, key },
                );
            },
        };
        if self.find(&section, &key).is_some() {
            return Err(
                DefinitionError::DuplicateKey { name: self.name.clone(), line, section, key },
            );
        }
        if self.entries.len() >= MAX_ENTRIES {
            return Err(
                DefinitionError::TooMany {
                    name: self.name.clone(),
                    what: "assignments",
                    bound: MAX_ENTRIES,
                },
            );
        }
        let ghost before = self@;
        let entry = Entry { section, key, value, line };
        self.entries.push(entry);
        proof {
            assert(self@.entries =~= before.entries.push(entry@));
            assert(self@.sections =~= before.sections);
        }
        Ok(())
    }

    /// The index of the first assignment to `key` in `section`.
    #[verifier::loop_isolation(false)]
    fn find(&self, section: &String, key: &String) -> (r: Option<usize>)
        ensures
            match r {
                Some(i) => find_entry(self@.entries, section@, key@, 0) == Some(i as int),
                None => find_entry(self@.entries, section@, key@, 0) is None,
            },
            r matches Some(i) ==> i < self.entries.len(),
    {
        let mut i: usize = 0;
        while i < self.entries.len()
            invariant
                i <= self.entries.len(),
                find_entry(self@.entries, section@, key@, 0) == find_entry(
                    self@.entries,
                    section@,
                    key@,
                    i as int,
                ),
                self@.entries.len() == self.entries@.len(),
            decreases self.entries.len() - i,
        {
            let entry = &self.entries[i];
            assert(self@.entries[i as int] == entry@);
            if entry.section == *section && entry.key == *key {
                return Some(i);
            }
            i += 1;
        }
        None
    }

    /// The file name this unit was parsed under.
    pub fn name(&self) -> (r: &str)
        ensures
            r@ == self@.name,
    {
        self.name.as_str()
    }

    /// The section headers, in the order the file declares them.
    pub fn sections(&self) -> (r: &[String])
        ensures
            strings_view(r@) == self@.sections,
    {
        self.sections.as_slice()
    }

    /// Every assignment, in file order.
    pub fn entries(&self) -> (r: &[Entry])
        ensures
            entries_view(r@) == self@.entries,
    {
        self.entries.as_slice()
    }

    /// The value assigned to `key` in `section`, if any.
    pub fn value(&self, section: &str, key: &str) -> (r: Option<&str>)
        ensures
            opt_str_view(r) == value_of(self@, section@, key@),
    {
        let section = section.to_owned();
        let key = key.to_owned();
        match self.find(&section, &key) {
            Some(i) => {
                assert(self@.entries[i as int] == self.entries@[i as int]@);
                Some(self.entries[i].value.as_str())
            },
            None => None,
        }
    }

    /// The line `key` was assigned on in `section`, if any.
    pub fn line_of(&self, section: &str, key: &str) -> (r: Option<usize>)
        ensures
            match r {
                Some(n) => line_of_key(self@, section@, key@) == Some(n as nat),
                None => line_of_key(self@, section@, key@) is None,
            },
    {
        let section = section.to_owned();
        let key = key.to_owned();
        match self.find(&section, &key) {
            Some(i) => {
                assert(self@.entries[i as int] == self.entries@[i as int]@);
                Some(self.entries[i].line)
            },
            None => None,
        }
    }

    /// Renders the assignments back as a canonical drop-in.
    ///
    /// Comments are not retained: the canonical form is what the file
    /// declares, which is what a round trip has to preserve.
    pub fn render(&self) -> (r: String)
        ensures
            r@ == unit_render(self@),
    {
        let mut out = String::new();
        let count = if self.sections.len() < MAX_SECTIONS {
            self.sections.len()
        } else {
            MAX_SECTIONS
        };
        let ghost ss = at_most(self@.sections, MAX_SECTIONS as nat);
        let ghost es = at_most(self@.entries, MAX_ENTRIES as nat);
        let mut i: usize = 0;
        while i < count
            invariant
                i <= count <= self.sections.len(),
                count <= MAX_SECTIONS,
                ss == at_most(self@.sections, MAX_SECTIONS as nat),
                ss.len() == count,
                es == at_most(self@.entries, MAX_ENTRIES as nat),
                out@ == render_sections(ss.take(i as int), es),
            decreases count - i,
        {
            let ghost before = out@;
            self.render_section(&mut out, &self.sections[i]);
            proof {
                assert(self@.sections[i as int] == self.sections@[i as int]@);
                assert(ss[i as int] == self.sections@[i as int]@);
                assert(ss.take(i + 1).drop_last() =~= ss.take(i as int));
                assert(ss.take(i + 1).last() == ss[i as int]);
                assert(out@ =~= render_sections(ss.take(i + 1), es));
            }
            i += 1;
        }
        assert(ss.take(count as int) =~= ss);
        out
    }

    /// Appends one section and the assignments that belong to it.
    fn render_section(&self, out: &mut String, section: &String)
        ensures
            final(out)@ == old(out)@ + "["@ + section@ + "]\n"@ + render_entries(
                at_most(self@.entries, MAX_ENTRIES as nat),
                section@,
            ) + "\n"@,
    {
        push_text(out, "[");
        push_text(out, section.as_str());
        push_text(out, "]\n");
        let ghost head = out@;
        let ghost es = at_most(self@.entries, MAX_ENTRIES as nat);
        let count = if self.entries.len() < MAX_ENTRIES {
            self.entries.len()
        } else {
            MAX_ENTRIES
        };
        let mut i: usize = 0;
        while i < count
            invariant
                i <= count <= self.entries.len(),
                count <= MAX_ENTRIES,
                es == at_most(self@.entries, MAX_ENTRIES as nat),
                es.len() == count,
                out@ == head + render_entries(es.take(i as int), section@),
            decreases count - i,
        {
            let entry = &self.entries[i];
            proof {
                assert(self@.entries[i as int] == entry@);
                assert(es[i as int] == entry@);
                assert(es.take(i + 1).drop_last() =~= es.take(i as int));
                assert(es.take(i + 1).last() == es[i as int]);
            }
            if entry.section == *section {
                push_text(out, entry.key.as_str());
                push_text(out, "=");
                push_text(out, entry.value.as_str());
                push_text(out, "\n");
            }
            proof {
                assert(out@ =~= head + render_entries(es.take(i + 1), section@));
            }
            i += 1;
        }
        assert(es.take(count as int) =~= es);
        push_text(out, "\n");
        assert(final(out)@ =~= old(out)@ + "["@ + section@ + "]\n"@ + render_entries(es, section@)
            + "\n"@);
    }
}

} // verus!
