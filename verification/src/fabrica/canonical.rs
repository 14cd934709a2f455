//! The canonical form of a drop-in, and why a round trip keeps it.
//!
//! [`UnitFile::render`](crate::fabrica::unit::UnitFile::render) writes every
//! section header, then the section's assignments, then a blank line. Read
//! as a sequence of such pieces, a unit that the reader accepted obeys a few
//! local rules: every header is new and fits on a line, every assignment
//! sits under the header before it, has a plain key, a trimmed value and a
//! new key for its section. The reader keeps those rules line by line, and
//! reading back pieces that obey them gives back the same sections and the
//! same assignments, which is the round trip.

use vstd::prelude::*;
use crate::fabrica::error::DefinitionFault;
use crate::fabrica::unit::{
    EntryView, MAX_ENTRIES, MAX_LINE_BYTES, MAX_LINES, MAX_SECTIONS, UnitView, assignment_of, at_most,
    blank_or_comment, empty_unit, equals_at, find_entry, header_of, lemma_equals_at_bounds,
    lemma_find_entry_bounds, read_line, read_lines, render_entries, render_sections, unit_parse,
    unit_render, unit_well_formed, value_of,
};
use crate::text::{
    alphanumeric, ascii_alphanumeric, lemma_line_break_bounds, lemma_trim_of_trimmed,
    lemma_utf8_len_concat, lemma_utf8_len_push, line_break, line_end, lines, lines_from, trim,
    trim_end, trim_start, utf8_len, utf8_width, white_space,
};

verus! {

/// One line of the canonical text: a section header, an assignment under the
/// section it names, or the blank line that closes a section.
pub enum Piece {
    Header(Seq<char>),
    Assign(Seq<char>, Seq<char>, Seq<char>),
    Blank,
}

/// What an assignment declares: its section, key and value, without the line
/// it was read from.
pub open spec fn declared(es: Seq<EntryView>) -> Seq<(Seq<char>, Seq<char>, Seq<char>)> {
    es.map_values(|e: EntryView| (e.section, e.key, e.value))
}

/// The text of one piece, without its line feed.
pub open spec fn piece_text(p: Piece) -> Seq<char> {
    match p {
        Piece::Header(s) => seq!['['] + s + seq![']'],
        Piece::Assign(_, k, v) => k + seq!['='] + v,
        Piece::Blank => Seq::empty(),
    }
}

/// Lines joined into one text, each followed by a line feed.
pub open spec fn joined(ls: Seq<Seq<char>>) -> Seq<char>
    decreases ls.len(),
{
    if ls.len() == 0 {
        Seq::empty()
    } else {
        ls[0] + seq!['\n'] + joined(ls.drop_first())
    }
}

/// The assignments of `es` that belong to section `s`, in order, as pieces.
pub open spec fn entry_pieces(es: Seq<EntryView>, s: Seq<char>) -> Seq<Piece>
    decreases es.len(),
{
    if es.len() == 0 {
        Seq::empty()
    } else {
        let e = es.last();
        entry_pieces(es.drop_last(), s) + if e.section == s {
            seq![Piece::Assign(s, e.key, e.value)]
        } else {
            Seq::empty()
        }
    }
}

/// The pieces the canonical text of sections `ss` and assignments `es` is
/// made of: each header, its assignments, a blank line.
pub open spec fn section_pieces(ss: Seq<Seq<char>>, es: Seq<EntryView>) -> Seq<Piece>
    decreases ss.len(),
{
    if ss.len() == 0 {
        Seq::empty()
    } else {
        let s = ss.last();
        section_pieces(ss.drop_last(), es) + seq![Piece::Header(s)] + entry_pieces(es, s) + seq![
            Piece::Blank,
        ]
    }
}

/// The section names the headers among `ps` declare, in order.
pub open spec fn headers(ps: Seq<Piece>) -> Seq<Seq<char>>
    decreases ps.len(),
{
    if ps.len() == 0 {
        Seq::empty()
    } else {
        headers(ps.drop_last()) + match ps.last() {
            Piece::Header(s) => seq![s],
            _ => Seq::empty(),
        }
    }
}

/// The assignments among `ps`, in order.
pub open spec fn assigns(ps: Seq<Piece>) -> Seq<(Seq<char>, Seq<char>, Seq<char>)>
    decreases ps.len(),
{
    if ps.len() == 0 {
        Seq::empty()
    } else {
        assigns(ps.drop_last()) + match ps.last() {
            Piece::Assign(s, k, v) => seq![(s, k, v)],
            _ => Seq::empty(),
        }
    }
}

/// The section the last header among `ps` opened.
pub open spec fn open_at(ps: Seq<Piece>) -> Option<Seq<char>>
    decreases ps.len(),
{
    if ps.len() == 0 {
        None
    } else {
        match ps.last() {
            Piece::Header(s) => Some(s),
            _ => open_at(ps.drop_last()),
        }
    }
}

/// The last section of `ss`, the one a reader has open after reading them.
pub open spec fn last_open(ss: Seq<Seq<char>>) -> Option<Seq<char>> {
    if ss.len() == 0 {
        None
    } else {
        Some(ss.last())
    }
}

pub open spec fn no_line_feed(s: Seq<char>) -> bool {
    forall|i: int| 0 <= i < s.len() ==> s[i] != '\n'
}

/// Neither end of `s` is white space.
pub open spec fn trimmed(s: Seq<char>) -> bool {
    s.len() > 0 ==> !white_space(s[0]) && !white_space(s.last())
}

/// Whether piece `p` may follow the pieces `prefix`: a header names a new
/// section that fits on a line, an assignment sits under the open section,
/// with a plain key that section has not assigned yet and a trimmed value.
pub open spec fn fits_after(prefix: Seq<Piece>, p: Piece) -> bool {
    match p {
        Piece::Header(s) => {
            &&& s.len() > 0
            &&& forall|i: int| 0 <= i < s.len() ==> alphanumeric(#[trigger] s[i])
            &&& no_line_feed(s)
            &&& !headers(prefix).contains(s)
            &&& headers(prefix).len() < MAX_SECTIONS
            &&& utf8_len(s) + 2 <= MAX_LINE_BYTES
        },
        Piece::Assign(section, key, value) => {
            &&& open_at(prefix) == Some(section)
            &&& key.len() > 0
            &&& forall|i: int| 0 <= i < key.len() ==> ascii_alphanumeric(#[trigger] key[i])
            &&& trimmed(value)
            &&& no_line_feed(value)
            &&& forall|i: int|
                0 <= i < assigns(prefix).len() ==> !(#[trigger] assigns(prefix)[i].0 == section
                    && assigns(prefix)[i].1 == key)
            &&& assigns(prefix).len() < MAX_ENTRIES
            &&& utf8_len(key) + 1 + utf8_len(value) <= MAX_LINE_BYTES
        },
        Piece::Blank => true,
    }
}

/// Every piece of `ps` may follow the ones before it.
pub open spec fn pieces_fit(ps: Seq<Piece>) -> bool {
    forall|i: int| 0 <= i < ps.len() ==> fits_after(ps.take(i), #[trigger] ps[i])
}

/// A unit in canonical shape: its pieces fit, declare exactly its sections
/// and assignments, and each assignment sits under a declared section.
pub open spec fn unit_canonical(u: UnitView) -> bool {
    let ps = section_pieces(u.sections, u.entries);
    &&& unit_well_formed(u)
    &&& u.sections.no_duplicates()
    &&& forall|i: int| 0 <= i < u.entries.len() ==> u.sections.contains(#[trigger] u.entries[i].section)
    &&& pieces_fit(ps)
    &&& headers(ps) == u.sections
    &&& assigns(ps) == declared(u.entries)
    &&& open_at(ps) == last_open(u.sections)
    &&& ps.len() == 2 * u.sections.len() + u.entries.len()
}

// --- Lines --------------------------------------------------------------

proof fn lemma_joined_concat(a: Seq<Seq<char>>, b: Seq<Seq<char>>)
    ensures
        joined(a + b) == joined(a) + joined(b),
    decreases a.len(),
{
    if a.len() == 0 {
        assert(a + b =~= b);
    } else {
        assert((a + b).drop_first() =~= a.drop_first() + b);
        lemma_joined_concat(a.drop_first(), b);
        assert(joined(a + b) =~= joined(a) + joined(b));
    }
}

proof fn lemma_joined_one(l: Seq<char>)
    ensures
        joined(seq![l]) == l + seq!['\n'],
{
    assert(seq![l].drop_first() =~= Seq::<Seq<char>>::empty());
    assert(seq![l][0] == l);
    assert(joined(Seq::<Seq<char>>::empty()) == Seq::<char>::empty());
    assert(joined(seq![l]) =~= l + seq!['\n']);
}

proof fn lemma_line_break_at(s: Seq<char>, i: int, e: int)
    requires
        0 <= i <= e < s.len(),
        s[e] == '\n',
        forall|j: int| i <= j < e ==> s[j] != '\n',
    ensures
        line_break(s, i) == e,
    decreases e - i,
{
    if i < e {
        lemma_line_break_at(s, i + 1, e);
    }
}

proof fn lemma_line_break_shift(p: Seq<char>, q: Seq<char>, i: int)
    requires
        0 <= i,
    ensures
        line_break(p + q, p.len() + i) == p.len() + line_break(q, i),
    decreases q.len() - i,
{
    if i < q.len() {
        assert((p + q)[p.len() + i] == q[i]);
        if q[i] != '\n' {
            lemma_line_break_shift(p, q, i + 1);
        }
    }
}

proof fn lemma_lines_from_shift(p: Seq<char>, q: Seq<char>, i: int)
    requires
        0 <= i,
    ensures
        lines_from(p + q, p.len() + i) == lines_from(q, i),
    decreases q.len() - i,
{
    let s = p + q;
    if i < q.len() {
        lemma_line_break_shift(p, q, i);
        lemma_line_break_bounds(q, i);
        let e = line_break(q, i);
        if e < q.len() && e > i {
            assert(s[p.len() + e - 1] == q[e - 1]);
        }
        assert(line_end(s, p.len() + i) == p.len() + line_end(q, i));
        assert(s.subrange(p.len() + i, line_end(s, p.len() + i)) =~= q.subrange(
            i,
            line_end(q, i),
        ));
        if e < q.len() {
            lemma_lines_from_shift(p, q, e + 1);
        }
    }
}

/// The lines of joined lines are those lines, when none holds a line feed
/// and none ends in a carriage return.
proof fn lemma_lines_of_joined(ls: Seq<Seq<char>>)
    requires
        forall|k: int| 0 <= k < ls.len() ==> no_line_feed(#[trigger] ls[k]),
        forall|k: int| 0 <= k < ls.len() && (#[trigger] ls[k]).len() > 0 ==> ls[k].last() != '\r',
    ensures
        lines(joined(ls)) == ls,
    decreases ls.len(),
{
    if ls.len() > 0 {
        let l = ls[0];
        let rest = ls.drop_first();
        let head = l + seq!['\n'];
        let s = joined(ls);
        assert(s == head + joined(rest));
        assert forall|k: int| 0 <= k < rest.len() implies no_line_feed(#[trigger] rest[k]) by {
            assert(rest[k] == ls[k + 1]);
        }
        assert forall|k: int| 0 <= k < rest.len() && (#[trigger] rest[k]).len() > 0 implies rest[k].last()
            != '\r' by {
            assert(rest[k] == ls[k + 1]);
        }
        lemma_lines_of_joined(rest);
        assert(s[l.len() as int] == '\n');
        assert forall|j: int| 0 <= j < l.len() implies s[j] != '\n' by {
            assert(s[j] == l[j]);
        }
        lemma_line_break_at(s, 0, l.len() as int);
        if l.len() > 0 {
            assert(s[l.len() - 1] == l.last());
        }
        assert(line_end(s, 0) == l.len());
        assert(s.subrange(0, l.len() as int) =~= l);
        lemma_lines_from_shift(head, joined(rest), 0);
        assert(lines_from(s, 0) == seq![l] + lines_from(s, l.len() + 1int));
        assert(lines(joined(ls)) =~= ls);
    }
}

/// No line of a text holds a line feed.
proof fn lemma_lines_from_no_line_feed(s: Seq<char>, i: int)
    ensures
        forall|k: int| 0 <= k < lines_from(s, i).len() ==> no_line_feed(#[trigger] lines_from(s, i)[k]),
    decreases s.len() - i,
{
    if 0 <= i < s.len() {
        lemma_line_break_bounds(s, i);
        let e = line_break(s, i);
        let line = s.subrange(i, line_end(s, i));
        assert(no_line_feed(line)) by {
            assert forall|j: int| 0 <= j < line.len() implies line[j] != '\n' by {
                assert(line[j] == s[i + j]);
            }
        }
        if e < s.len() {
            lemma_lines_from_no_line_feed(s, e + 1);
            assert forall|k: int| 0 <= k < lines_from(s, i).len() implies no_line_feed(
                #[trigger] lines_from(s, i)[k],
            ) by {
                if k > 0 {
                    assert(lines_from(s, i)[k] == lines_from(s, e + 1)[k - 1]);
                }
            }
        }
    }
}

// --- Pieces -------------------------------------------------------------

proof fn lemma_pieces_concat(a: Seq<Piece>, b: Seq<Piece>)
    ensures
        headers(a + b) == headers(a) + headers(b),
        assigns(a + b) == assigns(a) + assigns(b),
        open_at(a + b) == if open_at(b) is Some {
            open_at(b)
        } else {
            open_at(a)
        },
    decreases b.len(),
{
    if b.len() == 0 {
        assert(a + b =~= a);
        assert(headers(a + b) =~= headers(a) + headers(b));
        assert(assigns(a + b) =~= assigns(a) + assigns(b));
    } else {
        assert((a + b).drop_last() =~= a + b.drop_last());
        assert((a + b).last() == b.last());
        lemma_pieces_concat(a, b.drop_last());
        assert(headers(a + b) =~= headers(a) + headers(b));
        assert(assigns(a + b) =~= assigns(a) + assigns(b));
    }
}

proof fn lemma_pieces_push(ps: Seq<Piece>, p: Piece)
    ensures
        headers(ps.push(p)) == headers(ps) + match p {
            Piece::Header(s) => seq![s],
            _ => Seq::empty(),
        },
        assigns(ps.push(p)) == assigns(ps) + match p {
            Piece::Assign(s, k, v) => seq![(s, k, v)],
            _ => Seq::empty(),
        },
        open_at(ps.push(p)) == match p {
            Piece::Header(s) => Some(s),
            _ => open_at(ps),
        },
{
    assert(ps.push(p).drop_last() =~= ps);
    assert(ps.push(p).last() == p);
}

proof fn lemma_pieces_fit_push(ps: Seq<Piece>, p: Piece)
    requires
        pieces_fit(ps),
        fits_after(ps, p),
    ensures
        pieces_fit(ps.push(p)),
{
    assert forall|i: int| 0 <= i < ps.push(p).len() implies fits_after(
        ps.push(p).take(i),
        #[trigger] ps.push(p)[i],
    ) by {
        if i < ps.len() {
            assert(ps.push(p).take(i) =~= ps.take(i));
            assert(fits_after(ps.take(i), ps[i]));
        } else {
            assert(ps.push(p).take(i) =~= ps);
        }
    }
}

proof fn lemma_pieces_fit_drop_last(ps: Seq<Piece>)
    requires
        pieces_fit(ps),
        ps.len() > 0,
    ensures
        pieces_fit(ps.drop_last()),
{
    assert forall|i: int| 0 <= i < ps.drop_last().len() implies fits_after(
        ps.drop_last().take(i),
        #[trigger] ps.drop_last()[i],
    ) by {
        assert(ps.drop_last().take(i) =~= ps.take(i));
        assert(fits_after(ps.take(i), ps[i]));
    }
}

/// A section no assignment belongs to has no assignment pieces.
proof fn lemma_entry_pieces_none(es: Seq<EntryView>, s: Seq<char>)
    requires
        forall|i: int| 0 <= i < es.len() ==> (#[trigger] es[i]).section != s,
    ensures
        entry_pieces(es, s) == Seq::<Piece>::empty(),
    decreases es.len(),
{
    if es.len() > 0 {
        assert(es.last() == es[es.len() - 1]);
        lemma_entry_pieces_none(es.drop_last(), s);
        assert(entry_pieces(es, s) =~= Seq::<Piece>::empty());
    }
}

/// An assignment to a section outside `ss` leaves their pieces unchanged.
proof fn lemma_section_pieces_other(ss: Seq<Seq<char>>, es: Seq<EntryView>, e: EntryView)
    requires
        !ss.contains(e.section),
    ensures
        section_pieces(ss, es.push(e)) == section_pieces(ss, es),
    decreases ss.len(),
{
    if ss.len() > 0 {
        assert(ss.last() == ss[ss.len() - 1]);
        assert(es.push(e).drop_last() =~= es);
        assert(es.push(e).last() == e);
        assert(entry_pieces(es.push(e), ss.last()) =~= entry_pieces(es, ss.last()));
        assert(!ss.drop_last().contains(e.section)) by {
            if ss.drop_last().contains(e.section) {
                let j = choose|j: int| 0 <= j < ss.drop_last().len() && ss.drop_last()[j] == e.section;
                assert(ss[j] == e.section);
            }
        }
        lemma_section_pieces_other(ss.drop_last(), es, e);
    }
}

/// The canonical text of a unit is its pieces joined.
proof fn lemma_render_entries_joined(es: Seq<EntryView>, s: Seq<char>)
    ensures
        render_entries(es, s) == joined(entry_pieces(es, s).map_values(|p: Piece| piece_text(p))),
    decreases es.len(),
{
    if es.len() > 0 {
        let e = es.last();
        let tail = if e.section == s {
            seq![Piece::Assign(s, e.key, e.value)]
        } else {
            Seq::empty()
        };
        lemma_render_entries_joined(es.drop_last(), s);
        let f = |p: Piece| piece_text(p);
        assert(entry_pieces(es, s).map_values(f) =~= entry_pieces(es.drop_last(), s).map_values(f)
            + tail.map_values(f));
        lemma_joined_concat(entry_pieces(es.drop_last(), s).map_values(f), tail.map_values(f));
        if e.section == s {
            reveal_strlit("=");
            reveal_strlit("\n");
            assert(tail.map_values(f) =~= seq![e.key + seq!['='] + e.value]);
            lemma_joined_one(e.key + seq!['='] + e.value);
            assert(e.key + "="@ + e.value + "\n"@ =~= e.key + seq!['='] + e.value + seq!['\n']);
        } else {
            assert(tail.map_values(f) =~= Seq::<Seq<char>>::empty());
            assert(joined(Seq::<Seq<char>>::empty()) == Seq::<char>::empty());
        }
        assert(render_entries(es, s) =~= joined(entry_pieces(es, s).map_values(f)));
    }
}

proof fn lemma_render_sections_joined(ss: Seq<Seq<char>>, es: Seq<EntryView>)
    ensures
        render_sections(ss, es) == joined(section_pieces(ss, es).map_values(|p: Piece| piece_text(p))),
    decreases ss.len(),
{
    if ss.len() > 0 {
        let s = ss.last();
        let f = |p: Piece| piece_text(p);
        let front = section_pieces(ss.drop_last(), es);
        let mid = entry_pieces(es, s);
        lemma_render_sections_joined(ss.drop_last(), es);
        lemma_render_entries_joined(es, s);
        assert(section_pieces(ss, es).map_values(f) =~= front.map_values(f) + seq![piece_text(Piece::Header(s))]
            + mid.map_values(f) + seq![Seq::<char>::empty()]);
        lemma_joined_concat(
            front.map_values(f) + seq![piece_text(Piece::Header(s))] + mid.map_values(f),
            seq![Seq::<char>::empty()],
        );
        lemma_joined_concat(
            front.map_values(f) + seq![piece_text(Piece::Header(s))],
            mid.map_values(f),
        );
        lemma_joined_concat(front.map_values(f), seq![piece_text(Piece::Header(s))]);
        lemma_joined_one(piece_text(Piece::Header(s)));
        lemma_joined_one(Seq::<char>::empty());
        reveal_strlit("[");
        reveal_strlit("]\n");
        reveal_strlit("\n");
        assert(render_sections(ss, es) =~= joined(section_pieces(ss, es).map_values(f)));
    }
}

// --- Characters ---------------------------------------------------------

proof fn lemma_utf8_len_one(c: char)
    ensures
        utf8_len(seq![c]) == utf8_width(c),
{
    lemma_utf8_len_push(Seq::<char>::empty(), c);
    assert(Seq::<char>::empty().push(c) =~= seq![c]);
}

/// An ASCII letter or digit is neither white space nor punctuation the
/// reader looks for.
proof fn lemma_ascii_alphanumeric_plain(c: char)
    requires
        ascii_alphanumeric(c),
    ensures
        !white_space(c),
        c != '#' && c != ';' && c != '[' && c != '=' && c != '\n' && c != '\r',
        utf8_width(c) == 1,
{
}

proof fn lemma_equals_at_value(t: Seq<char>, i: int, p: int)
    requires
        0 <= i <= p < t.len(),
        t[p] == '=',
        forall|j: int| i <= j < p ==> t[j] != '=',
    ensures
        equals_at(t, i) == p,
    decreases p - i,
{
    if i < p {
        lemma_equals_at_value(t, i + 1, p);
    }
}

/// `find_entry` finds nothing exactly when no declared assignment has the
/// section and key.
proof fn lemma_find_entry_declared(es: Seq<EntryView>, s: Seq<char>, k: Seq<char>)
    ensures
        find_entry(es, s, k, 0) is None <==> forall|i: int|
            0 <= i < declared(es).len() ==> !(#[trigger] declared(es)[i].0 == s && declared(
                es,
            )[i].1 == k),
{
    lemma_find_entry_bounds(es, s, k, 0);
    if let Some(j) = find_entry(es, s, k, 0) {
        assert(declared(es)[j].0 == s && declared(es)[j].1 == k);
    } else {
        assert forall|i: int| 0 <= i < declared(es).len() implies !(#[trigger] declared(es)[i].0
            == s && declared(es)[i].1 == k) by {
            assert(declared(es)[i] == (es[i].section, es[i].key, es[i].value));
        }
    }
}

// --- Reading the canonical text back ------------------------------------

/// The text of a piece that may follow its prefix is one line: no line feed,
/// no carriage return at its end.
proof fn lemma_piece_text_line(prefix: Seq<Piece>, p: Piece)
    requires
        fits_after(prefix, p),
    ensures
        no_line_feed(piece_text(p)),
        piece_text(p).len() > 0 ==> piece_text(p).last() != '\r',
{
    match p {
        Piece::Header(s) => {
            let t = piece_text(p);
            assert forall|i: int| 0 <= i < t.len() implies t[i] != '\n' by {
                if 0 < i < t.len() - 1 {
                    assert(t[i] == s[i - 1]);
                }
            }
        },
        Piece::Assign(_, k, v) => {
            let t = piece_text(p);
            assert forall|i: int| 0 <= i < t.len() implies t[i] != '\n' by {
                if i < k.len() {
                    assert(t[i] == k[i]);
                    lemma_ascii_alphanumeric_plain(k[i]);
                } else if i > k.len() {
                    assert(t[i] == v[i - k.len() - 1]);
                }
            }
            if v.len() > 0 {
                assert(t.last() == v.last());
            }
        },
        Piece::Blank => {},
    }
}

/// Reading one piece that may follow `prefix`, from the state that reading
/// `prefix` left, gives the state of `prefix` followed by the piece.
#[verifier::rlimit(40)]
proof fn lemma_read_piece(
    name: Seq<char>,
    prefix: Seq<Piece>,
    p: Piece,
    line: nat,
    u: UnitView,
    c: Option<Seq<char>>,
)
    requires
        fits_after(prefix, p),
        u.name == name,
        u.sections == headers(prefix),
        declared(u.entries) == assigns(prefix),
        c == open_at(prefix),
    ensures
        read_line(name, piece_text(p), line, u, c) matches Ok((u2, c2)) && u2.name == name
            && u2.sections == headers(prefix.push(p)) && declared(u2.entries) == assigns(
            prefix.push(p),
        ) && c2 == open_at(prefix.push(p)),
{
    let t = piece_text(p);
    assert(prefix.push(p).drop_last() =~= prefix);
    assert(prefix.push(p).last() == p);
    match p {
        Piece::Header(s) => {
            lemma_utf8_len_one('[');
            lemma_utf8_len_one(']');
            lemma_utf8_len_concat(seq!['['], s);
            lemma_utf8_len_concat(seq!['['] + s, seq![']']);
            assert(t[0] == '[');
            assert(t.last() == ']');
            lemma_trim_of_trimmed(t);
            assert(!blank_or_comment(t));
            assert(t.subrange(1, t.len() - 1) =~= s);
            assert(header_of(t) == Some(s));
            assert(headers(prefix.push(p)) =~= headers(prefix).push(s));
            assert(assigns(prefix.push(p)) =~= assigns(prefix));
        },
        Piece::Assign(section, k, v) => {
            lemma_utf8_len_one('=');
            lemma_utf8_len_concat(k, seq!['=']);
            lemma_utf8_len_concat(k + seq!['='], v);
            lemma_ascii_alphanumeric_plain(k[0]);
            lemma_ascii_alphanumeric_plain(k.last());
            assert(t[0] == k[0]);
            if v.len() > 0 {
                assert(t.last() == v.last());
            }
            lemma_trim_of_trimmed(t);
            assert(!blank_or_comment(t));
            assert(header_of(t) is None);
            assert forall|j: int| 0 <= j < k.len() implies t[j] != '=' by {
                assert(t[j] == k[j]);
                lemma_ascii_alphanumeric_plain(k[j]);
            }
            lemma_equals_at_value(t, 0, k.len() as int);
            assert(t.subrange(0, k.len() as int) =~= k);
            assert(k.last() == k[k.len() - 1]);
            lemma_trim_of_trimmed(k);
            assert(t.subrange(k.len() + 1int, t.len() as int) =~= v);
            lemma_trim_of_trimmed(v);
            assert(assignment_of(t) == Some((k, v)));
            lemma_find_entry_declared(u.entries, section, k);
            assert(u.entries.len() == declared(u.entries).len());
            let e = EntryView { section, key: k, value: v, line };
            assert(declared(u.entries.push(e)) =~= declared(u.entries).push((section, k, v)));
            assert(assigns(prefix.push(p)) =~= assigns(prefix).push((section, k, v)));
            assert(headers(prefix.push(p)) =~= headers(prefix));
        },
        Piece::Blank => {
            assert(utf8_len(t) == 0);
            lemma_trim_of_trimmed(t);
            assert(headers(prefix.push(p)) =~= headers(prefix));
            assert(assigns(prefix.push(p)) =~= assigns(prefix));
        },
    }
}

/// Reading fitting pieces from position `k` on, from the state their first
/// `k` left, reads them all.
proof fn lemma_read_pieces(
    name: Seq<char>,
    ps: Seq<Piece>,
    k: int,
    u: UnitView,
    c: Option<Seq<char>>,
)
    requires
        pieces_fit(ps),
        0 <= k <= ps.len(),
        u.name == name,
        u.sections == headers(ps.take(k)),
        declared(u.entries) == assigns(ps.take(k)),
        c == open_at(ps.take(k)),
    ensures
        read_lines(name, ps.map_values(|p: Piece| piece_text(p)), k, u, c) matches Ok(v)
            && v.name == name && v.sections == headers(ps) && declared(v.entries) == assigns(ps),
    decreases ps.len() - k,
{
    let ls = ps.map_values(|p: Piece| piece_text(p));
    if k == ps.len() {
        assert(ps.take(k) =~= ps);
    } else {
        assert(ls[k] == piece_text(ps[k]));
        assert(fits_after(ps.take(k), ps[k]));
        lemma_read_piece(name, ps.take(k), ps[k], (k + 1) as nat, u, c);
        assert(ps.take(k).push(ps[k]) =~= ps.take(k + 1));
        if let Ok((u2, c2)) = read_line(name, ls[k], (k + 1) as nat, u, c) {
            lemma_read_pieces(name, ps, k + 1, u2, c2);
        }
    }
}

/// A unit in canonical shape reads back from its canonical text with the
/// same sections and the same assignments.
proof fn lemma_canonical_reads_back(u: UnitView)
    requires
        unit_canonical(u),
    ensures
        unit_parse(u.name, unit_render(u)) matches Ok(v) && v.name == u.name && v.sections
            == u.sections && declared(v.entries) == declared(u.entries),
{
    let ps = section_pieces(u.sections, u.entries);
    let f = |p: Piece| piece_text(p);
    let ls = ps.map_values(f);
    assert(at_most(u.sections, MAX_SECTIONS as nat) == u.sections);
    assert(at_most(u.entries, MAX_ENTRIES as nat) == u.entries);
    lemma_render_sections_joined(u.sections, u.entries);
    assert forall|k: int| 0 <= k < ls.len() implies no_line_feed(#[trigger] ls[k]) by {
        assert(fits_after(ps.take(k), ps[k]));
        lemma_piece_text_line(ps.take(k), ps[k]);
    }
    assert forall|k: int| 0 <= k < ls.len() && (#[trigger] ls[k]).len() > 0 implies ls[k].last()
        != '\r' by {
        assert(fits_after(ps.take(k), ps[k]));
        lemma_piece_text_line(ps.take(k), ps[k]);
    }
    lemma_lines_of_joined(ls);
    assert(lines(unit_render(u)) == ls);
    assert(ps.take(0) =~= Seq::<Piece>::empty());
    assert(headers(Seq::<Piece>::empty()) == Seq::<Seq<char>>::empty());
    assert(assigns(Seq::<Piece>::empty()) == Seq::<(Seq<char>, Seq<char>, Seq<char>)>::empty());
    assert(declared(empty_unit(u.name).entries) =~= Seq::<(Seq<char>, Seq<char>, Seq<char>)>::empty());
    lemma_read_pieces(u.name, ps, 0, empty_unit(u.name), None);
}

// --- What the reader accepts is canonical --------------------------------

proof fn lemma_utf8_len_subrange(s: Seq<char>, a: int, b: int)
    requires
        0 <= a <= b <= s.len(),
    ensures
        utf8_len(s.subrange(a, b)) <= utf8_len(s),
{
    assert(s =~= s.subrange(0, a) + s.subrange(a, b) + s.subrange(b, s.len() as int));
    lemma_utf8_len_concat(s.subrange(0, a), s.subrange(a, b));
    lemma_utf8_len_concat(s.subrange(0, a) + s.subrange(a, b), s.subrange(b, s.len() as int));
}

proof fn lemma_trim_start_suffix(s: Seq<char>)
    ensures
        trim_start(s).len() <= s.len(),
        trim_start(s) == s.subrange(s.len() - trim_start(s).len(), s.len() as int),
        trim_start(s).len() > 0 ==> !white_space(trim_start(s)[0]),
    decreases s.len(),
{
    if s.len() > 0 && white_space(s[0]) {
        lemma_trim_start_suffix(s.drop_first());
        assert(s.drop_first().subrange(
            s.drop_first().len() - trim_start(s).len(),
            s.drop_first().len() as int,
        ) =~= s.subrange(s.len() - trim_start(s).len(), s.len() as int));
    } else {
        assert(s.subrange(0, s.len() as int) =~= s);
    }
}

proof fn lemma_trim_end_prefix(s: Seq<char>)
    ensures
        trim_end(s).len() <= s.len(),
        trim_end(s) == s.subrange(0, trim_end(s).len() as int),
        trim_end(s).len() > 0 ==> !white_space(trim_end(s).last()),
    decreases s.len(),
{
    if s.len() > 0 && white_space(s.last()) {
        lemma_trim_end_prefix(s.drop_last());
        assert(s.drop_last().subrange(0, trim_end(s).len() as int) =~= s.subrange(
            0,
            trim_end(s).len() as int,
        ));
    } else {
        assert(s.subrange(0, s.len() as int) =~= s);
    }
}

/// Trimming gives a trimmed part of the text.
proof fn lemma_trim_part(s: Seq<char>)
    ensures
        trimmed(trim(s)),
        utf8_len(trim(s)) <= utf8_len(s),
        no_line_feed(s) ==> no_line_feed(trim(s)),
{
    let x = trim_start(s);
    lemma_trim_start_suffix(s);
    lemma_trim_end_prefix(x);
    let a = s.len() - x.len();
    let n = trim(s).len();
    assert(trim(s) =~= s.subrange(a, a + n));
    if n > 0 {
        assert(trim(s)[0] == x[0]);
    }
    lemma_utf8_len_subrange(s, a, a + n);
    if no_line_feed(s) {
        assert forall|i: int| 0 <= i < trim(s).len() implies trim(s)[i] != '\n' by {
            assert(trim(s)[i] == s[a + i]);
        }
    }
}

/// Opening a new section keeps a unit canonical.
proof fn lemma_open_section_canonical(u: UnitView, h: Seq<char>)
    requires
        unit_canonical(u),
        !u.sections.contains(h),
        u.sections.len() < MAX_SECTIONS,
        h.len() > 0,
        forall|i: int| 0 <= i < h.len() ==> alphanumeric(#[trigger] h[i]),
        no_line_feed(h),
        utf8_len(h) + 2 <= MAX_LINE_BYTES,
    ensures
        unit_canonical(UnitView { sections: u.sections.push(h), ..u }),
{
    let ss = u.sections;
    let es = u.entries;
    let ss2 = ss.push(h);
    let ps = section_pieces(ss, es);
    assert(ss2.drop_last() =~= ss);
    assert(ss2.last() == h);
    assert forall|i: int| 0 <= i < es.len() implies (#[trigger] es[i]).section != h by {
        assert(ss.contains(es[i].section));
    }
    lemma_entry_pieces_none(es, h);
    let ps2 = section_pieces(ss2, es);
    assert(ps2 =~= ps.push(Piece::Header(h)).push(Piece::Blank));
    lemma_pieces_fit_push(ps, Piece::Header(h));
    lemma_pieces_fit_push(ps.push(Piece::Header(h)), Piece::Blank);
    let ph = ps.push(Piece::Header(h));
    lemma_pieces_push(ps, Piece::Header(h));
    lemma_pieces_push(ph, Piece::Blank);
    assert(headers(ps2) =~= ss2);
    assert(assigns(ps2) =~= assigns(ps));
    assert(open_at(ps2) == Some(h));
    assert(ss2.no_duplicates()) by {
        assert forall|i: int, j: int| 0 <= i < ss2.len() && 0 <= j < ss2.len() && i != j implies ss2[i]
            != ss2[j] by {
            if i < ss.len() && j < ss.len() {
                assert(ss[i] != ss[j]);
            } else if i < ss.len() {
                assert(ss.contains(ss[i]));
            } else {
                assert(ss.contains(ss[j]));
            }
        }
    }
    assert forall|i: int| 0 <= i < es.len() implies ss2.contains(#[trigger] es[i].section) by {
        let j = choose|j: int| 0 <= j < ss.len() && ss[j] == es[i].section;
        assert(ss2[j] == es[i].section);
    }
}

/// The pieces of a unit with a non-empty section list end in a blank line,
/// and an assignment to its last section goes right before that line.
proof fn lemma_section_pieces_append(ss: Seq<Seq<char>>, es: Seq<EntryView>, e: EntryView)
    requires
        ss.len() > 0,
        e.section == ss.last(),
        ss.no_duplicates(),
    ensures
        section_pieces(ss, es).len() > 0,
        section_pieces(ss, es).last() == Piece::Blank,
        section_pieces(ss, es.push(e)) == section_pieces(ss, es).drop_last().push(
            Piece::Assign(e.section, e.key, e.value),
        ).push(Piece::Blank),
{
    let sec = e.section;
    let es2 = es.push(e);
    let front = section_pieces(ss.drop_last(), es);
    let a = Piece::Assign(sec, e.key, e.value);
    assert(ss.last() == ss[ss.len() - 1]);
    assert(!ss.drop_last().contains(sec)) by {
        if ss.drop_last().contains(sec) {
            let j = choose|j: int| 0 <= j < ss.drop_last().len() && ss.drop_last()[j] == sec;
            assert(ss[j] == ss[ss.len() - 1]);
        }
    }
    lemma_section_pieces_other(ss.drop_last(), es, e);
    assert(es2.drop_last() =~= es);
    assert(es2.last() == e);
    assert(entry_pieces(es2, sec) =~= entry_pieces(es, sec).push(a));
    let body = front + seq![Piece::Header(sec)] + entry_pieces(es, sec);
    assert(section_pieces(ss, es) =~= body.push(Piece::Blank));
    assert(section_pieces(ss, es).drop_last() =~= body);
    assert(section_pieces(ss, es2) =~= body.push(a).push(Piece::Blank));
}

/// Adding an assignment under the last section, to a key that section has
/// not assigned, keeps a unit canonical.
proof fn lemma_add_entry_canonical(u: UnitView, e: EntryView)
    requires
        unit_canonical(u),
        u.sections.len() > 0,
        e.section == u.sections.last(),
        find_entry(u.entries, e.section, e.key, 0) is None,
        u.entries.len() < MAX_ENTRIES,
        e.key.len() > 0,
        forall|i: int| 0 <= i < e.key.len() ==> ascii_alphanumeric(#[trigger] e.key[i]),
        trimmed(e.value),
        no_line_feed(e.value),
        utf8_len(e.key) + 1 + utf8_len(e.value) <= MAX_LINE_BYTES,
    ensures
        unit_canonical(UnitView { entries: u.entries.push(e), ..u }),
{
    let ss = u.sections;
    let es = u.entries;
    let es2 = es.push(e);
    let sec = e.section;
    let ps = section_pieces(ss, es);
    let a = Piece::Assign(sec, e.key, e.value);
    lemma_section_pieces_append(ss, es, e);
    let body = ps.drop_last();
    assert(ps =~= body.push(Piece::Blank));
    lemma_pieces_push(body, Piece::Blank);
    lemma_pieces_push(body, a);
    lemma_pieces_push(body.push(a), Piece::Blank);
    assert(open_at(body) == open_at(ps));
    assert(assigns(body) =~= assigns(ps));
    assert(headers(body) =~= headers(ps));
    lemma_find_entry_declared(es, sec, e.key);
    assert(fits_after(body, a));
    lemma_pieces_fit_drop_last(ps);
    lemma_pieces_fit_push(body, a);
    lemma_pieces_fit_push(body.push(a), Piece::Blank);
    let ps2 = section_pieces(ss, es2);
    assert(headers(ps2) =~= ss);
    assert(declared(es2) =~= declared(es).push((sec, e.key, e.value)));
    assert(assigns(ps2) =~= declared(es2));
    assert(open_at(ps2) == Some(sec));
    assert(ss.last() == ss[ss.len() - 1]);
    assert forall|i: int| 0 <= i < es2.len() implies ss.contains(#[trigger] es2[i].section) by {
        if i < es.len() {
            assert(es2[i] == es[i]);
        }
    }
}

/// Reading one line keeps a unit canonical, with the last section open.
#[verifier::rlimit(40)]
proof fn lemma_read_line_canonical(
    name: Seq<char>,
    raw: Seq<char>,
    line: nat,
    u: UnitView,
    c: Option<Seq<char>>,
)
    requires
        unit_canonical(u),
        c == last_open(u.sections),
        u.name == name,
        no_line_feed(raw),
    ensures
        read_line(name, raw, line, u, c) matches Ok((u2, c2)) ==> unit_canonical(u2) && c2
            == last_open(u2.sections) && u2.name == name,
{
    if utf8_len(raw) <= MAX_LINE_BYTES {
        let t = trim(raw);
        lemma_trim_part(raw);
        if !blank_or_comment(t) {
            if let Some(h) = header_of(t) {
                if !u.sections.contains(h) && u.sections.len() < MAX_SECTIONS {
                    assert(t =~= seq!['['] + h + seq![']']);
                    lemma_utf8_len_one('[');
                    lemma_utf8_len_one(']');
                    lemma_utf8_len_concat(seq!['['], h);
                    lemma_utf8_len_concat(seq!['['] + h, seq![']']);
                    assert forall|i: int| 0 <= i < h.len() implies h[i] != '\n' by {
                        assert(h[i] == t[i + 1]);
                    }
                    lemma_open_section_canonical(u, h);
                    assert(u.sections.push(h).last() == h);
                }
            } else if let Some((key, value)) = assignment_of(t) {
                if let Some(section) = c {
                    if find_entry(u.entries, section, key, 0) is None && u.entries.len()
                        < MAX_ENTRIES {
                        let p = equals_at(t, 0);
                        lemma_equals_at_bounds(t, 0);
                        let kraw = t.subrange(0, p);
                        let vraw = t.subrange(p + 1, t.len() as int);
                        assert(t =~= kraw + seq!['='] + vraw);
                        lemma_utf8_len_one('=');
                        lemma_utf8_len_concat(kraw, seq!['=']);
                        lemma_utf8_len_concat(kraw + seq!['='], vraw);
                        lemma_trim_part(kraw);
                        lemma_trim_part(vraw);
                        assert forall|i: int| 0 <= i < vraw.len() implies vraw[i] != '\n' by {
                            assert(vraw[i] == t[p + 1 + i]);
                        }
                        let e = EntryView { section, key, value, line };
                        lemma_add_entry_canonical(u, e);
                    }
                }
            }
        }
    }
}

proof fn lemma_read_lines_canonical(
    name: Seq<char>,
    ls: Seq<Seq<char>>,
    k: int,
    u: UnitView,
    c: Option<Seq<char>>,
)
    requires
        0 <= k,
        unit_canonical(u),
        c == last_open(u.sections),
        u.name == name,
        forall|j: int| 0 <= j < ls.len() ==> no_line_feed(#[trigger] ls[j]),
    ensures
        read_lines(name, ls, k, u, c) matches Ok(v) ==> unit_canonical(v) && v.name == name,
    decreases ls.len() - k,
{
    if k < ls.len() {
        lemma_read_line_canonical(name, ls[k], (k + 1) as nat, u, c);
        if let Ok((u2, c2)) = read_line(name, ls[k], (k + 1) as nat, u, c) {
            lemma_read_lines_canonical(name, ls, k + 1, u2, c2);
        }
    }
}

/// Whatever the reader accepts is in canonical shape.
proof fn lemma_parsed_canonical(name: Seq<char>, text: Seq<char>)
    ensures
        unit_parse(name, text) matches Ok(u) ==> unit_canonical(u) && u.name == name,
{
    let u0 = empty_unit(name);
    let ps0 = section_pieces(u0.sections, u0.entries);
    assert(ps0 =~= Seq::<Piece>::empty());
    assert(headers(ps0) =~= u0.sections);
    assert(assigns(ps0) =~= declared(u0.entries));
    assert(u0.sections.no_duplicates());
    lemma_lines_from_no_line_feed(text, 0);
    lemma_read_lines_canonical(name, lines(text), 0, u0, None);
}

/// The canonical text of entries depends only on what they declare.
proof fn lemma_render_entries_declared(a: Seq<EntryView>, b: Seq<EntryView>, s: Seq<char>)
    requires
        declared(a) == declared(b),
    ensures
        render_entries(a, s) == render_entries(b, s),
    decreases a.len(),
{
    assert(declared(a).len() == a.len() && declared(b).len() == b.len());
    if a.len() > 0 {
        assert(declared(a.drop_last()) =~= declared(a).drop_last());
        assert(declared(b.drop_last()) =~= declared(b).drop_last());
        assert(declared(a)[a.len() - 1] == declared(b)[b.len() - 1]);
        assert(a.last() == a[a.len() - 1] && b.last() == b[b.len() - 1]);
        lemma_render_entries_declared(a.drop_last(), b.drop_last(), s);
    }
}

proof fn lemma_render_sections_declared(ss: Seq<Seq<char>>, a: Seq<EntryView>, b: Seq<EntryView>)
    requires
        declared(a) == declared(b),
    ensures
        render_sections(ss, a) == render_sections(ss, b),
    decreases ss.len(),
{
    if ss.len() > 0 {
        lemma_render_sections_declared(ss.drop_last(), a, b);
        lemma_render_entries_declared(a, b, ss.last());
    }
}

/// What a round trip keeps. Rendering a drop-in the reader accepted and
/// reading the rendering back, under the same name, succeeds and gives the
/// same sections in the same order and the same assignments (section, key
/// and value) in the same order; only the line each assignment is recorded
/// on may change, since comments and blank lines are not rendered.
/// Rendering the result again gives the same text, so from the second pass
/// on the round trip gives back exactly the unit it started from.
pub proof fn unit_round_trip(name: Seq<char>, text: Seq<char>)
    ensures
        unit_parse(name, text) matches Ok(u) ==> {
            &&& unit_parse(name, unit_render(u)) matches Ok(v)
            &&& v.name == name
            &&& v.sections == u.sections
            &&& declared(v.entries) == declared(u.entries)
            &&& unit_render(v) == unit_render(u)
            &&& unit_parse(name, unit_render(v)) == Ok::<UnitView, DefinitionFault>(v)
        },
{
    lemma_parsed_canonical(name, text);
    if let Ok(u) = unit_parse(name, text) {
        lemma_canonical_reads_back(u);
        if let Ok(v) = unit_parse(name, unit_render(u)) {
            assert(declared(v.entries).len() == v.entries.len());
            assert(declared(u.entries).len() == u.entries.len());
            assert(at_most(v.sections, MAX_SECTIONS as nat) == v.sections);
            assert(at_most(v.entries, MAX_ENTRIES as nat) == v.entries);
            assert(at_most(u.entries, MAX_ENTRIES as nat) == u.entries);
            lemma_render_sections_declared(u.sections, v.entries, u.entries);
        }
    }
}

/// Lookups read only what assignments declare, not the lines they sit on.
pub proof fn lemma_value_of_declared(u: UnitView, v: UnitView, s: Seq<char>, k: Seq<char>)
    requires
        declared(u.entries) == declared(v.entries),
    ensures
        value_of(u, s, k) == value_of(v, s, k),
{
    lemma_find_entry_same(u.entries, v.entries, s, k, 0);
    lemma_find_entry_bounds(u.entries, s, k, 0);
    assert(declared(u.entries).len() == u.entries.len());
    assert(declared(v.entries).len() == v.entries.len());
    if let Some(i) = find_entry(u.entries, s, k, 0) {
        assert(declared(u.entries)[i] == (u.entries[i].section, u.entries[i].key, u.entries[i].value));
        assert(declared(v.entries)[i] == (v.entries[i].section, v.entries[i].key, v.entries[i].value));
        assert(declared(u.entries)[i] == declared(v.entries)[i]);
    }
}

proof fn lemma_find_entry_same(a: Seq<EntryView>, b: Seq<EntryView>, s: Seq<char>, k: Seq<char>, i: int)
    requires
        declared(a) == declared(b),
        0 <= i,
    ensures
        find_entry(a, s, k, i) == find_entry(b, s, k, i),
    decreases a.len() - i,
{
    assert(declared(a).len() == a.len() && declared(b).len() == b.len());
    if i < a.len() {
        assert(declared(a)[i] == declared(b)[i]);
        lemma_find_entry_same(a, b, s, k, i + 1);
    }
}

/// What the assignments of a unit read up to line `k` look like: plain
/// keys, trimmed values, each (section, key) pair once, and lines in
/// strictly increasing order, none past `k`.
pub open spec fn entries_shaped(es: Seq<EntryView>, k: int) -> bool {
    &&& forall|i: int|
        0 <= i < es.len() ==> {
            &&& (#[trigger] es[i]).key.len() > 0
            &&& forall|c: int| 0 <= c < es[i].key.len() ==> ascii_alphanumeric(#[trigger] es[i].key[c])
            &&& trimmed(es[i].value)
            &&& 1 <= es[i].line <= k
        }
    &&& forall|i: int, j: int|
        0 <= i < j < es.len() ==> !(#[trigger] es[i].section == #[trigger] es[j].section && es[i].key
            == es[j].key) && es[i].line < es[j].line
}

/// Reading line `k + 1` keeps the assignments shaped, up to that line.
proof fn lemma_read_line_shaped(
    name: Seq<char>,
    raw: Seq<char>,
    k: int,
    u: UnitView,
    c: Option<Seq<char>>,
)
    requires
        0 <= k,
        entries_shaped(u.entries, k),
    ensures
        read_line(name, raw, (k + 1) as nat, u, c) matches Ok((u2, c2)) ==> entries_shaped(
            u2.entries,
            k + 1,
        ),
{
    if utf8_len(raw) <= MAX_LINE_BYTES {
        let t = trim(raw);
        if !blank_or_comment(t) && header_of(t) is None {
            if let Some((key, value)) = assignment_of(t) {
                if let Some(section) = c {
                    if find_entry(u.entries, section, key, 0) is None && u.entries.len()
                        < MAX_ENTRIES {
                        let p = equals_at(t, 0);
                        lemma_equals_at_bounds(t, 0);
                        lemma_trim_part(t.subrange(p + 1, t.len() as int));
                        lemma_find_entry_declared(u.entries, section, key);
                        let e = EntryView { section, key, value, line: (k + 1) as nat };
                        let es2 = u.entries.push(e);
                        assert forall|i: int, j: int|
                            0 <= i < j < es2.len() implies !(#[trigger] es2[i].section
                            == #[trigger] es2[j].section && es2[i].key == es2[j].key)
                            && es2[i].line < es2[j].line by {
                            assert(es2[i] == u.entries[i]);
                            if j == u.entries.len() {
                                assert(declared(u.entries)[i] == (
                                    u.entries[i].section,
                                    u.entries[i].key,
                                    u.entries[i].value,
                                ));
                                assert(es2[j] == e);
                                assert(declared(u.entries).len() == u.entries.len());
                                assert(!(declared(u.entries)[i].0 == section && declared(
                                    u.entries,
                                )[i].1 == key));
                                assert(1 <= u.entries[i].line <= k);
                            } else {
                                assert(es2[j] == u.entries[j]);
                                assert(!(u.entries[i].section == u.entries[j].section
                                    && u.entries[i].key == u.entries[j].key) && u.entries[i].line
                                    < u.entries[j].line);
                            }
                        }
                    }
                }
            }
        }
    }
}

proof fn lemma_read_lines_shaped(
    name: Seq<char>,
    ls: Seq<Seq<char>>,
    k: int,
    u: UnitView,
    c: Option<Seq<char>>,
)
    requires
        0 <= k <= ls.len(),
        entries_shaped(u.entries, k),
    ensures
        read_lines(name, ls, k, u, c) matches Ok(v) ==> entries_shaped(v.entries, ls.len() as int),
    decreases ls.len() - k,
{
    if k < ls.len() {
        lemma_read_line_shaped(name, ls[k], k, u, c);
        if let Ok((u2, c2)) = read_line(name, ls[k], (k + 1) as nat, u, c) {
            lemma_read_lines_shaped(name, ls, k + 1, u2, c2);
        }
    }
}

/// What the reader accepts. A unit read from `text` carries the name it was
/// read under; at most [`MAX_SECTIONS`] sections, none twice; at most
/// [`MAX_ENTRIES`] assignments, each under one of those sections, each
/// (section, key) pair once, with a non-empty key of ASCII letters and
/// digits and a value with no white space at either end; and the lines the
/// assignments were read from are strictly increasing and inside the text.
pub proof fn parsed_unit_shape(name: Seq<char>, text: Seq<char>)
    ensures
        unit_parse(name, text) matches Ok(u) ==> {
            &&& u.name == name
            &&& u.sections.no_duplicates()
            &&& u.sections.len() <= MAX_SECTIONS
            &&& u.entries.len() <= MAX_ENTRIES
            &&& forall|i: int|
                0 <= i < u.entries.len() ==> u.sections.contains(#[trigger] u.entries[i].section)
            &&& entries_shaped(u.entries, lines(text).len() as int)
        },
{
    lemma_parsed_canonical(name, text);
    lemma_read_lines_shaped(name, lines(text), 0, empty_unit(name), None);
}

/// Reading lines never refuses a file for its line count.
proof fn lemma_read_lines_not_too_many(
    name: Seq<char>,
    ls: Seq<Seq<char>>,
    k: int,
    u: UnitView,
    c: Option<Seq<char>>,
)
    ensures
        !(read_lines(name, ls, k, u, c) matches Err(DefinitionFault::TooManyLines { .. })),
    decreases ls.len() - k,
{
    if 0 <= k < ls.len() {
        if let Ok((u2, c2)) = read_line(name, ls[k], (k + 1) as nat, u, c) {
            lemma_read_lines_not_too_many(name, ls, k + 1, u2, c2);
        }
    }
}

/// A file is refused for its line count exactly when it holds more than
/// [`MAX_LINES`] lines, and the refusal reports the first line past the
/// bound; a file within the bound is read line by line.
pub proof fn line_count_refusal(name: Seq<char>, text: Seq<char>)
    ensures
        (unit_parse(name, text) matches Err(DefinitionFault::TooManyLines { .. })) <==> lines(
            text,
        ).len() > MAX_LINES,
        lines(text).len() > MAX_LINES ==> unit_parse(name, text) == Err::<UnitView, DefinitionFault>(
            DefinitionFault::TooManyLines {
                name,
                lines: (MAX_LINES + 1) as nat,
                bound: MAX_LINES as nat,
            },
        ),
{
    lemma_read_lines_not_too_many(name, lines(text), 0, empty_unit(name), None);
}

} // verus!
