//! Properties of parsing, proved from the definitions of the grammar and
//! of the document that a text stands for.

use crate::grammar::{
    bare_len, blank_len, comment_len, is_bare, lead_len, lemma_line_shortens, lemma_skip_skip,
    lines, newline_len, next_line, starts_comment, Line,
};
use crate::model::{document, finish, lemma_finish_line, run, start, step, State};
use vstd::prelude::*;

verus! {

/// Whether none of `lines` is a section header.
pub open spec fn no_header(lines: Seq<Line>) -> bool {
    forall|i: int| 0 <= i < lines.len() ==> !(#[trigger] lines[i] is Header)
}

/// Whether one of `lines` is a key line for `name`.
pub open spec fn names_key(lines: Seq<Line>, name: Seq<char>) -> bool {
    exists|i: int| 0 <= i < lines.len() && #[trigger] lines[i] is Key && lines[i]->Key_0 == name
}

/// Lines without a header leave the current section the current one, leave
/// every other section as it is, and put into the current section the keys
/// that they name and no others.
pub proof fn lemma_run_without_header(state: State, lines: Seq<Line>)
    requires
        no_header(lines),
        state.document.contains_key(state.current),
    ensures
        run(state, lines).current == state.current,
        run(state, lines).document.dom() == state.document.dom(),
        forall|name: Seq<char>|
            name != state.current && state.document.contains_key(name) ==> #[trigger] run(
                state,
                lines,
            ).document[name] == state.document[name],
        forall|key: Seq<char>|
            #[trigger] run(state, lines).document[state.current].contains_key(key) <==> (
            state.document[state.current].contains_key(key) || names_key(lines, key)),
    decreases lines.len(),
{
    if lines.len() > 0 {
        let next = step(state, lines[0]);
        let rest = lines.skip(1);
        lemma_run_without_header(next, rest);
        assert forall|key: Seq<char>|
            #[trigger] run(state, lines).document[state.current].contains_key(key) <==> (
            state.document[state.current].contains_key(key) || names_key(lines, key)) by {
            if names_key(rest, key) {
                let i = choose|i: int|
                    0 <= i < rest.len() && #[trigger] rest[i] is Key && rest[i]->Key_0 == key;
                assert(lines[i + 1] == rest[i]);
            }
            if names_key(lines, key) {
                let i = choose|i: int|
                    0 <= i < lines.len() && #[trigger] lines[i] is Key && lines[i]->Key_0 == key;
                if i > 0 {
                    assert(rest[i - 1] == lines[i]);
                }
            }
        }
    }
}

/// In a text without section headers, every key stands in the section
/// named `""`: the document has that section and no other, and the keys of
/// that section are the names of the text's key lines.
pub proof fn lemma_keys_without_header(text: Seq<char>)
    requires
        lines(text) matches Some(found) && no_header(found),
    ensures
        document(text) matches Some(doc) && doc.dom() == set![Seq::<char>::empty()]
            && forall|key: Seq<char>|
            doc[Seq::<char>::empty()].contains_key(key) <==> names_key(lines(text)->0, key),
{
    lemma_run_without_header(start(), lines(text)->0);
}

/// Where nothing is left to read, parsing ends with the document built so
/// far.
pub proof fn lemma_finish_at_end(state: State)
    ensures
        finish(state, Seq::<char>::empty()) == Some(state.document),
{
    assert(lines(Seq::<char>::empty()) == Some(Seq::<Line>::empty()));
}

/// The empty text stands for the document with one section, named `""`
/// and empty.
pub proof fn lemma_empty_text()
    ensures
        document(Seq::<char>::empty()) == Some(
            Map::<Seq<char>, Map<Seq<char>, Seq<char>>>::empty().insert(
                Seq::<char>::empty(),
                Map::<Seq<char>, Seq<char>>::empty(),
            ),
        ),
{
    lemma_finish_at_end(start());
}

/// Whether none of `lines` is a key line for `name`.
pub open spec fn no_key(lines: Seq<Line>, name: Seq<char>) -> bool {
    forall|i: int|
        0 <= i < lines.len() ==> !(#[trigger] lines[i] is Key && lines[i]->Key_0 == name)
}

/// Lines without a header and without a key line for `key` leave the value
/// of `key` in the current section as it is.
pub proof fn lemma_run_keeps_value(state: State, lines: Seq<Line>, key: Seq<char>)
    requires
        no_header(lines),
        no_key(lines, key),
        state.document.contains_key(state.current),
        state.document[state.current].contains_key(key),
    ensures
        run(state, lines).current == state.current,
        run(state, lines).document.contains_key(state.current),
        run(state, lines).document[state.current].contains_key(key),
        run(state, lines).document[state.current][key] == state.document[state.current][key],
    decreases lines.len(),
{
    if lines.len() > 0 {
        let rest = lines.skip(1);
        lemma_run_keeps_value(step(state, lines[0]), rest, key);
    }
}

/// Last write wins: where a key line is followed by no header and by no
/// other key line of the same name, the current section holds its value
/// under its name at the end, whatever lines stand before it.
pub proof fn lemma_last_write_wins(state: State, lines: Seq<Line>, i: int)
    requires
        0 <= i < lines.len(),
        lines[i] is Key,
        no_header(lines.skip(i + 1)),
        no_key(lines.skip(i + 1), lines[i]->Key_0),
    ensures
        run(state, lines).document.contains_key(run(state, lines).current),
        run(state, lines).document[run(state, lines).current].contains_key(lines[i]->Key_0),
        run(state, lines).document[run(state, lines).current][lines[i]->Key_0]
            == lines[i]->Key_1,
    decreases lines.len(),
{
    let rest = lines.skip(1);
    let next = step(state, lines[0]);
    if i == 0 {
        lemma_run_keeps_value(next, rest, lines[0]->Key_0);
    } else {
        assert(rest.skip(i) =~= lines.skip(i + 1));
        lemma_last_write_wins(next, rest, i - 1);
    }
}

/// Of two key lines with one name in one section, the later one wins:
/// where no header follows the first and no key line of that name follows
/// the second, the section holds the value of the second under that name.
pub proof fn lemma_second_write_wins(state: State, lines: Seq<Line>, i: int, j: int)
    requires
        0 <= i < j < lines.len(),
        lines[i] is Key,
        lines[j] is Key,
        lines[i]->Key_0 == lines[j]->Key_0,
        no_header(lines.skip(i + 1)),
        no_key(lines.skip(j + 1), lines[j]->Key_0),
    ensures
        run(state, lines).document.contains_key(run(state, lines).current),
        run(state, lines).document[run(state, lines).current].contains_key(lines[i]->Key_0),
        run(state, lines).document[run(state, lines).current][lines[i]->Key_0]
            == lines[j]->Key_1,
{
    let from_first = lines.skip(i + 1);
    let from_second = lines.skip(j + 1);
    assert(no_header(from_second)) by {
        assert forall|k: int| 0 <= k < from_second.len() implies !(
        #[trigger] from_second[k] is Header) by {
            assert(from_second[k] == from_first[k + j - i]);
        }
    }
    lemma_last_write_wins(state, lines, j);
}

/// Two parses that stand in the same section with the same keys still do
/// so after lines without a header.
pub proof fn lemma_run_same_section(a: State, b: State, lines: Seq<Line>)
    requires
        no_header(lines),
        a.current == b.current,
        a.document.contains_key(a.current),
        b.document.contains_key(b.current),
        a.document[a.current] == b.document[b.current],
    ensures
        run(a, lines).current == a.current,
        run(b, lines).current == a.current,
        run(a, lines).document.contains_key(a.current),
        run(b, lines).document.contains_key(a.current),
        run(a, lines).document[a.current] == run(b, lines).document[a.current],
    decreases lines.len(),
{
    if lines.len() > 0 {
        let rest = lines.skip(1);
        lemma_run_same_section(step(a, lines[0]), step(b, lines[0]), rest);
    }
}

/// Adding a section again discards the keys it had: after a header and
/// lines without a header, the section of that name holds the keys of
/// those lines and no others, and it holds what it would hold had the
/// document been any other before the header.
pub proof fn lemma_header_discards_keys(
    state: State,
    other: State,
    name: Seq<char>,
    lines: Seq<Line>,
)
    requires
        no_header(lines),
    ensures
        run(step(state, Line::Header(name)), lines).current == name,
        run(step(state, Line::Header(name)), lines).document.contains_key(name),
        forall|key: Seq<char>|
            #[trigger] run(step(state, Line::Header(name)), lines).document[name].contains_key(
                key,
            ) <==> names_key(lines, key),
        run(step(state, Line::Header(name)), lines).document[name] == run(
            step(other, Line::Header(name)),
            lines,
        ).document[name],
{
    let fresh = step(state, Line::Header(name));
    lemma_run_without_header(fresh, lines);
    lemma_run_same_section(fresh, step(other, Line::Header(name)), lines);
}

/// No line removes a section, and the current section is always one of
/// the document.
pub proof fn lemma_run_keeps_sections(state: State, lines: Seq<Line>)
    requires
        state.document.contains_key(state.current),
    ensures
        run(state, lines).document.contains_key(run(state, lines).current),
        forall|name: Seq<char>|
            state.document.contains_key(name) ==> #[trigger] run(
                state,
                lines,
            ).document.contains_key(name),
    decreases lines.len(),
{
    if lines.len() > 0 {
        lemma_run_keeps_sections(step(state, lines[0]), lines.skip(1));
    }
}

/// Every document that a text stands for has the section named `""`.
pub proof fn lemma_document_has_default(text: Seq<char>)
    ensures
        document(text) matches Some(doc) ==> doc.contains_key(Seq::<char>::empty()),
{
    if let Some(found) = lines(text) {
        lemma_run_keeps_sections(start(), found);
    }
}

/// No key line of a well-formed text has an empty name.
pub proof fn lemma_key_lines_named(text: Seq<char>)
    ensures
        lines(text) matches Some(found) ==> forall|i: int|
            0 <= i < found.len() && #[trigger] found[i] is Key ==> found[i]->Key_0.len() > 0,
    decreases text.len(),
{
    if let Ok(Some((line, rest))) = next_line(text) {
        lemma_line_shortens(text);
        lemma_key_lines_named(rest);
        if let Some(more) = lines(rest) {
            let found = seq![line] + more;
            assert forall|i: int| 0 < i < found.len() implies found[i] == more[i - 1] by {}
        }
    }
}

/// Whether no section of `doc` has a key with the empty name.
pub open spec fn keys_named(doc: Map<Seq<char>, Map<Seq<char>, Seq<char>>>) -> bool {
    forall|section: Seq<char>| #[trigger]
        doc.contains_key(section) ==> !doc[section].contains_key(Seq::<char>::empty())
}

/// Lines whose keys have names give no section a key without a name.
pub proof fn lemma_run_keys_named(state: State, lines: Seq<Line>)
    requires
        keys_named(state.document),
        state.document.contains_key(state.current),
        forall|i: int|
            0 <= i < lines.len() && #[trigger] lines[i] is Key ==> lines[i]->Key_0.len() > 0,
    ensures
        keys_named(run(state, lines).document),
    decreases lines.len(),
{
    if lines.len() > 0 {
        lemma_run_keys_named(step(state, lines[0]), lines.skip(1));
    }
}

/// No section of a document that a text stands for has a key with the
/// empty name.
pub proof fn lemma_document_keys_named(text: Seq<char>)
    ensures
        document(text) matches Some(doc) ==> keys_named(doc),
{
    if let Some(found) = lines(text) {
        lemma_key_lines_named(text);
        lemma_run_keys_named(start(), found);
    }
}

/// A comment ends at a line terminator or at the end of the input.
pub proof fn lemma_comment_stops(s: Seq<char>)
    ensures
        comment_len(s) <= s.len(),
        s.skip(comment_len(s) as int).len() == 0 || newline_len(s.skip(comment_len(s) as int))
            > 0,
    decreases s.len(),
{
    if s.len() > 0 && newline_len(s) == 0 {
        lemma_comment_stops(s.skip(1));
    }
}

/// What follows the first line of `text`, where that line holds nothing
/// but blanks and a comment.
pub open spec fn after_comment(text: Seq<char>) -> Seq<char> {
    let line = text.skip(lead_len(text) as int);
    line.skip(newline_len(line) as int)
}

/// A comment says nothing: a text that starts with a comment, after
/// blanks or at once, stands for what the text after the comment's line
/// stands for.
pub proof fn lemma_comment_line(state: State, text: Seq<char>)
    requires
        blank_len(text) < text.len(),
        starts_comment(text[blank_len(text) as int]),
    ensures
        finish(state, text) == finish(state, after_comment(text)),
{
    let line = text.skip(lead_len(text) as int);
    lemma_comment_stops(text.skip(blank_len(text) as int));
    lemma_finish_line(state, text);
    if line.len() > 0 {
        lemma_skip_skip(text, lead_len(text) as int, newline_len(line) as int);
    }
}

/// An unquoted string is made of the characters of its alphabet only.
pub proof fn lemma_bare_alphabet(s: Seq<char>)
    ensures
        bare_len(s) <= s.len(),
        forall|i: int| 0 <= i < bare_len(s) ==> is_bare(#[trigger] s[i]),
    decreases s.len(),
{
    if s.len() > 0 && is_bare(s[0]) {
        lemma_bare_alphabet(s.skip(1));
        assert forall|i: int| 0 <= i < bare_len(s) implies is_bare(#[trigger] s[i]) by {
            if i > 0 {
                assert(s[i] == s.skip(1)[i - 1]);
            }
        }
    }
}

} // verus!
