//! What a text means: the document that its lines build, one after the
//! other.

use crate::grammar::{lines, next_line, Line};
use vstd::prelude::*;

verus! {

/// A parse under way: the document built so far and the name of the
/// section that the next key goes to.
pub struct State {
    pub document: Map<Seq<char>, Map<Seq<char>, Seq<char>>>,
    pub current: Seq<char>,
}

/// The state before the first line: one section, named `""` and empty,
/// which is also the current one.
pub open spec fn start() -> State {
    State {
        document: Map::<Seq<char>, Map<Seq<char>, Seq<char>>>::empty().insert(
            Seq::<char>::empty(),
            Map::<Seq<char>, Seq<char>>::empty(),
        ),
        current: Seq::<char>::empty(),
    }
}

/// The state after one more line.
///
/// A header puts an empty section under its name, in place of the section
/// of that name if there was one, and makes it the current section. A key
/// line puts its value under its name in the current section, in place of
/// the value that was there if there was one. A blank line changes nothing.
pub open spec fn step(state: State, line: Line) -> State {
    match line {
        Line::Blank => state,
        Line::Header(name) => State {
            document: state.document.insert(name, Map::<Seq<char>, Seq<char>>::empty()),
            current: name,
        },
        Line::Key(name, value) => State {
            document: state.document.insert(
                state.current,
                state.document[state.current].insert(name, value),
            ),
            current: state.current,
        },
    }
}

/// The state after all of `lines`, from first to last.
pub open spec fn run(state: State, lines: Seq<Line>) -> State
    decreases lines.len(),
{
    if lines.len() == 0 {
        state
    } else {
        run(step(state, lines[0]), lines.skip(1))
    }
}

/// The document that parsing ends with when it stands in `state` with
/// `rest` still to read, or `None` if `rest` is not well-formed.
pub open spec fn finish(state: State, rest: Seq<char>) -> Option<
    Map<Seq<char>, Map<Seq<char>, Seq<char>>>,
> {
    match lines(rest) {
        Some(more) => Some(run(state, more).document),
        None => None,
    }
}

/// The document that `text` stands for, or `None` if `text` is not
/// well-formed.
pub open spec fn document(text: Seq<char>) -> Option<Map<Seq<char>, Map<Seq<char>, Seq<char>>>> {
    finish(start(), text)
}

/// Reading one line and going on from the state after it is the same as
/// going on from the state before it.
pub proof fn lemma_finish_line(state: State, rest: Seq<char>)
    ensures
        finish(state, rest) == match next_line(rest) {
            Err(_) => None,
            Ok(None) => Some(state.document),
            Ok(Some((line, after))) => finish(step(state, line), after),
        },
{
    match next_line(rest) {
        Ok(Some((line, after))) => {
            match lines(after) {
                Some(more) => {
                    assert((seq![line] + more).skip(1) =~= more);
                },
                None => {},
            }
        },
        _ => {},
    }
}

} // verus!
