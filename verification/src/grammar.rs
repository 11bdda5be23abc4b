//! The syntax of INI text, stated over sequences of characters: first
//! the tokens, then the lines made of them.
//!
//! Every function here takes the input that is still to be read and says
//! what stands at its front. The executable lexer and parser are proved
//! against these definitions.

use crate::error::Error;
use vstd::prelude::*;

verus! {

/// What a token stands for: its kind and, for a string, its characters.
pub enum Lexeme {
    LeftBracket,
    RightBracket,
    Equal,
    Newline,
    Text(Seq<char>),
}

/// The outcome of reading one token: the token (`None` at the end of
/// input, an error for an unterminated quoted string), and the number of
/// characters that reading it uses up.
pub struct Lexed {
    pub token: Result<Option<Lexeme>, Error>,
    pub consumed: nat,
}

/// Space and tab separate tokens and mean nothing else.
pub open spec fn is_blank(c: char) -> bool {
    c == ' ' || c == '\t'
}

/// `;` and `#` start a comment.
pub open spec fn starts_comment(c: char) -> bool {
    c == ';' || c == '#'
}

/// The characters of an unquoted string: ASCII letters and digits, and
/// `_`, `.`, `/`, `-`.
pub open spec fn is_bare(c: char) -> bool {
    ||| 'a' <= c <= 'z'
    ||| 'A' <= c <= 'Z'
    ||| '0' <= c <= '9'
    ||| c == '_'
    ||| c == '.'
    ||| c == '/'
    ||| c == '-'
}

/// Whether `s` starts with the escape sequence `\"`.
pub open spec fn at_escape(s: Seq<char>) -> bool {
    s.len() >= 2 && s[0] == '\\' && s[1] == '"'
}

/// The number of blanks at the front of `s`.
pub open spec fn blank_len(s: Seq<char>) -> nat
    decreases s.len(),
{
    if s.len() > 0 && is_blank(s[0]) {
        1 + blank_len(s.skip(1))
    } else {
        0
    }
}

/// The length of the line terminator at the front of `s`: 1 for `\n`,
/// 2 for `\r\n`, and 0 where there is none. A `\r` alone ends no line.
pub open spec fn newline_len(s: Seq<char>) -> nat {
    if s.len() >= 1 && s[0] == '\n' {
        1
    } else if s.len() >= 2 && s[0] == '\r' && s[1] == '\n' {
        2
    } else {
        0
    }
}

/// The number of characters before the first line terminator of `s`, or
/// before its end.
pub open spec fn comment_len(s: Seq<char>) -> nat
    decreases s.len(),
{
    if s.len() == 0 || newline_len(s) > 0 {
        0
    } else {
        1 + comment_len(s.skip(1))
    }
}

/// The length of the longest prefix of `s` made of unquoted-string
/// characters.
pub open spec fn bare_len(s: Seq<char>) -> nat
    decreases s.len(),
{
    if s.len() > 0 && is_bare(s[0]) {
        1 + bare_len(s.skip(1))
    } else {
        0
    }
}

/// Where `s` is what follows an opening quote: the number of characters
/// before the closing quote, escape sequences counted as they are written,
/// or `None` if the input ends before a closing quote.
pub open spec fn quoted_len(s: Seq<char>) -> Option<nat>
    decreases s.len(),
{
    if s.len() == 0 {
        None
    } else if s[0] == '"' {
        Some(0)
    } else if at_escape(s) {
        match quoted_len(s.skip(2)) {
            Some(n) => Some(n + 2),
            None => None,
        }
    } else {
        match quoted_len(s.skip(1)) {
            Some(n) => Some(n + 1),
            None => None,
        }
    }
}

/// `s` with each escape sequence `\"` replaced by `"`, read from the left.
/// A backslash before any other character stays as it is.
pub open spec fn unescape(s: Seq<char>) -> Seq<char>
    decreases s.len(),
{
    if s.len() == 0 {
        Seq::empty()
    } else if at_escape(s) {
        seq!['"'] + unescape(s.skip(2))
    } else {
        seq![s[0]] + unescape(s.skip(1))
    }
}

/// The number of characters at the front of `s` that carry no token:
/// blanks, and then a comment up to the end of its line.
pub open spec fn lead_len(s: Seq<char>) -> nat {
    let blanks = blank_len(s);
    let t = s.skip(blanks as int);
    if t.len() > 0 && starts_comment(t[0]) {
        blanks + comment_len(t)
    } else {
        blanks
    }
}

/// The token at the front of `t`, where `t` starts with neither a blank
/// nor a comment.
///
/// The rules apply in this order: end of input; `[`; `]`; `=`; a line
/// terminator; a quoted string; an unquoted string. The last rule takes
/// whatever is left, so a character that no rule accepts gives an empty
/// string and uses up nothing.
pub open spec fn token_at(t: Seq<char>) -> Lexed {
    if t.len() == 0 {
        Lexed { token: Ok(None), consumed: 0 }
    } else if t[0] == '[' {
        Lexed { token: Ok(Some(Lexeme::LeftBracket)), consumed: 1 }
    } else if t[0] == ']' {
        Lexed { token: Ok(Some(Lexeme::RightBracket)), consumed: 1 }
    } else if t[0] == '=' {
        Lexed { token: Ok(Some(Lexeme::Equal)), consumed: 1 }
    } else if newline_len(t) > 0 {
        Lexed { token: Ok(Some(Lexeme::Newline)), consumed: newline_len(t) }
    } else if t[0] == '"' {
        match quoted_len(t.skip(1)) {
            Some(n) => Lexed {
                token: Ok(Some(Lexeme::Text(unescape(t.subrange(1, 1 + n as int))))),
                consumed: n + 2,
            },
            None => Lexed { token: Err(Error::Parse), consumed: 0 },
        }
    } else {
        let n = bare_len(t);
        Lexed { token: Ok(Some(Lexeme::Text(t.take(n as int)))), consumed: n }
    }
}

/// The token at the front of `s`: the one that follows the blanks and the
/// comment, if there are any.
pub open spec fn lex(s: Seq<char>) -> Lexed {
    let lead = lead_len(s);
    let found = token_at(s.skip(lead as int));
    Lexed { token: found.token, consumed: lead + found.consumed }
}

/// What is left of `s` after the token at its front.
pub open spec fn after_token(s: Seq<char>) -> Seq<char> {
    s.skip(lex(s).consumed as int)
}

/// Skipping twice is skipping once by the sum.
pub proof fn lemma_skip_skip(s: Seq<char>, a: int, b: int)
    requires
        0 <= a,
        0 <= b,
        a + b <= s.len(),
    ensures
        s.skip(a).skip(b) == s.skip(a + b),
{
}

/// The blanks at the front of `s` lie within `s`.
pub proof fn lemma_blank_len_bound(s: Seq<char>)
    ensures
        blank_len(s) <= s.len(),
    decreases s.len(),
{
    if s.len() > 0 && is_blank(s[0]) {
        lemma_blank_len_bound(s.skip(1));
    }
}

/// A comment lies within the input.
pub proof fn lemma_comment_len_bound(s: Seq<char>)
    ensures
        comment_len(s) <= s.len(),
    decreases s.len(),
{
    if !(s.len() == 0 || newline_len(s) > 0) {
        lemma_comment_len_bound(s.skip(1));
    }
}

/// An unquoted string lies within the input.
pub proof fn lemma_bare_len_bound(s: Seq<char>)
    ensures
        bare_len(s) <= s.len(),
    decreases s.len(),
{
    if s.len() > 0 && is_bare(s[0]) {
        lemma_bare_len_bound(s.skip(1));
    }
}

/// A quoted string and its closing quote lie within the input.
pub proof fn lemma_quoted_len_bound(s: Seq<char>)
    ensures
        quoted_len(s) matches Some(n) ==> n < s.len(),
    decreases s.len(),
{
    if s.len() > 0 && s[0] != '"' {
        if at_escape(s) {
            lemma_quoted_len_bound(s.skip(2));
        } else {
            lemma_quoted_len_bound(s.skip(1));
        }
    }
}

/// The insignificant prefix lies within the input.
pub proof fn lemma_lead_len_bound(s: Seq<char>)
    ensures
        lead_len(s) <= s.len(),
{
    lemma_blank_len_bound(s);
    lemma_comment_len_bound(s.skip(blank_len(s) as int));
}

/// A token never reaches past the end of the input, and every token but a
/// string uses up at least one character.
pub proof fn lemma_token_at_consumed(t: Seq<char>)
    ensures
        token_at(t).consumed <= t.len(),
        token_at(t).token matches Ok(Some(token)) && !(token is Text) ==> token_at(t).consumed
            > 0,
{
    if t.len() > 0 {
        lemma_quoted_len_bound(t.skip(1));
        lemma_bare_len_bound(t);
    }
}

/// The same of a token with what stands before it.
pub proof fn lemma_lex_consumed(s: Seq<char>)
    ensures
        lex(s).consumed <= s.len(),
        lex(s).token matches Ok(Some(token)) && !(token is Text) ==> lex(s).consumed > 0,
{
    lemma_lead_len_bound(s);
    lemma_token_at_consumed(s.skip(lead_len(s) as int));
}

/// A line of INI text, by what it says.
pub enum Line {
    /// Nothing but blanks or a comment.
    Blank,
    /// `[name]`: the section header with that name.
    Header(Seq<char>),
    /// `name = value`: a key with its value.
    Key(Seq<char>, Seq<char>),
}

/// What is left of `s` after the end of a line at its front: a line
/// terminator or the end of the input. `None` if another token stands there.
pub open spec fn line_end(s: Seq<char>) -> Option<Seq<char>> {
    match lex(s).token {
        Ok(None) | Ok(Some(Lexeme::Newline)) => Some(after_token(s)),
        _ => None,
    }
}

/// The section header at the front of `s`: its name and what follows the
/// line. A header is `[`, a string, `]` and the end of the line.
pub open spec fn header(s: Seq<char>) -> Option<(Seq<char>, Seq<char>)> {
    let s1 = after_token(s);
    let s2 = after_token(s1);
    let s3 = after_token(s2);
    match (lex(s).token, lex(s1).token, lex(s2).token, line_end(s3)) {
        (
            Ok(Some(Lexeme::LeftBracket)),
            Ok(Some(Lexeme::Text(name))),
            Ok(Some(Lexeme::RightBracket)),
            Some(rest),
        ) => Some((name, rest)),
        _ => None,
    }
}

/// The key line at the front of `s`: its name, its value and what follows
/// the line. A key line is a string that is not empty, `=`, a string and
/// the end of the line.
pub open spec fn key_line(s: Seq<char>) -> Option<(Seq<char>, Seq<char>, Seq<char>)> {
    let s1 = after_token(s);
    let s2 = after_token(s1);
    let s3 = after_token(s2);
    match (lex(s).token, lex(s1).token, lex(s2).token, line_end(s3)) {
        (
            Ok(Some(Lexeme::Text(name))),
            Ok(Some(Lexeme::Equal)),
            Ok(Some(Lexeme::Text(value))),
            Some(rest),
        ) => if name.len() > 0 {
            Some((name, value, rest))
        } else {
            None
        },
        _ => None,
    }
}

/// The line at the front of `s` and what follows it; `None` at the end of
/// the input; an error where no line of the grammar stands there.
///
/// The first token decides: a line terminator is a blank line, `[` starts
/// a section header, a string starts a key line.
pub open spec fn next_line(s: Seq<char>) -> Result<Option<(Line, Seq<char>)>, Error> {
    match lex(s).token {
        Err(e) => Err(e),
        Ok(None) => Ok(None),
        Ok(Some(Lexeme::Newline)) => Ok(Some((Line::Blank, after_token(s)))),
        Ok(Some(Lexeme::LeftBracket)) => match header(s) {
            Some((name, rest)) => Ok(Some((Line::Header(name), rest))),
            None => Err(Error::Parse),
        },
        Ok(Some(Lexeme::Text(_))) => match key_line(s) {
            Some((name, value, rest)) => Ok(Some((Line::Key(name, value), rest))),
            None => Err(Error::Parse),
        },
        Ok(Some(_)) => Err(Error::Parse),
    }
}

/// The lines of `s` in order, or `None` if `s` is not well-formed.
pub open spec fn lines(s: Seq<char>) -> Option<Seq<Line>>
    decreases s.len(),
{
    match next_line(s) {
        Err(_) => None,
        Ok(None) => Some(Seq::empty()),
        Ok(Some((line, rest))) => {
            proof {
                lemma_line_shortens(s);
            }
            match lines(rest) {
                Some(more) => Some(seq![line] + more),
                None => None,
            }
        },
    }
}

/// What follows a token is no longer than what it was read from.
pub proof fn lemma_after_token_len(s: Seq<char>)
    ensures
        after_token(s).len() == s.len() - lex(s).consumed,
        after_token(s).len() <= s.len(),
{
    lemma_lex_consumed(s);
}

/// Every line uses up at least one character.
pub proof fn lemma_line_shortens(s: Seq<char>)
    ensures
        next_line(s) matches Ok(Some((_, rest))) ==> rest.len() < s.len(),
{
    let s1 = after_token(s);
    let s2 = after_token(s1);
    let s3 = after_token(s2);
    lemma_after_token_len(s);
    lemma_after_token_len(s1);
    lemma_after_token_len(s2);
    lemma_after_token_len(s3);
}

} // verus!
