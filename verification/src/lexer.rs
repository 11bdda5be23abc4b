//! The lexer: from INI text to tokens, one at a time.

use crate::error::Error;
use crate::grammar::{
    after_token, bare_len, blank_len, comment_len, is_bare, is_blank, lead_len,
    lemma_bare_len_bound, lemma_blank_len_bound, lemma_comment_len_bound,
    lemma_lead_len_bound, lemma_quoted_len_bound, lemma_skip_skip, lemma_token_at_consumed,
    lex, newline_len, quoted_len, starts_comment, token_at, unescape, Lexeme,
};
use crate::text::{chars_of, string_of};
use vstd::prelude::*;

verus! {

/// A token of INI text.
#[derive(Debug)]
pub enum Token {
    LeftBracket,
    RightBracket,
    Equal,
    Newline,
    /// A quoted or unquoted string, quotes and escapes resolved.
    String(String),
}

impl View for Token {
    type V = Lexeme;

    open spec fn view(&self) -> Lexeme {
        match self {
            Token::LeftBracket => Lexeme::LeftBracket,
            Token::RightBracket => Lexeme::RightBracket,
            Token::Equal => Lexeme::Equal,
            Token::Newline => Lexeme::Newline,
            Token::String(s) => Lexeme::Text(s@),
        }
    }
}

impl PartialEq for Token {
    /// Two tokens are equal if they are of the same kind and, where they
    /// are strings, hold the same characters.
    fn eq(&self, other: &Token) -> (equal: bool) {
        match (self, other) {
            (Token::LeftBracket, Token::LeftBracket) => true,
            (Token::RightBracket, Token::RightBracket) => true,
            (Token::Equal, Token::Equal) => true,
            (Token::Newline, Token::Newline) => true,
            (Token::String(mine), Token::String(theirs)) => *mine == *theirs,
            _ => false,
        }
    }
}

impl vstd::std_specs::cmp::PartialEqSpecImpl for Token {
    open spec fn obeys_eq_spec() -> bool {
        true
    }

    open spec fn eq_spec(&self, other: &Token) -> bool {
        self@ == other@
    }
}

impl Eq for Token {}

/// What a call of [`Lexer::next`] or [`Lexer::peek`] returned, each token
/// taken by its view.
pub open spec fn outcome(r: Result<Option<Token>, Error>) -> Result<Option<Lexeme>, Error> {
    match r {
        Ok(Some(token)) => Ok(Some(token@)),
        Ok(None) => Ok(None),
        Err(e) => Err(e),
    }
}

/// Whether `c` is a blank.
fn blank(c: char) -> (r: bool)
    ensures
        r == is_blank(c),
{
    c == ' ' || c == '\t'
}

/// Whether `c` may stand in an unquoted string.
fn bare(c: char) -> (r: bool)
    ensures
        r == is_bare(c),
{
    ('a' <= c && c <= 'z') || ('A' <= c && c <= 'Z') || ('0' <= c && c <= '9') || c == '_' || c
        == '.' || c == '/' || c == '-'
}

/// A lexer over a text. Its view is the part of the text that it has not
/// read yet.
pub struct Lexer {
    chars: Vec<char>,
    pos: usize,
}

impl View for Lexer {
    type V = Seq<char>;

    closed spec fn view(&self) -> Seq<char> {
        self.chars@.skip(self.pos as int)
    }
}

impl Lexer {
    /// The current position lies within the text or at its end.
    #[verifier::type_invariant]
    spec fn within(&self) -> bool {
        self.pos <= self.chars.len()
    }

    /// The whole text that the lexer was made for, read or not.
    pub closed spec fn source(&self) -> Seq<char> {
        self.chars@
    }

    /// A lexer at the start of `text`.
    pub fn new(text: &str) -> (lexer: Lexer)
        ensures
            lexer@ == text@,
            lexer.source() == text@,
    {
        Lexer { chars: chars_of(text), pos: 0 }
    }

    /// Reads the next token and moves past it.
    ///
    /// Returns `None` at the end of the input, and an error where a quoted
    /// string is not closed; the lexer then stands at the opening quote.
    pub fn next(&mut self) -> (r: Result<Option<Token>, Error>)
        ensures
            outcome(r) == lex(old(self)@).token,
            final(self)@ == after_token(old(self)@),
            final(self).source() == old(self).source(),
    {
        let ghost input = self@;
        self.skip_lead();
        let ghost trimmed = self@;
        let r = self.token();
        proof {
            lemma_lead_len_bound(input);
            lemma_token_at_consumed(trimmed);
        }
        r
    }

    /// Moves past blanks and a comment.
    fn skip_lead(&mut self)
        ensures
            final(self).chars == old(self).chars,
            final(self)@ == old(self)@.skip(lead_len(old(self)@) as int),
    {
        proof {
            use_type_invariant(&*self);
            lemma_blank_len_bound(self@);
        }
        let ghost input = self@;
        self.skip_whitespace();
        proof {
            lemma_skip_skip(self.chars@, old(self).pos as int, blank_len(input) as int);
            lemma_comment_len_bound(self@);
        }
        if let Some(len) = self.scan_comment() {
            self.advance(len);
        }
    }

    /// Moves past `n` characters.
    fn advance(&mut self, n: usize)
        requires
            n <= old(self)@.len(),
        ensures
            final(self).chars == old(self).chars,
            final(self).pos == old(self).pos + n,
            final(self)@ == old(self)@.skip(n as int),
    {
        proof {
            use_type_invariant(&*self);
        }
        self.pos += n;
    }

    /// Reads the token at the current position, which is past blanks and
    /// comments.
    fn token(&mut self) -> (r: Result<Option<Token>, Error>)
        ensures
            outcome(r) == token_at(old(self)@).token,
            final(self)@ == old(self)@.skip(token_at(old(self)@).consumed as int),
            final(self).chars == old(self).chars,
    {
        proof {
            use_type_invariant(&*self);
        }
        let ghost rest = self@;
        if self.pos >= self.chars.len() {
            return Ok(None);
        }
        if self.scan_left_bracket() {
            self.advance(1);
            return Ok(Some(Token::LeftBracket));
        }
        if self.scan_right_bracket() {
            self.advance(1);
            return Ok(Some(Token::RightBracket));
        }
        if self.scan_equal() {
            self.advance(1);
            return Ok(Some(Token::Equal));
        }
        if let Some(len) = self.scan_newline() {
            self.advance(len);
            return Ok(Some(Token::Newline));
        }
        match self.scan_quote_string() {
            Err(e) => {
                return Err(e);
            },
            Ok(Some(len)) => {
                proof {
                    lemma_quoted_len_bound(rest.skip(1));
                }
                let string = self.unescaped(self.pos + 1, self.pos + 1 + len);
                assert(self.chars@.subrange(self.pos + 1, self.pos + 1 + len) =~= rest.subrange(
                    1,
                    1 + len,
                ));
                self.advance(len + 2);
                return Ok(Some(Token::String(string)));
            },
            Ok(None) => {},
        }
        proof {
            lemma_bare_len_bound(rest);
        }
        let len = self.scan_string();
        let string = string_of(&self.chars, self.pos, self.pos + len);
        assert(self.chars@.subrange(self.pos as int, self.pos + len) =~= rest.take(len as int));
        self.advance(len);
        Ok(Some(Token::String(string)))
    }

    /// Reads the next token without moving past it: the result is what
    /// [`Lexer::next`] would return, and the lexer stays where it is.
    pub fn peek(&mut self) -> (r: Result<Option<Token>, Error>)
        ensures
            outcome(r) == lex(old(self)@).token,
            final(self)@ == old(self)@,
            final(self).source() == old(self).source(),
    {
        proof {
            use_type_invariant(&*self);
        }
        let start_pos = self.pos;
        let token = self.next();
        self.pos = start_pos;
        token
    }

    /// Moves past the blanks at the current position.
    fn skip_whitespace(&mut self)
        ensures
            final(self).chars == old(self).chars,
            final(self).pos == old(self).pos + blank_len(old(self)@),
    {
        proof {
            use_type_invariant(&*self);
        }
        let ghost start = self.pos;
        while self.pos < self.chars.len() && blank(self.chars[self.pos])
            invariant
                self.chars == old(self).chars,
                start <= self.pos <= self.chars.len(),
                blank_len(self.chars@.skip(start as int)) == (self.pos - start) + blank_len(
                    self.chars@.skip(self.pos as int),
                ),
            decreases self.chars.len() - self.pos,
        {
            assert(self.chars@.skip(self.pos as int).skip(1) =~= self.chars@.skip(self.pos + 1));
            self.pos += 1;
        }
    }

    /// Whether `[` stands at the current position.
    fn scan_left_bracket(&self) -> (found: bool)
        requires
            self@.len() > 0,
        ensures
            found == (self@[0] == '['),
    {
        proof {
            use_type_invariant(self);
        }
        let current = self.chars[self.pos];
        current == '['
    }

    /// Whether `]` stands at the current position.
    fn scan_right_bracket(&self) -> (found: bool)
        requires
            self@.len() > 0,
        ensures
            found == (self@[0] == ']'),
    {
        proof {
            use_type_invariant(self);
        }
        let current = self.chars[self.pos];
        current == ']'
    }

    /// Whether `=` stands at the current position.
    fn scan_equal(&self) -> (found: bool)
        requires
            self@.len() > 0,
        ensures
            found == (self@[0] == '='),
    {
        proof {
            use_type_invariant(self);
        }
        let current = self.chars[self.pos];
        current == '='
    }

    /// The length of the line terminator at the current position, if one
    /// stands there.
    fn scan_newline(&self) -> (len: Option<usize>)
        requires
            self@.len() > 0,
        ensures
            match len {
                Some(n) => n == newline_len(self@) && n > 0,
                None => newline_len(self@) == 0,
            },
    {
        proof {
            use_type_invariant(self);
        }
        let current = self.chars[self.pos];
        if current == '\n' {
            Some(1)
        } else if current == '\r' && self.pos + 1 < self.chars.len() && self.chars[self.pos + 1]
            == '\n' {
            Some(2)
        } else {
            None
        }
    }

    /// The length of the comment at the current position, if one starts
    /// there. Its line terminator is not part of it.
    fn scan_comment(&self) -> (len: Option<usize>)
        ensures
            match len {
                Some(n) => self@.len() > 0 && starts_comment(self@[0]) && n == comment_len(self@),
                None => !(self@.len() > 0 && starts_comment(self@[0])),
            },
    {
        proof {
            use_type_invariant(self);
        }
        if self.pos >= self.chars.len() {
            return None;
        }
        let current = self.chars[self.pos];
        if current == ';' || current == '#' {
            let mut ix: usize = self.pos;
            let mut len: usize = 0;
            while ix < self.chars.len()
                invariant
                    ix == self.pos + len,
                    ix <= self.chars.len(),
                    comment_len(self@) == len + comment_len(self.chars@.skip(ix as int)),
                ensures
                    ix == self.pos + len,
                    ix <= self.chars.len(),
                    comment_len(self@) == len,
                decreases self.chars.len() - ix,
            {
                assert(self.chars@.skip(ix as int).skip(1) =~= self.chars@.skip(ix + 1));
                if self.chars[ix] == '\n' || (self.chars[ix] == '\r' && ix + 1 < self.chars.len()
                    && self.chars[ix + 1] == '\n') {
                    break ;
                }
                len += 1;
                ix += 1;
            }
            Some(len)
        } else {
            None
        }
    }

    /// Where a quote stands at the current position: the number of
    /// characters between it and the closing quote, or an error if there
    /// is no closing quote. `None` where no quote stands there.
    fn scan_quote_string(&self) -> (len: Result<Option<usize>, Error>)
        requires
            self@.len() > 0,
        ensures
            match len {
                Ok(Some(n)) => self@[0] == '"' && quoted_len(self@.skip(1)) == Some(n as nat),
                Ok(None) => self@[0] != '"',
                Err(_) => self@[0] == '"' && quoted_len(self@.skip(1)) is None,
            },
    {
        proof {
            use_type_invariant(self);
        }
        let mut ix: usize = self.pos;
        if self.chars[ix] != '"' {
            return Ok(None);
        }
        ix += 1;
        let mut len: usize = 0;
        assert(self@.skip(1) =~= self.chars@.skip(ix as int));
        while ix < self.chars.len()
            invariant
                ix == self.pos + 1 + len,
                ix <= self.chars.len(),
                self@.len() > 0 && self@[0] == '"',
                quoted_len(self@.skip(1)) == match quoted_len(self.chars@.skip(ix as int)) {
                    Some(n) => Some((n + len) as nat),
                    None => None,
                },
            decreases self.chars.len() - ix,
        {
            assert(self.chars@.skip(ix as int).skip(1) =~= self.chars@.skip(ix + 1));
            if self.chars[ix] == '"' {
                return Ok(Some(len));
            }
            if self.chars[ix] == '\\' && ix + 1 < self.chars.len() && self.chars[ix + 1] == '"' {
                assert(self.chars@.skip(ix as int).skip(2) =~= self.chars@.skip(ix + 2));
                ix += 2;
                len += 2;
                continue ;
            }
            ix += 1;
            len += 1;
        }
        Err(Error::Parse)
    }

    /// The length of the unquoted string at the current position.
    fn scan_string(&self) -> (len: usize)
        requires
            self@.len() > 0,
        ensures
            len == bare_len(self@),
    {
        proof {
            use_type_invariant(self);
        }
        let mut ix: usize = self.pos;
        let mut len: usize = 0;
        while ix < self.chars.len()
            invariant
                ix == self.pos + len,
                ix <= self.chars.len(),
                bare_len(self@) == len + bare_len(self.chars@.skip(ix as int)),
            ensures
                ix == self.pos + len,
                ix <= self.chars.len(),
                bare_len(self@) == len,
            decreases self.chars.len() - ix,
        {
            assert(self.chars@.skip(ix as int).skip(1) =~= self.chars@.skip(ix + 1));
            if bare(self.chars[ix]) {
                len += 1;
                ix += 1;
            } else {
                break ;
            }
        }
        len
    }

    /// The characters `chars[from..to]` with each `\"` replaced by `"`.
    fn unescaped(&self, from: usize, to: usize) -> (s: String)
        requires
            from <= to <= self.chars.len(),
        ensures
            s@ == unescape(self.chars@.subrange(from as int, to as int)),
    {
        let mut s = String::new();
        let mut ix: usize = from;
        while ix < to
            invariant
                from <= ix <= to <= self.chars.len(),
                unescape(self.chars@.subrange(from as int, to as int)) == s@ + unescape(
                    self.chars@.subrange(ix as int, to as int),
                ),
            decreases to - ix,
        {
            let ghost rest = self.chars@.subrange(ix as int, to as int);
            assert(rest.skip(1) =~= self.chars@.subrange(ix + 1, to as int));
            if self.chars[ix] == '\\' && ix + 1 < to && self.chars[ix + 1] == '"' {
                assert(rest.skip(2) =~= self.chars@.subrange(ix + 2, to as int));
                s.push('"');
                ix += 2;
            } else {
                s.push(self.chars[ix]);
                ix += 1;
            }
        }
        s
    }
}

} // verus!
