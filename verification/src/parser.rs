//! The parser: from INI text to a document.

use crate::error::Error;
use crate::grammar::{header, key_line, lemma_line_shortens, line_end};
use crate::ini::Ini;
use crate::lexer::{Lexer, Token};
use crate::model::{document, finish, lemma_finish_line, State};
use vstd::prelude::*;

verus! {

/// A parser over a text. It reads tokens from its lexer, line by line.
pub struct Parser {
    lexer: Lexer,
}

impl View for Parser {
    type V = Seq<char>;

    /// The part of the text that the parser has not read yet.
    closed spec fn view(&self) -> Seq<char> {
        self.lexer@
    }
}

impl Parser {
    /// Parse an Ini from an input string.
    ///
    /// Returns the document that the text stands for, and an error if the
    /// text is not well-formed.
    pub fn from_str(text: &str) -> (r: Result<Ini, Error>)
        ensures
            match document(text@) {
                Some(doc) => r matches Ok(ini) && ini@ == doc,
                None => r matches Err(Error::Parse),
            },
    {
        let lexer = Lexer::new(text);
        let mut parser = Parser { lexer };
        parser.ini()
    }

    /// Reads the end of a line: a line terminator or the end of the input.
    fn end_of_line(&mut self) -> (r: Result<(), Error>)
        ensures
            match line_end(old(self)@) {
                Some(rest) => r is Ok && final(self)@ == rest,
                None => r is Err,
            },
    {
        match self.lexer.next() {
            Ok(Some(Token::Newline)) => Ok(()),
            Ok(None) => Ok(()),
            _ => Err(Error::Parse),
        }
    }

    /// Reads a section header and returns the section's name.
    fn section(&mut self) -> (r: Result<String, Error>)
        ensures
            match header(old(self)@) {
                Some((name, rest)) => r matches Ok(found) && found@ == name && final(self)@
                    == rest,
                None => r is Err,
            },
    {
        let left_br = self.lexer.next()?;
        let name = self.lexer.next()?;
        let right_br = self.lexer.next()?;
        self.end_of_line()?;
        match (left_br, name, right_br) {
            (Some(Token::LeftBracket), Some(Token::String(name)), Some(Token::RightBracket)) => Ok(
                name,
            ),
            _ => Err(Error::Parse),
        }
    }

    /// Reads a key line and returns the key's name and value.
    fn key(&mut self) -> (r: Result<(String, String), Error>)
        ensures
            match key_line(old(self)@) {
                Some((name, value, rest)) => r matches Ok(found) && found.0@ == name
                    && found.1@ == value && final(self)@ == rest,
                None => r is Err,
            },
    {
        let name = self.lexer.next()?;
        let equal = self.lexer.next()?;
        let value = self.lexer.next()?;
        self.end_of_line()?;
        match (name, equal, value) {
            (Some(Token::String(name)), Some(Token::Equal), Some(Token::String(value))) => {
                if name.as_str().is_empty() {
                    return Err(Error::Parse);
                }
                Ok((name, value))
            },
            _ => Err(Error::Parse),
        }
    }

    /// Reads the text line by line to its end and returns the document.
    fn ini(&mut self) -> (r: Result<Ini, Error>)
        ensures
            match document(old(self)@) {
                Some(doc) => r matches Ok(ini) && ini@ == doc,
                None => r matches Err(Error::Parse),
            },
    {
        let mut ini = Ini::new();
        let mut cur_section = String::new();
        loop
            invariant
                ini@.contains_key(cur_section@),
                finish(State { document: ini@, current: cur_section@ }, self@) == document(
                    old(self)@,
                ),
            decreases self@.len(),
        {
            proof {
                lemma_finish_line(State { document: ini@, current: cur_section@ }, self@);
                lemma_line_shortens(self@);
            }
            let token = match self.lexer.peek()? {
                Some(token) => token,
                None => {
                    return Ok(ini);
                },
            };
            match token {
                Token::Newline => {
                    self.lexer.next()?;
                },
                Token::LeftBracket => {
                    let name = self.section()?;
                    ini.add_section(name.as_str());
                    cur_section = name;
                },
                Token::String(_) => {
                    let (name, value) = self.key()?;
                    ini.section_mut(cur_section.as_str()).insert(name, value);
                },
                _ => {
                    return Err(Error::Parse);
                },
            }
        }
    }
}

} // verus!
