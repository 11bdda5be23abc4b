//! This crate provides methods for working with INI files.
//!
//! The central type of this crate is `Ini`. It can be created in the
//! following ways:
//! * `Ini::new()` creates a new config object.
//! * `Ini::from_str()` parses a config object from an input string.
//!
//! The `Ini` object acts like a two-level map, with sections at the first
//! level and keys at the second level. It supports indexing operations for
//! ease of use.
//!
//! # Syntax
//!
//! ## Keys
//!
//! Individual settings are defined using keys, which are simple name-value
//! pairs delimited by an `=` sign. Keys may contain whitespace between
//! elements and must be followed by a newline or the end of file. Each key
//! must appear on its own line.
//!
//! ```ini
//! foo=bar # ok
//! foo=bar buz=bux # not ok
//! ```
//!
//! Names and values may be composed of ASCII alphanumeric characters and the
//! following symbols: `_./-`. Any other text has to stand between double
//! quotes, where `\"` stands for a double quote.
//!
//! ```ini
//! foo=bar # ok
//! foo bar = baz bux # not ok
//! "foo bar" = "baz bux" # ok
//! ```
//!
//! ## Sections
//!
//! Keys are grouped by section. A section ends when the next one begins or
//! when the end of file is reached.
//!
//! ```ini
//! [first]
//! foo=bar
//!
//! [second]
//! baz=bux
//! ```
//!
//! Keys declared before any section declaration are added to the default or
//! global section, which can be accessed with the name "".
//!
//! ## Comments
//!
//! Both Windows (`;`) and Unix style comments (`#`) are supported. Comments
//! extend to the end of the line and all internal content is ignored. They
//! may appear on separate lines or inline.
//!
//! ```ini
//! ; standalone comment
//! foo=bar ; inline comment
//! ```
//!
//! # Verification
//!
//! What the lexer and the parser accept, and the document that a text
//! stands for, are defined in the modules `grammar` and `model` as
//! functions on sequences of characters. Every function of the crate is
//! proved to do what these definitions say, and the module `laws` holds
//! what follows from them for all texts.

pub mod error;
pub mod grammar;
pub mod ini;
pub mod laws;
pub mod lexer;
pub mod model;
pub mod parser;
mod table;
mod text;

pub use crate::error::Error;
pub use crate::ini::Ini;
pub use crate::ini::Section;
