use ini::lexer::{Lexer, Token};
use ini::Error;

#[test]
fn peek_does_not_move() {
    let mut lexer = Lexer::new("foo = bar");
    assert_eq!(lexer.peek().unwrap(), Some(Token::String("foo".into())));
    assert_eq!(lexer.peek().unwrap(), Some(Token::String("foo".into())));
    assert_eq!(lexer.next().unwrap(), Some(Token::String("foo".into())));
    assert_eq!(lexer.peek().unwrap(), Some(Token::Equal));
    assert_eq!(lexer.next().unwrap(), Some(Token::Equal));
    assert_eq!(lexer.peek().unwrap(), Some(Token::String("bar".into())));
    assert_eq!(lexer.next().unwrap(), Some(Token::String("bar".into())));
    assert_eq!(lexer.peek().unwrap(), None);
    assert_eq!(lexer.next().unwrap(), None);
}

#[test]
fn end_of_input_is_reported_again_and_again() {
    let mut lexer = Lexer::new("  ");
    assert_eq!(lexer.next(), Ok(None));
    assert_eq!(lexer.next(), Ok(None));
    assert_eq!(lexer.peek(), Ok(None));
}

#[test]
fn tab_is_whitespace() {
    let mut lexer = Lexer::new("\t foo\t=\t bar");
    assert_eq!(lexer.next().unwrap(), Some(Token::String("foo".into())));
    assert_eq!(lexer.next().unwrap(), Some(Token::Equal));
    assert_eq!(lexer.next().unwrap(), Some(Token::String("bar".into())));
    assert_eq!(lexer.next().unwrap(), None);
}

#[test]
fn bare_string_alphabet() {
    let text = "abcxyzABCXYZ0189_./-";
    let mut lexer = Lexer::new(text);
    assert_eq!(lexer.next().unwrap(), Some(Token::String(text.into())));
    assert_eq!(lexer.next().unwrap(), None);
}

#[test]
fn path_is_one_bare_string() {
    let mut lexer = Lexer::new("dir=/usr/local/lib-2.0");
    assert_eq!(lexer.next().unwrap(), Some(Token::String("dir".into())));
    assert_eq!(lexer.next().unwrap(), Some(Token::Equal));
    assert_eq!(lexer.next().unwrap(), Some(Token::String("/usr/local/lib-2.0".into())));
    assert_eq!(lexer.next().unwrap(), None);
}

#[test]
fn bare_string_ends_at_a_blank() {
    let mut lexer = Lexer::new("foo bar");
    assert_eq!(lexer.next().unwrap(), Some(Token::String("foo".into())));
    assert_eq!(lexer.next().unwrap(), Some(Token::String("bar".into())));
    assert_eq!(lexer.next().unwrap(), None);
}

#[test]
fn character_outside_every_rule_gives_an_empty_string_in_place() {
    let mut lexer = Lexer::new("foo@bar");
    assert_eq!(lexer.next().unwrap(), Some(Token::String("foo".into())));
    assert_eq!(lexer.next().unwrap(), Some(Token::String("".into())));
    assert_eq!(lexer.next().unwrap(), Some(Token::String("".into())));
    assert_eq!(lexer.peek().unwrap(), Some(Token::String("".into())));
}

#[test]
fn carriage_return_alone_is_no_newline() {
    let mut lexer = Lexer::new("\rfoo");
    assert_eq!(lexer.next().unwrap(), Some(Token::String("".into())));
    assert_eq!(lexer.next().unwrap(), Some(Token::String("".into())));

    let mut lexer = Lexer::new("\r");
    assert_eq!(lexer.next().unwrap(), Some(Token::String("".into())));
}

#[test]
fn windows_newline_is_one_token() {
    let mut lexer = Lexer::new("\r\n\r\n");
    assert_eq!(lexer.next().unwrap(), Some(Token::Newline));
    assert_eq!(lexer.next().unwrap(), Some(Token::Newline));
    assert_eq!(lexer.next().unwrap(), None);
}

#[test]
fn comment_runs_to_the_end_of_its_line() {
    let mut lexer = Lexer::new("foo ; [bar] = \"baz\nqux");
    assert_eq!(lexer.next().unwrap(), Some(Token::String("foo".into())));
    assert_eq!(lexer.next().unwrap(), Some(Token::Newline));
    assert_eq!(lexer.next().unwrap(), Some(Token::String("qux".into())));
    assert_eq!(lexer.next().unwrap(), None);
}

#[test]
fn comment_right_after_a_string() {
    let mut lexer = Lexer::new("foo#bar");
    assert_eq!(lexer.next().unwrap(), Some(Token::String("foo".into())));
    assert_eq!(lexer.next().unwrap(), None);
}

#[test]
fn carriage_return_alone_does_not_end_a_comment() {
    let mut lexer = Lexer::new("; a\rb\nfoo");
    assert_eq!(lexer.next().unwrap(), Some(Token::Newline));
    assert_eq!(lexer.next().unwrap(), Some(Token::String("foo".into())));

    let mut lexer = Lexer::new("# a\r");
    assert_eq!(lexer.next().unwrap(), None);
}

#[test]
fn empty_quoted_string() {
    let mut lexer = Lexer::new(r#""""#);
    assert_eq!(lexer.next().unwrap(), Some(Token::String("".into())));
    assert_eq!(lexer.next().unwrap(), None);
}

#[test]
fn quoted_string_holds_what_no_bare_string_can() {
    let mut lexer = Lexer::new("\"a = [b] ; # c\n\td\" x");
    assert_eq!(lexer.next().unwrap(), Some(Token::String("a = [b] ; # c\n\td".into())));
    assert_eq!(lexer.next().unwrap(), Some(Token::String("x".into())));
    assert_eq!(lexer.next().unwrap(), None);
}

#[test]
fn quoted_string_with_characters_beyond_ascii() {
    let mut lexer = Lexer::new("\"h\u{e9}llo w\u{f6}rld \u{1f600}\"=\"\u{4f60}\u{597d}\"");
    assert_eq!(
        lexer.next().unwrap(),
        Some(Token::String("h\u{e9}llo w\u{f6}rld \u{1f600}".into()))
    );
    assert_eq!(lexer.next().unwrap(), Some(Token::Equal));
    assert_eq!(lexer.next().unwrap(), Some(Token::String("\u{4f60}\u{597d}".into())));
    assert_eq!(lexer.next().unwrap(), None);
}

#[test]
fn every_escaped_quote_is_replaced() {
    let mut lexer = Lexer::new(r#""\"a\"\"b\"""#);
    assert_eq!(lexer.next().unwrap(), Some(Token::String("\"a\"\"b\"".into())));
    assert_eq!(lexer.next().unwrap(), None);
}

#[test]
fn backslash_before_another_character_stays() {
    let mut lexer = Lexer::new(r#""a\b\n\\c""#);
    assert_eq!(lexer.next().unwrap(), Some(Token::String(r"a\b\n\\c".into())));
    assert_eq!(lexer.next().unwrap(), None);
}

#[test]
fn backslash_before_the_last_quote_escapes_it() {
    let mut lexer = Lexer::new(r#""foo\""#);
    assert_eq!(lexer.next(), Err(Error::Parse));

    let mut lexer = Lexer::new(r#""foo\\""#);
    assert_eq!(lexer.next(), Err(Error::Parse));

    let mut lexer = Lexer::new(r#""foo\\"""#);
    assert_eq!(lexer.next().unwrap(), Some(Token::String("foo\\\"".into())));
}

#[test]
fn unterminated_quote_after_other_tokens() {
    let mut lexer = Lexer::new("foo = \"bar\nbaz");
    assert_eq!(lexer.next().unwrap(), Some(Token::String("foo".into())));
    assert_eq!(lexer.next().unwrap(), Some(Token::Equal));
    assert_eq!(lexer.next(), Err(Error::Parse));
    assert_eq!(lexer.peek(), Err(Error::Parse));
    assert_eq!(lexer.next(), Err(Error::Parse));
}

#[test]
fn lone_quote_is_unterminated() {
    let mut lexer = Lexer::new("\"");
    assert_eq!(lexer.next(), Err(Error::Parse));
}

#[test]
fn brackets_and_equal_need_no_blanks() {
    let mut lexer = Lexer::new("[a]=b");
    assert_eq!(lexer.next().unwrap(), Some(Token::LeftBracket));
    assert_eq!(lexer.next().unwrap(), Some(Token::String("a".into())));
    assert_eq!(lexer.next().unwrap(), Some(Token::RightBracket));
    assert_eq!(lexer.next().unwrap(), Some(Token::Equal));
    assert_eq!(lexer.next().unwrap(), Some(Token::String("b".into())));
    assert_eq!(lexer.next().unwrap(), None);
}

#[test]
fn tokens_are_equal_by_kind_and_text() {
    assert_eq!(Token::LeftBracket, Token::LeftBracket);
    assert_eq!(Token::String("a".into()), Token::String("a".into()));
    assert_ne!(Token::LeftBracket, Token::RightBracket);
    assert_ne!(Token::Equal, Token::Newline);
    assert_ne!(Token::String("a".into()), Token::String("b".into()));
    assert_ne!(Token::String("a".into()), Token::String("ab".into()));
    assert_ne!(Token::String("".into()), Token::Newline);
    assert_ne!(Token::String("=".into()), Token::Equal);
}
