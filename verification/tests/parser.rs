use ini::parser::Parser;
use ini::Ini;

#[test]
fn default_section() {
    let text = "";
    let ini = Parser::from_str(text);
    let expected = Ini::new();
    assert_eq!(ini, Ok(expected));
}

#[test]
fn default_section_key() {
    let text = "bar=baz";
    let ini = Parser::from_str(text);
    let mut expected = Ini::new();
    expected[""].insert("bar".into(), "baz".into());
    assert_eq!(ini, Ok(expected));
}

#[test]
fn parser_section() {
    let text = "[foo]";
    let ini = Parser::from_str(text);
    let mut expected = Ini::new();
    expected.add_section("foo");
    assert_eq!(ini, Ok(expected));
}

#[test]
fn section_key() {
    let text = r"
        [foo]
        bar=baz
        ";
    let ini = Parser::from_str(text);
    let mut expected = Ini::new();
    expected.add_section("foo");
    expected["foo"].insert("bar".into(), "baz".into());
    assert_eq!(ini, Ok(expected));
}

#[test]
fn many_sections() {
    let text = r"
        [foo]
        [bar]
        [baz]
        ";
    let ini = Parser::from_str(text);
    let mut expected = Ini::new();
    expected.add_section("foo");
    expected.add_section("bar");
    expected.add_section("baz");
    assert_eq!(ini, Ok(expected));
}

#[test]
fn keys_on_same_line() {
    let text = "bar=baz qux=quux";
    let ini = Parser::from_str(text);
    assert!(ini.is_err());
}

#[test]
fn sections_on_same_line() {
    let text = "[foo] [bar]";
    let ini = Parser::from_str(text);
    assert!(ini.is_err());
}

#[test]
fn section_key_on_same_line() {
    let text = "[foo] bar=baz";
    let ini = Parser::from_str(text);
    assert!(ini.is_err());
}

#[test]
fn key_split_across_line() {
    let text = "bar=\nbaz";
    let ini = Parser::from_str(text);
    assert!(ini.is_err());
}

#[test]
fn section_split_across_line() {
    let text = "[foo\n]";
    let ini = Parser::from_str(text);
    assert!(ini.is_err());
}

#[test]
fn section_quoted_name() {
    let text = r#"["foo bar"]"#;
    let ini = Parser::from_str(text);
    let mut expected = Ini::new();
    expected.add_section("foo bar");
    assert_eq!(ini, Ok(expected));
}

#[test]
fn key_quoted_name() {
    let text = r#""foo bar"=baz"#;
    let ini = Parser::from_str(text).unwrap();
    assert_eq!(ini[""]["foo bar"], "baz");
}

#[test]
fn key_quoted_value() {
    let text = r#"foo="bar baz""#;
    let ini = Parser::from_str(text).unwrap();
    assert_eq!(ini[""]["foo"], "bar baz");
}
