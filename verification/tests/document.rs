use ini::{Ini, Section};

#[test]
fn new_document_has_only_the_default_section() {
    let ini = Ini::new();
    assert!(ini.get("").is_some());
    assert!(ini.get("foo").is_none());
    assert_eq!(ini[""], Section::new());
}

#[test]
fn new_section_has_no_keys() {
    let section = Section::new();
    assert!(section.get("foo").is_none());
    assert!(section.get("").is_none());
}

#[test]
fn default_section_value_is_empty() {
    assert_eq!(Section::default(), Section::new());
}

#[test]
fn insert_then_get() {
    let mut section = Section::new();
    section.insert("foo".into(), "bar".into());
    assert_eq!(section.get("foo"), Some(&String::from("bar")));
    assert_eq!(section["foo"], "bar");
    assert!(section.get("fo").is_none());
    assert!(section.get("foo ").is_none());
    assert!(section.get("bar").is_none());
}

#[test]
fn insert_overwrites_the_value() {
    let mut section = Section::new();
    section.insert("foo".into(), "first".into());
    section.insert("other".into(), "kept".into());
    section.insert("foo".into(), "second".into());
    assert_eq!(section["foo"], "second");
    assert_eq!(section["other"], "kept");

    let mut once = Section::new();
    once.insert("other".into(), "kept".into());
    once.insert("foo".into(), "second".into());
    assert_eq!(section, once);
}

#[test]
fn names_are_told_apart_character_by_character() {
    let mut section = Section::new();
    section.insert("ab".into(), "1".into());
    section.insert("abc".into(), "2".into());
    section.insert("b".into(), "3".into());
    section.insert("AB".into(), "4".into());
    assert_eq!(section["ab"], "1");
    assert_eq!(section["abc"], "2");
    assert_eq!(section["b"], "3");
    assert_eq!(section["AB"], "4");
    assert!(section.get("a").is_none());
    assert!(section.get("abcd").is_none());
}

#[test]
fn add_section_then_get() {
    let mut ini = Ini::new();
    ini.add_section("foo");
    assert!(ini.get("foo").is_some());
    assert!(ini.get("bar").is_none());
    assert!(ini.get("").is_some());
    assert_eq!(ini["foo"], Section::new());
}

#[test]
fn add_section_again_discards_its_keys() {
    let mut ini = Ini::new();
    ini.add_section("foo");
    ini.section_mut("foo").insert("old".into(), "1".into());
    ini.add_section("bar");
    ini.section_mut("bar").insert("stays".into(), "2".into());
    ini.add_section("foo");
    assert!(ini["foo"].get("old").is_none());
    assert_eq!(ini["foo"], Section::new());
    ini.section_mut("foo").insert("new".into(), "3".into());
    assert!(ini["foo"].get("old").is_none());
    assert_eq!(ini["foo"]["new"], "3");
    assert_eq!(ini["bar"]["stays"], "2");
}

#[test]
fn add_section_with_empty_name_empties_the_default_section() {
    let mut ini = Ini::new();
    ini.section_mut("").insert("foo".into(), "bar".into());
    ini.add_section("");
    assert!(ini[""].get("foo").is_none());
    assert_eq!(ini, Ini::new());
}

#[test]
fn section_mut_changes_that_section_only() {
    let mut ini = Ini::new();
    ini.add_section("a");
    ini.add_section("b");
    ini.section_mut("a").insert("k".into(), "in a".into());
    ini.section_mut("b").insert("k".into(), "in b".into());
    ini.section_mut("").insert("k".into(), "in default".into());
    assert_eq!(ini["a"]["k"], "in a");
    assert_eq!(ini["b"]["k"], "in b");
    assert_eq!(ini[""]["k"], "in default");
}

#[test]
fn index_mut_reaches_sections_and_values() {
    let mut ini = Ini::new();
    ini.add_section("a");
    ini["a"].insert("k".into(), "v".into());
    ini["a"]["k"] = String::from("w");
    ini["a"]["k"].push('!');
    assert_eq!(ini["a"]["k"], "w!");
    assert!(ini[""].get("k").is_none());
}

#[test]
fn equality_ignores_the_order_of_insertion() {
    let mut a = Ini::new();
    a.add_section("x");
    a.add_section("y");
    a["x"].insert("k1".into(), "1".into());
    a["x"].insert("k2".into(), "2".into());
    a[""].insert("g".into(), "0".into());

    let mut b = Ini::new();
    b[""].insert("g".into(), "0".into());
    b.add_section("y");
    b.add_section("x");
    b["x"].insert("k2".into(), "2".into());
    b["x"].insert("k1".into(), "1".into());

    assert_eq!(a, b);
    assert_eq!(b, a);
}

#[test]
fn documents_that_differ_are_not_equal() {
    let mut base = Ini::new();
    base.add_section("x");
    base["x"].insert("k".into(), "1".into());

    let mut other_value = Ini::new();
    other_value.add_section("x");
    other_value["x"].insert("k".into(), "2".into());
    assert_ne!(base, other_value);

    let mut other_key = Ini::new();
    other_key.add_section("x");
    other_key["x"].insert("j".into(), "1".into());
    assert_ne!(base, other_key);

    let mut more_keys = Ini::new();
    more_keys.add_section("x");
    more_keys["x"].insert("k".into(), "1".into());
    more_keys["x"].insert("j".into(), "1".into());
    assert_ne!(base, more_keys);
    assert_ne!(more_keys, base);

    let mut more_sections = Ini::new();
    more_sections.add_section("x");
    more_sections["x"].insert("k".into(), "1".into());
    more_sections.add_section("y");
    assert_ne!(base, more_sections);
    assert_ne!(more_sections, base);

    let mut other_section = Ini::new();
    other_section.add_section("y");
    other_section["y"].insert("k".into(), "1".into());
    assert_ne!(base, other_section);

    let mut other_default = Ini::new();
    other_default.add_section("x");
    other_default["x"].insert("k".into(), "1".into());
    other_default[""].insert("k".into(), "1".into());
    assert_ne!(base, other_default);

    assert_ne!(base, Ini::new());
}
