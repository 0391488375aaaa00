use discord_bot::json::{member, same_text, text_or_default, Json};

fn obj(entries: Vec<(&str, Json)>) -> Json {
    Json::Object(entries.into_iter().map(|(k, v)| (k.to_string(), v)).collect())
}

fn s(text: &str) -> Json {
    Json::String(text.to_string())
}

#[test]
fn get_finds_a_member() {
    let v = obj(vec![("a", s("1")), ("b", s("2"))]);
    assert!(v.get("b").unwrap().is_text("2"));
    assert!(v.get("c").is_none());
}

#[test]
fn get_takes_the_first_member_of_a_name() {
    let v = obj(vec![("a", s("first")), ("a", s("second"))]);
    assert!(v.get("a").unwrap().is_text("first"));
}

#[test]
fn get_on_a_non_object_finds_nothing() {
    assert!(Json::Null.get("a").is_none());
    assert!(s("a").get("a").is_none());
    assert!(Json::Array(vec![s("a")]).get("a").is_none());
    assert!(member(&Json::Bool(true), "a").is_none());
}

#[test]
fn is_text_compares_strings_only() {
    assert!(s("320522831362523137").is_text("320522831362523137"));
    assert!(!s("32052283136252313").is_text("320522831362523137"));
    assert!(!Json::Number("320522831362523137".to_string()).is_text("320522831362523137"));
    assert!(!Json::Null.is_text(""));
}

#[test]
fn as_text_reads_strings() {
    assert_eq!(s("abc").as_text().map(|t| t.as_str()), Some("abc"));
    assert!(Json::Bool(false).as_text().is_none());
}

#[test]
fn text_or_default_falls_back() {
    assert_eq!(text_or_default(Some(&s("x")), "d"), "x");
    assert_eq!(text_or_default(Some(&Json::Null), "d"), "d");
    assert_eq!(text_or_default(Some(&Json::Number("1".to_string())), "d"), "d");
    assert_eq!(text_or_default(None, "d"), "d");
}

#[test]
fn same_text_compares_characters() {
    assert!(same_text("é", "é"));
    assert!(!same_text("e", "é"));
    assert!(!same_text("ab", "abc"));
    assert!(same_text("", ""));
}
