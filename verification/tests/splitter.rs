use prism::splitter::{split_identifier, tokenize_text};

#[test]
fn test_camel_case() {
    assert_eq!(
        split_identifier("getUserById"),
        vec!["get", "user", "by", "id"]
    );
}

#[test]
fn test_pascal_case() {
    assert_eq!(split_identifier("UserService"), vec!["user", "service"]);
}

#[test]
fn test_acronym() {
    assert_eq!(split_identifier("XMLParser"), vec!["xml", "parser"]);
    assert_eq!(split_identifier("parseJSON"), vec!["parse", "json"]);
    assert_eq!(split_identifier("HTMLToJSON"), vec!["html", "to", "json"]);
}

#[test]
fn test_snake_case() {
    assert_eq!(
        split_identifier("get_user_by_id"),
        vec!["get", "user", "by", "id"]
    );
    assert_eq!(split_identifier("__init__"), vec!["init"]);
}

#[test]
fn test_kebab_case() {
    assert_eq!(split_identifier("my-component"), vec!["my", "component"]);
}

#[test]
fn test_digits() {
    assert_eq!(split_identifier("user123"), vec!["user", "123"]);
    assert_eq!(
        split_identifier("get2ndPlace"),
        vec!["get", "2", "nd", "place"]
    );
}

#[test]
fn test_empty() {
    assert_eq!(split_identifier(""), Vec::<String>::new());
}

#[test]
fn test_single() {
    assert_eq!(split_identifier("hello"), vec!["hello"]);
}

#[test]
fn test_tokenize_text() {
    assert_eq!(tokenize_text("This is a test"), vec!["this", "is", "test"]);
    assert_eq!(
        tokenize_text("TODO: fix the bug"),
        vec!["todo", "fix", "the", "bug"]
    );
}

#[test]
fn tokenize_text_counts_characters() {
    assert_eq!(tokenize_text("é x"), Vec::<String>::new());
    assert_eq!(tokenize_text("éé x"), vec!["éé"]);
}
