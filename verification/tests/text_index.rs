use prism::config::default_node_id;
use prism::text_index::{fields_to_search, page_after, type_value, typed_fields, FieldKind, JsonNumber, JsonScalar, Typed};

fn schema() -> Vec<(String, FieldKind)> {
    vec![
        ("title".to_string(), FieldKind::Text),
        ("created".to_string(), FieldKind::Date),
        ("count".to_string(), FieldKind::U64),
        ("delta".to_string(), FieldKind::I64),
        ("score".to_string(), FieldKind::F64),
        ("flag".to_string(), FieldKind::Bool),
    ]
}

#[test]
fn typed_fields_follow_the_schema() {
    let fields = vec![
        ("title".to_string(), JsonScalar::Str("Hello".to_string())),
        ("created".to_string(), JsonScalar::Str("2024-01-01T00:00:00Z".to_string())),
        ("count".to_string(), JsonScalar::Number(JsonNumber::PosInt(7))),
        ("delta".to_string(), JsonScalar::Number(JsonNumber::NegInt(-3))),
        ("score".to_string(), JsonScalar::Number(JsonNumber::Float(1.5f64.to_bits()))),
        ("flag".to_string(), JsonScalar::Bool(true)),
        ("unknown".to_string(), JsonScalar::Str("x".to_string())),
    ];
    let r = typed_fields(&schema(), &fields);
    assert_eq!(
        r,
        vec![
            ("title".to_string(), Typed::Text("Hello".to_string())),
            ("created".to_string(), Typed::Date(1_704_067_200_000_000)),
            ("count".to_string(), Typed::U64(7)),
            ("delta".to_string(), Typed::I64(-3)),
            ("score".to_string(), Typed::F64(JsonNumber::Float(1.5f64.to_bits()))),
            ("flag".to_string(), Typed::Bool(true)),
        ]
    );
}

#[test]
fn typed_values_that_do_not_fit_are_skipped() {
    assert_eq!(type_value(FieldKind::U64, &JsonScalar::Number(JsonNumber::NegInt(-1))), None);
    assert_eq!(type_value(FieldKind::Date, &JsonScalar::Str("not a date".to_string())), None);
    assert_eq!(type_value(FieldKind::Date, &JsonScalar::Number(JsonNumber::PosInt(5))), Some(Typed::Date(5)));
    assert_eq!(type_value(FieldKind::I64, &JsonScalar::Number(JsonNumber::PosInt(u64::MAX))), None);
    assert_eq!(type_value(FieldKind::Bool, &JsonScalar::Str("true".to_string())), Some(Typed::Text("true".to_string())));
    assert_eq!(type_value(FieldKind::Text, &JsonScalar::Bool(true)), None);
    assert_eq!(type_value(FieldKind::U64, &JsonScalar::Null), None);
}

#[test]
fn search_fields_and_paging() {
    let schema = vec![
        ("id".to_string(), FieldKind::Text, false),
        ("title".to_string(), FieldKind::Text, true),
        ("n".to_string(), FieldKind::U64, true),
        ("body".to_string(), FieldKind::Text, true),
    ];
    assert_eq!(fields_to_search(&vec![], &schema), vec!["title".to_string(), "body".to_string()]);
    assert_eq!(
        fields_to_search(&vec!["body".to_string(), "nope".to_string(), "n".to_string()], &schema),
        vec!["body".to_string(), "n".to_string()]
    );
    assert_eq!(page_after(vec![1, 2, 3, 4], 2), vec![3, 4]);
    assert_eq!(page_after(vec![1, 2], 5), Vec::<i32>::new());
}

#[test]
fn node_id_is_hex() {
    let id = default_node_id();
    assert!(id.starts_with("node-"));
    assert_eq!(id.len(), 13);
    assert!(id[5..].chars().all(|c| c.is_ascii_digit() || ('a'..='f').contains(&c)));
}
