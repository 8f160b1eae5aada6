use prism::doc_fields::{
    context_from_fields, hit_content, memory_item, observation_item, result_to_simple, search_result_of, FieldValue,
};

fn text(name: &str, value: &str) -> (String, FieldValue) {
    (name.to_string(), FieldValue::Text(value.to_string()))
}

fn other(name: &str) -> (String, FieldValue) {
    (name.to_string(), FieldValue::Other)
}

#[test]
fn simple_result_takes_title_url_and_snippet() {
    let fields = vec![text("title", "Hello"), text("url", "https://x"), text("content", "body")];
    let r = result_to_simple("d1".to_string(), 1.5f32.to_bits(), &fields);
    assert_eq!(r.id, "d1");
    assert_eq!(r.title.as_deref(), Some("Hello"));
    assert_eq!(r.url.as_deref(), Some("https://x"));
    assert_eq!(r.snippet.as_deref(), Some("body"));
    assert_eq!(f32::from_bits(r.score_bits), 1.5);
}

#[test]
fn simple_result_link_and_description_fallbacks() {
    let fields = vec![text("link", "https://y"), text("description", "desc")];
    let r = result_to_simple("d2".to_string(), 0, &fields);
    assert_eq!(r.title, None);
    assert_eq!(r.url.as_deref(), Some("https://y"));
    assert_eq!(r.snippet.as_deref(), Some("desc"));
}

#[test]
fn simple_result_present_non_text_field_wins() {
    // A url field that is not text hides the link field.
    let fields = vec![other("url"), text("link", "https://y"), other("snippet"), text("content", "c")];
    let r = result_to_simple("d3".to_string(), 0, &fields);
    assert_eq!(r.url, None);
    assert_eq!(r.snippet, None);
}

#[test]
fn hit_content_falls_back_to_summary_text() {
    assert_eq!(hit_content(&[text("content", "a"), text("summary", "b")]), "a");
    assert_eq!(hit_content(&[other("content"), text("summary", "b")]), "b");
    assert_eq!(hit_content(&[other("summary")]), "");
}

#[test]
fn context_items_skip_empty_content() {
    let it = observation_item("o1", 2, &[text("summary", "sum")]).unwrap();
    assert_eq!(it.content, "sum");
    assert_eq!(it.source, "observation:o1");
    assert_eq!(it.relevance_bits, Some(2));
    assert!(observation_item("o2", 2, &[text("content", "")]).is_none());
    // Memories read only the content field.
    assert!(memory_item("m1", 3, &[text("summary", "sum")]).is_none());
    let m = memory_item("m2", 3, &[text("content", "mem")]).unwrap();
    assert_eq!(m.source, "memory:m2");
    assert_eq!(m.content, "mem");
}

#[test]
fn search_result_path_and_content() {
    let r = search_result_of("memories", "42", 7, &[text("summary", "s")]);
    assert_eq!(r.path, "memories:42");
    assert_eq!(r.content, "s");
    assert_eq!(r.line, None);
    assert_eq!(r.score_bits, Some(7));
}

#[test]
fn boosting_context_from_fields() {
    let fields = vec![text("file_path", "a.rs"), other("session_id"), text("project_id", "p"), text("x", "y")];
    let ctx = context_from_fields(&fields);
    assert_eq!(ctx, vec![("project_id".to_string(), "p".to_string()), ("file_path".to_string(), "a.rs".to_string())]);
}
