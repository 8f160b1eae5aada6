use prism::api_types::{
    index_name_of, project_name, AliasAction, AliasActionParams, BulkAliasRequest, ContextRequest,
    HighlightConfig, MnemosSearchRequest, ResponseMeta, RootResponse, SearchContext, SessionInitRequest,
    SessionInitResponse,
};

fn init(path: &str) -> SessionInitResponse {
    SessionInitResponse::for_request(&SessionInitRequest { folder_path: path.to_string(), context_hint: None })
}

#[test]
fn test_session_init_extracts_project_name() {
    let data = init("/home/user/projects/my-app");
    assert_eq!(data.project_name, "my-app");
    assert_eq!(data.project_id, "my-app");
    assert_eq!(data.workspace_id, "default");
}

#[test]
fn test_session_init_trailing_slash() {
    assert_eq!(init("/home/user/project/").project_name, "project");
}

#[test]
fn test_session_init_root_path() {
    assert_eq!(init("/").project_name, "default");
}

#[test]
fn test_session_init_single_segment() {
    assert_eq!(init("my-project").project_name, "my-project");
}

#[test]
fn test_response_meta_default() {
    let meta = ResponseMeta::default();
    assert_eq!(meta.tokens_used, 0);
}

#[test]
fn project_name_edge_cases() {
    assert_eq!(project_name(""), "default");
    assert_eq!(project_name("a//b//"), "b");
    assert_eq!(project_name("///"), "default");
}

#[test]
fn request_limits() {
    let c = ContextRequest { user_message: "x".to_string(), format: None, max_tokens: None };
    assert_eq!(c.result_limit(), 8);
    let c = ContextRequest { user_message: "x".to_string(), format: None, max_tokens: Some(120) };
    assert_eq!(c.result_limit(), 2);
    let s = MnemosSearchRequest { mode: "m".to_string(), query: "q".to_string(), limit: None, output_format: None };
    assert_eq!(s.result_limit(), 10);
}

#[test]
fn ilm_index_name() {
    assert_eq!(index_name_of("logs-2026.01.29-000001"), "logs");
    assert_eq!(index_name_of("plain"), "plain");
    assert_eq!(index_name_of("-x"), "");
}

#[test]
fn alias_actions_split() {
    let p = |a: &str, i: &str| AliasActionParams { alias: a.to_string(), index: i.to_string() };
    let req = BulkAliasRequest {
        actions: vec![
            AliasAction { add: Some(p("a1", "i1")), remove: None },
            AliasAction { add: None, remove: Some(p("a2", "i2")) },
            AliasAction { add: Some(p("a3", "i3")), remove: Some(p("a4", "i4")) },
        ],
    };
    let (adds, removes) = req.split_actions();
    assert_eq!(adds, vec![("a1".to_string(), "i1".to_string()), ("a3".to_string(), "i3".to_string())]);
    assert_eq!(removes, vec![("a2".to_string(), "i2".to_string()), ("a4".to_string(), "i4".to_string())]);
}

#[test]
fn search_context_entries() {
    let ctx = SearchContext { project_id: Some("p".to_string()), session_id: Some("s".to_string()) };
    assert_eq!(
        ctx.entries(),
        vec![("project_id".to_string(), "p".to_string()), ("session_id".to_string(), "s".to_string())]
    );
    assert!(SearchContext::default().entries().is_empty());
}

#[test]
fn defaults_of_records() {
    let h = HighlightConfig::for_fields(vec!["title".to_string()]);
    assert_eq!((h.pre_tag.as_str(), h.post_tag.as_str(), h.fragment_size, h.number_of_fragments), ("<em>", "</em>", 150, 3));
    let r = RootResponse::for_version("1.2.3");
    assert_eq!((r.name.as_str(), r.status.as_str(), r.tagline.as_str()), ("prism", "ok", "You Know, for Search"));
}
