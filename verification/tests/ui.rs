use prism::ui::cache_control_for;

#[test]
fn test_cache_control() {
    assert!(cache_control_for("index.html").contains("no-cache"));
    assert!(cache_control_for("assets/main.js").contains("immutable"));
    assert!(cache_control_for("main.css").contains("immutable"));
    assert!(cache_control_for("favicon.ico").contains("3600"));
}

#[test]
fn cache_control_exact_values() {
    assert_eq!(cache_control_for("a/index.html"), "no-cache, must-revalidate");
    assert_eq!(cache_control_for("x/assets/logo.png"), "public, max-age=31536000, immutable");
    assert_eq!(cache_control_for("logo.png"), "public, max-age=3600");
}
