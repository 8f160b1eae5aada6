use prism::language::{language_from_content, language_from_extension, Language};

#[test]
fn test_extension_rust() {
    assert_eq!(language_from_extension("rs"), Some(Language::Rust));
}

#[test]
fn test_extension_python() {
    assert_eq!(language_from_extension("py"), Some(Language::Python));
}

#[test]
fn test_extension_unknown() {
    assert_eq!(language_from_extension("xyz"), None);
}

#[test]
fn test_shebang_python() {
    let code = "#!/usr/bin/env python3\nimport sys\n";
    assert_eq!(language_from_content(code), Some(Language::Python));
}

#[test]
fn test_shebang_bash() {
    let code = "#!/bin/bash\necho hello\n";
    assert_eq!(language_from_content(code), Some(Language::Bash));
}

#[test]
fn test_keywords_rust() {
    let code = r#"
use std::collections::HashMap;

pub fn process(data: &[u8]) -> Result<(), Error> {
    let mut map = HashMap::new();
    impl Foo for Bar {}
}
"#;
    assert_eq!(language_from_content(code), Some(Language::Rust));
}

#[test]
fn test_keywords_go() {
    let code = r#"
package main

import "fmt"

func main() {
    x := 42
    fmt.Println(x)
}
"#;
    assert_eq!(language_from_content(code), Some(Language::Go));
}

#[test]
fn test_keywords_elixir() {
    let code = r#"
defmodule MyApp.Router do
  use Phoenix.Router

  def index(conn, _params) do
    conn |> render("index.html")
  end
end
"#;
    assert_eq!(language_from_content(code), Some(Language::Elixir));
}

#[test]
fn test_no_detection() {
    assert_eq!(language_from_content(""), None);
    assert_eq!(language_from_content("hello world"), None);
}

#[test]
fn test_extension_sql() {
    assert_eq!(language_from_extension("sql"), Some(Language::Sql));
}

#[test]
fn test_keywords_sql() {
    let code = "SELECT id, name FROM users WHERE active = true ORDER BY name;";
    assert_eq!(language_from_content(code), Some(Language::Sql));
}
