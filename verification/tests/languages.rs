use std::borrow::Cow;
use zed_languages::install::Server;
use zed_languages::languages::{
    build_language_registry, c, load_query, markdown, rust, Grammar, Language,
};

#[test]
fn registry_holds_c_then_rust_then_markdown() {
    let registry = build_language_registry();
    assert_eq!(registry.language_server_download_dir, ".zed");
    assert_eq!(registry.languages, vec![c(), rust(), markdown()]);
}

#[test]
fn languages_name_their_files() {
    assert_eq!(
        rust(),
        Language {
            grammar: Grammar::Rust,
            config: "rust/config.toml",
            highlights_query: Some("rust/highlights.scm"),
            brackets_query: Some("rust/brackets.scm"),
            indents_query: Some("rust/indents.scm"),
            outline_query: Some("rust/outline.scm"),
            server: Some(Server::RustAnalyzer),
        }
    );
    assert_eq!(
        c(),
        Language {
            grammar: Grammar::C,
            config: "c/config.toml",
            highlights_query: Some("c/highlights.scm"),
            brackets_query: None,
            indents_query: Some("c/indents.scm"),
            outline_query: Some("c/outline.scm"),
            server: Some(Server::Clangd),
        }
    );
    assert_eq!(
        markdown(),
        Language {
            grammar: Grammar::Markdown,
            config: "markdown/config.toml",
            highlights_query: Some("markdown/highlights.scm"),
            brackets_query: None,
            indents_query: None,
            outline_query: None,
            server: None,
        }
    );
}

#[test]
fn queries_are_loaded_as_text() {
    let borrowed = load_query(Cow::Borrowed("(é) @type".as_bytes()));
    assert!(matches!(borrowed, Cow::Borrowed("(é) @type")));
    let owned = load_query(Cow::Owned("(é) @type".as_bytes().to_vec()));
    assert!(matches!(&owned, Cow::Owned(text) if text == "(é) @type"));
}
