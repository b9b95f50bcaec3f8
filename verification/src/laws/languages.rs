//! The languages that the editor knows.
use crate::install::Server;
use crate::languages;
use crate::languages::{Grammar, Language, LanguageRegistry};
use std::borrow::Cow;
use vstd::prelude::*;
use vstd::utf8::*;

verus! {

/// Each language has its own grammar, its own files and its own server: Rust all
/// queries and rust-analyzer, C all but that for brackets and clangd, Markdown
/// the highlights alone.
pub proof fn languages_have_their_own_files(rust: Language, c: Language, markdown: Language)
    requires
        call_ensures(languages::rust, (), rust),
        call_ensures(languages::c, (), c),
        call_ensures(languages::markdown, (), markdown),
    ensures
        rust.grammar == Grammar::Rust,
        rust.config@ == "rust/config.toml"@,
        rust.highlights_query matches Some(query) && query@ == "rust/highlights.scm"@,
        rust.brackets_query matches Some(query) && query@ == "rust/brackets.scm"@,
        rust.indents_query matches Some(query) && query@ == "rust/indents.scm"@,
        rust.outline_query matches Some(query) && query@ == "rust/outline.scm"@,
        rust.server == Some(Server::RustAnalyzer),
        c.grammar == Grammar::C,
        c.config@ == "c/config.toml"@,
        c.highlights_query matches Some(query) && query@ == "c/highlights.scm"@,
        c.brackets_query is None,
        c.indents_query matches Some(query) && query@ == "c/indents.scm"@,
        c.outline_query matches Some(query) && query@ == "c/outline.scm"@,
        c.server == Some(Server::Clangd),
        markdown.grammar == Grammar::Markdown,
        markdown.config@ == "markdown/config.toml"@,
        markdown.highlights_query matches Some(query) && query@ == "markdown/highlights.scm"@,
        markdown.brackets_query is None,
        markdown.indents_query is None,
        markdown.outline_query is None,
        markdown.server is None,
{
}

/// The editor knows C, Rust and Markdown, in this order, as they are by
/// themselves, and puts their servers in one place.
pub proof fn registry_holds_the_languages(
    registry: LanguageRegistry,
    rust: Language,
    c: Language,
    markdown: Language,
)
    requires
        call_ensures(languages::build_language_registry, (), registry),
        call_ensures(languages::rust, (), rust),
        call_ensures(languages::c, (), c),
        call_ensures(languages::markdown, (), markdown),
    ensures
        registry.language_server_download_dir@ == ".zed"@,
        registry.languages@.len() == 3,
        registry.languages@[0] == c,
        registry.languages@[1] == rust,
        registry.languages@[2] == markdown,
{
}

/// A query that was written as text into its file is loaded as that text, and
/// bytes that are part of the program are not copied.
pub proof fn loaded_query_is_what_was_written(
    data: Cow<'static, [u8]>,
    query: Cow<'static, str>,
    written: Seq<char>,
)
    requires
        call_ensures(languages::load_query, (data,), query),
        match data {
            Cow::Borrowed(bytes) => bytes@ == encode_utf8(written),
            Cow::Owned(bytes) => bytes@ == encode_utf8(written),
        },
    ensures
        query@ == written,
        query is Borrowed <==> data is Borrowed,
{
    encode_utf8_valid_utf8(written);
    encode_utf8_decode_utf8(written);
}

} // verus!
