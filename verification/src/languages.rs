//! The languages that the editor knows from the start.
use crate::install::Server;
use std::borrow::Cow;
use vstd::prelude::*;
use vstd::utf8::*;

verus! {

/// Which grammar parses a language.
#[derive(Debug, Clone, Copy, PartialEq, Eq, Structural)]
pub enum Grammar {
    C,
    Markdown,
    Rust,
}

/// A language: its grammar, the files that configure it and hold its queries,
/// and its server. The files are those that come with the editor.
#[derive(Debug, PartialEq, Eq)]
pub struct Language {
    pub grammar: Grammar,
    pub config: &'static str,
    pub highlights_query: Option<&'static str>,
    pub brackets_query: Option<&'static str>,
    pub indents_query: Option<&'static str>,
    pub outline_query: Option<&'static str>,
    pub server: Option<Server>,
}

/// The languages, in the order in which they are added, and the directory for
/// their servers, which lies in the user's home directory.
#[derive(Debug, PartialEq, Eq)]
pub struct LanguageRegistry {
    pub language_server_download_dir: &'static str,
    pub languages: Vec<Language>,
}

/// Rust, with all queries and rust-analyzer.
pub open spec fn rust_language() -> Language {
    Language {
        grammar: Grammar::Rust,
        config: "rust/config.toml",
        highlights_query: Some("rust/highlights.scm"),
        brackets_query: Some("rust/brackets.scm"),
        indents_query: Some("rust/indents.scm"),
        outline_query: Some("rust/outline.scm"),
        server: Some(Server::RustAnalyzer),
    }
}

/// C, with all queries but that for brackets, and clangd.
pub open spec fn c_language() -> Language {
    Language {
        grammar: Grammar::C,
        config: "c/config.toml",
        highlights_query: Some("c/highlights.scm"),
        brackets_query: None,
        indents_query: Some("c/indents.scm"),
        outline_query: Some("c/outline.scm"),
        server: Some(Server::Clangd),
    }
}

/// Markdown, with highlights alone and no server.
pub open spec fn markdown_language() -> Language {
    Language {
        grammar: Grammar::Markdown,
        config: "markdown/config.toml",
        highlights_query: Some("markdown/highlights.scm"),
        brackets_query: None,
        indents_query: None,
        outline_query: None,
        server: None,
    }
}

/// Rust.
pub fn rust() -> (language: Language)
    ensures
        language == rust_language(),
{
    Language {
        grammar: Grammar::Rust,
        config: "rust/config.toml",
        highlights_query: Some("rust/highlights.scm"),
        brackets_query: Some("rust/brackets.scm"),
        indents_query: Some("rust/indents.scm"),
        outline_query: Some("rust/outline.scm"),
        server: Some(Server::RustAnalyzer),
    }
}

/// C.
pub fn c() -> (language: Language)
    ensures
        language == c_language(),
{
    Language {
        grammar: Grammar::C,
        config: "c/config.toml",
        highlights_query: Some("c/highlights.scm"),
        brackets_query: None,
        indents_query: Some("c/indents.scm"),
        outline_query: Some("c/outline.scm"),
        server: Some(Server::Clangd),
    }
}

/// Markdown.
pub fn markdown() -> (language: Language)
    ensures
        language == markdown_language(),
{
    Language {
        grammar: Grammar::Markdown,
        config: "markdown/config.toml",
        highlights_query: Some("markdown/highlights.scm"),
        brackets_query: None,
        indents_query: None,
        outline_query: None,
        server: None,
    }
}

/// The languages that the editor knows, and where their servers go.
pub fn build_language_registry() -> (registry: LanguageRegistry)
    ensures
        registry.language_server_download_dir@ == ".zed"@,
        registry.languages@ == seq![c_language(), rust_language(), markdown_language()],
{
    let mut languages: Vec<Language> = Vec::new();
    languages.push(c());
    languages.push(rust());
    languages.push(markdown());
    assert(languages@ =~= seq![c_language(), rust_language(), markdown_language()]);
    LanguageRegistry { language_server_download_dir: ".zed", languages }
}

/// The failure of `str::from_utf8`.
#[verifier::external_type_specification]
#[verifier::external_body]
pub struct ExUtf8Error(core::str::Utf8Error);

/// The failure of `String::from_utf8`.
#[verifier::external_type_specification]
#[verifier::external_body]
pub struct ExFromUtf8Error(std::string::FromUtf8Error);

/// `str::from_utf8` succeeds exactly on bytes that are valid UTF-8, and gives
/// the text that they encode.
pub assume_specification[ core::str::from_utf8 ](v: &[u8]) -> (result: Result<
    &str,
    core::str::Utf8Error,
>)
    ensures
        result is Ok <==> valid_utf8(v@),
        result is Ok ==> result->Ok_0@ == decode_utf8(v@),
;

/// `String::from_utf8` succeeds exactly on bytes that are valid UTF-8, and gives
/// the text that they encode.
pub assume_specification[ String::from_utf8 ](vec: Vec<u8>) -> (result: Result<
    String,
    std::string::FromUtf8Error,
>)
    ensures
        result is Ok <==> valid_utf8(vec@),
        result is Ok ==> result->Ok_0@ == decode_utf8(vec@),
;

/// The bytes of a file.
pub open spec fn file_bytes(data: Cow<'static, [u8]>) -> Seq<u8> {
    match data {
        Cow::Borrowed(bytes) => bytes@,
        Cow::Owned(bytes) => bytes@,
    }
}

/// The text of a query, from the bytes of its file. Bytes that are part of the
/// program are not copied.
pub fn load_query(data: Cow<'static, [u8]>) -> (query: Cow<'static, str>)
    requires
        valid_utf8(file_bytes(data)),
    ensures
        query@ == decode_utf8(file_bytes(data)),
        query is Borrowed <==> data is Borrowed,
{
    match data {
        Cow::Borrowed(s) => Cow::Borrowed(core::str::from_utf8(s).unwrap()),
        Cow::Owned(s) => Cow::Owned(String::from_utf8(s).unwrap()),
    }
}

/// Loading a query gives back exactly the text whose encoding the file holds.
pub proof fn query_is_what_was_written(query: Seq<char>)
    ensures
        valid_utf8(encode_utf8(query)),
        decode_utf8(encode_utf8(query)) == query,
{
    encode_utf8_valid_utf8(query);
    encode_utf8_decode_utf8(query);
}

} // verus!
