//! The latest version of a language server.
use crate::release;
use crate::release::{GithubRelease, LspBinaryVersion, ReleaseError};
use crate::server::{CLsp, RustLsp};
use crate::text;
use vstd::prelude::*;

verus! {

/// The first file of a release that is named `rust-analyzer-`, then the
/// architecture, then `-apple-darwin.gz`, and nothing else, is the one to
/// download.
pub proof fn rust_analyzer_for_the_architecture_is_found(
    lsp: RustLsp,
    release: GithubRelease,
    arch: &str,
    i: int,
    result: Result<LspBinaryVersion, ReleaseError>,
)
    requires
        call_ensures(RustLsp::fetch_latest_server_version, (&lsp, Ok(release), arch), result),
        0 <= i < release.assets@.len(),
        release.assets@[i].name@ == "rust-analyzer-"@ + arch@ + "-apple-darwin.gz"@,
        forall|k: int|
            0 <= k < i ==> (#[trigger] release.assets@[k]).name@ != "rust-analyzer-"@ + arch@
                + "-apple-darwin.gz"@,
    ensures
        result is Ok,
        result->Ok_0.name@ == release.name@,
        result->Ok_0.url@ == release.assets@[i].browser_download_url@,
{
}

/// A version of rust-analyzer is only ever downloaded from the place of a file
/// that is named `rust-analyzer-`, then the architecture, then
/// `-apple-darwin.gz`, and nothing else.
pub proof fn rust_analyzer_comes_from_a_file_for_the_architecture(
    lsp: RustLsp,
    fetched: Result<GithubRelease, ReleaseError>,
    arch: &str,
    result: Result<LspBinaryVersion, ReleaseError>,
)
    requires
        call_ensures(RustLsp::fetch_latest_server_version, (&lsp, fetched, arch), result),
        result is Ok,
    ensures
        fetched is Ok,
        result->Ok_0.name@ == fetched->Ok_0.name@,
        exists|i: int|
            0 <= i < fetched->Ok_0.assets@.len() && (#[trigger] fetched->Ok_0.assets@[i]).name@
                == "rust-analyzer-"@ + arch@ + "-apple-darwin.gz"@
                && fetched->Ok_0.assets@[i].browser_download_url@ == result->Ok_0.url@,
{
    let assets = fetched->Ok_0.assets@;
    let i = choose|i: int| #[trigger]
        release::first_asset(assets, release::rust_asset_name(arch@), i)
            && result->Ok_0.url@ == assets[i].browser_download_url@;
    assert(0 <= i < assets.len());
}

/// A release without a file for the architecture gives an error that names the
/// file; what could not be fetched stays the error that it was.
pub proof fn rust_analyzer_that_is_missing_is_named(
    lsp: RustLsp,
    fetched: Result<GithubRelease, ReleaseError>,
    arch: &str,
    result: Result<LspBinaryVersion, ReleaseError>,
)
    requires
        call_ensures(RustLsp::fetch_latest_server_version, (&lsp, fetched, arch), result),
        result is Err,
    ensures
        fetched is Err ==> result->Err_0 == fetched->Err_0,
        fetched is Ok ==> (result->Err_0 matches ReleaseError::NoAsset(name) && name@
            == "rust-analyzer-"@ + arch@ + "-apple-darwin.gz"@),
        fetched is Ok ==> forall|k: int|
            0 <= k < fetched->Ok_0.assets@.len() ==> (#[trigger] fetched->Ok_0.assets@[k]).name@
                != "rust-analyzer-"@ + arch@ + "-apple-darwin.gz"@,
{
}

/// The first file of a release that is named `clangd-mac-`, then as the release
/// itself, then `.zip`, and nothing else, is the one to download.
pub proof fn clangd_of_the_release_is_found(
    lsp: CLsp,
    release: GithubRelease,
    i: int,
    result: Result<LspBinaryVersion, ReleaseError>,
)
    requires
        call_ensures(CLsp::fetch_latest_server_version, (&lsp, Ok(release)), result),
        0 <= i < release.assets@.len(),
        release.assets@[i].name@ == "clangd-mac-"@ + release.name@ + ".zip"@,
        forall|k: int|
            0 <= k < i ==> (#[trigger] release.assets@[k]).name@ != "clangd-mac-"@ + release.name@
                + ".zip"@,
    ensures
        result is Ok,
        result->Ok_0.name@ == release.name@,
        result->Ok_0.url@ == release.assets@[i].browser_download_url@,
{
}

/// A version of clangd is only ever downloaded from the place of a file that is
/// named `clangd-mac-`, then as the release itself, then `.zip`, and nothing
/// else.
pub proof fn clangd_comes_from_a_file_of_the_release(
    lsp: CLsp,
    fetched: Result<GithubRelease, ReleaseError>,
    result: Result<LspBinaryVersion, ReleaseError>,
)
    requires
        call_ensures(CLsp::fetch_latest_server_version, (&lsp, fetched), result),
        result is Ok,
    ensures
        fetched is Ok,
        result->Ok_0.name@ == fetched->Ok_0.name@,
        exists|i: int|
            0 <= i < fetched->Ok_0.assets@.len() && (#[trigger] fetched->Ok_0.assets@[i]).name@
                == "clangd-mac-"@ + fetched->Ok_0.name@ + ".zip"@
                && fetched->Ok_0.assets@[i].browser_download_url@ == result->Ok_0.url@,
{
    let assets = fetched->Ok_0.assets@;
    let i = choose|i: int| #[trigger]
        release::first_asset(assets, release::clangd_asset_name(fetched->Ok_0.name@), i)
            && result->Ok_0.url@ == assets[i].browser_download_url@;
    assert(0 <= i < assets.len());
}

/// A release without the file of clangd gives an error that names the file; what
/// could not be fetched stays the error that it was.
pub proof fn clangd_that_is_missing_is_named(
    lsp: CLsp,
    fetched: Result<GithubRelease, ReleaseError>,
    result: Result<LspBinaryVersion, ReleaseError>,
)
    requires
        call_ensures(CLsp::fetch_latest_server_version, (&lsp, fetched), result),
        result is Err,
    ensures
        fetched is Err ==> result->Err_0 == fetched->Err_0,
        fetched is Ok ==> (result->Err_0 matches ReleaseError::NoAsset(name) && name@
            == "clangd-mac-"@ + fetched->Ok_0.name@ + ".zip"@),
        fetched is Ok ==> forall|k: int|
            0 <= k < fetched->Ok_0.assets@.len() ==> (#[trigger] fetched->Ok_0.assets@[k]).name@
                != "clangd-mac-"@ + fetched->Ok_0.name@ + ".zip"@,
{
}

/// The two servers are looked up in their own projects.
pub proof fn releases_are_those_of_the_projects(
    rust: RustLsp,
    c: CLsp,
    rust_url: &'static str,
    c_url: &'static str,
)
    requires
        call_ensures(RustLsp::latest_release_url, (&rust,), rust_url),
        call_ensures(CLsp::latest_release_url, (&c,), c_url),
    ensures
        rust_url@ == "https://api.github.com/repos/rust-analyzer/rust-analyzer/releases/latest"@,
        c_url@ == "https://api.github.com/repos/clangd/clangd/releases/latest"@,
{
}

/// The text of an error ends with the reason, or with the name of the file as
/// formatting with `{:?}` gives it. A name of letters, digits, hyphens,
/// underscores and dots stands between quotation marks as it is.
pub proof fn release_errors_say_why(error: ReleaseError, message: String)
    requires
        call_ensures(ReleaseError::message, (&error,), message),
    ensures
        match error {
            ReleaseError::Fetch(reason) => message@ == "error fetching latest release: "@ + reason@,
            ReleaseError::Parse(reason) => message@ == "error parsing latest release: "@ + reason@,
            ReleaseError::NoAsset(name) => {
                &&& message@ == "no release found matching "@ + text::debug_text(name@)
                &&& (forall|i: int|
                    0 <= i < name@.len() ==> ('a' <= #[trigger] name@[i] <= 'z' || 'A' <= name@[i]
                        <= 'Z' || '0' <= name@[i] <= '9' || name@[i] == '-' || name@[i] == '_'
                        || name@[i] == '.')) ==> message@ == "no release found matching "@ + (
                seq!['"'] + name@ + seq!['"'])
            },
        },
{
}

} // verus!
