//! Which version of a language server is the latest, and where to get it.
use crate::server::{CLsp, RustLsp};
use crate::text;
use vstd::prelude::*;

verus! {

/// A release of a language server, as GitHub describes it.
#[derive(Debug, PartialEq, Eq)]
pub struct GithubRelease {
    pub name: String,
    pub assets: Vec<GithubReleaseAsset>,
}

/// A file that belongs to a release.
#[derive(Debug, PartialEq, Eq)]
pub struct GithubReleaseAsset {
    pub name: String,
    pub browser_download_url: String,
}

/// A version of a language server and the place from which to download it.
#[derive(Debug, PartialEq, Eq)]
pub struct LspBinaryVersion {
    pub name: String,
    pub url: String,
}

/// Why no latest version is known.
#[derive(Debug, PartialEq, Eq)]
pub enum ReleaseError {
    /// The request failed, for the reason given.
    Fetch(String),
    /// The reply describes no release, for the reason given.
    Parse(String),
    /// The release has no file of the name given.
    NoAsset(String),
}

/// The text of `error`.
pub open spec fn release_error_text(error: ReleaseError) -> Seq<char> {
    match error {
        ReleaseError::Fetch(reason) => "error fetching latest release: "@ + reason@,
        ReleaseError::Parse(reason) => "error parsing latest release: "@ + reason@,
        ReleaseError::NoAsset(name) => "no release found matching "@ + text::debug_text(name@),
    }
}

impl ReleaseError {
    /// The text of the error. The name of a missing file is put between
    /// quotation marks.
    pub fn message(&self) -> (message: String)
        ensures
            message@ == release_error_text(*self),
            self matches ReleaseError::NoAsset(name) ==> text::is_plain(name@) ==> message@
                == "no release found matching "@ + text::quoted_text(name@),
    {
        match self {
            ReleaseError::Fetch(reason) => text::join(
                "error fetching latest release: ",
                reason.as_str(),
            ),
            ReleaseError::Parse(reason) => text::join(
                "error parsing latest release: ",
                reason.as_str(),
            ),
            ReleaseError::NoAsset(name) => text::join(
                "no release found matching ",
                text::debug(name.as_str()).as_str(),
            ),
        }
    }
}

/// The first of `assets` with the given name is the one at index `i`.
pub open spec fn first_asset(assets: Seq<GithubReleaseAsset>, name: Seq<char>, i: int) -> bool {
    &&& 0 <= i < assets.len()
    &&& assets[i].name@ == name
    &&& forall|k: int| 0 <= k < i ==> (#[trigger] assets[k]).name@ != name
}

/// None of `assets` has the given name.
pub open spec fn no_asset(assets: Seq<GithubReleaseAsset>, name: Seq<char>) -> bool {
    forall|k: int| 0 <= k < assets.len() ==> (#[trigger] assets[k]).name@ != name
}

/// `result` is what looking for the file `name` in `fetched` comes to: the
/// release's own name with the place of the first such file, or an error that
/// says that there is none. A release that could not be had stays an error.
pub open spec fn version_selected(
    fetched: Result<GithubRelease, ReleaseError>,
    name: Seq<char>,
    result: Result<LspBinaryVersion, ReleaseError>,
) -> bool {
    match (fetched, result) {
        (Ok(release), Ok(version)) => version.name@ == release.name@ && exists|i: int|
            #[trigger] first_asset(release.assets@, name, i) && version.url@
                == release.assets@[i].browser_download_url@,
        (Ok(release), Err(error)) => no_asset(release.assets@, name)
            && (error matches ReleaseError::NoAsset(n) && n@ == name),
        (Err(error), _) => result == Err::<LspBinaryVersion, ReleaseError>(error),
    }
}

/// The file for rust-analyzer on a machine of the given architecture.
pub open spec fn rust_asset_name(arch: Seq<char>) -> Seq<char> {
    "rust-analyzer-"@ + arch + "-apple-darwin.gz"@
}

/// The file for clangd in the release of the given name.
pub open spec fn clangd_asset_name(release: Seq<char>) -> Seq<char> {
    "clangd-mac-"@ + release + ".zip"@
}

/// Looks for the file `name` in `release`.
fn select_version(release: GithubRelease, name: String) -> (result: Result<
    LspBinaryVersion,
    ReleaseError,
>)
    ensures
        version_selected(Ok(release), name@, result),
{
    let mut i: usize = 0;
    while i < release.assets.len()
        invariant
            i <= release.assets@.len(),
            forall|k: int| 0 <= k < i ==> (#[trigger] release.assets@[k]).name@ != name@,
        decreases release.assets@.len() - i,
    {
        if release.assets[i].name == name {
            assert(first_asset(release.assets@, name@, i as int));
            let url = release.assets[i].browser_download_url.clone();
            let version = LspBinaryVersion { name: release.name, url };
            let ghost assets = release.assets@;
            assert(exists|k: int| #[trigger]
                first_asset(assets, name@, k) && version.url@ == assets[k].browser_download_url@);
            return Ok(version);
        }
        i = i + 1;
    }
    Err(ReleaseError::NoAsset(name))
}

impl RustLsp {
    /// Where GitHub describes the latest release.
    pub fn latest_release_url(&self) -> (url: &'static str)
        ensures
            url@
                == "https://api.github.com/repos/rust-analyzer/rust-analyzer/releases/latest"@,
    {
        "https://api.github.com/repos/rust-analyzer/rust-analyzer/releases/latest"
    }

    /// The latest version for a machine of the given architecture, from what
    /// was fetched from [`RustLsp::latest_release_url`].
    pub fn fetch_latest_server_version(
        &self,
        fetched: Result<GithubRelease, ReleaseError>,
        arch: &str,
    ) -> (result: Result<LspBinaryVersion, ReleaseError>)
        ensures
            version_selected(fetched, rust_asset_name(arch@), result),
    {
        match fetched {
            Ok(release) => select_version(
                release,
                text::join(text::join("rust-analyzer-", arch).as_str(), "-apple-darwin.gz"),
            ),
            Err(error) => Err(error),
        }
    }
}

impl CLsp {
    /// Where GitHub describes the latest release.
    pub fn latest_release_url(&self) -> (url: &'static str)
        ensures
            url@ == "https://api.github.com/repos/clangd/clangd/releases/latest"@,
    {
        "https://api.github.com/repos/clangd/clangd/releases/latest"
    }

    /// The latest version, from what was fetched from
    /// [`CLsp::latest_release_url`].
    pub fn fetch_latest_server_version(
        &self,
        fetched: Result<GithubRelease, ReleaseError>,
    ) -> (result: Result<LspBinaryVersion, ReleaseError>)
        ensures
            match fetched {
                Ok(release) => version_selected(fetched, clangd_asset_name(release.name@), result),
                Err(error) => result == Err::<LspBinaryVersion, ReleaseError>(error),
            },
    {
        match fetched {
            Ok(release) => {
                let name = text::join(
                    text::join("clangd-mac-", release.name.as_str()).as_str(),
                    ".zip",
                );
                select_version(release, name)
            },
            Err(error) => Err(error),
        }
    }
}

/// A release gives a version exactly where it has a file of the wanted name.
pub proof fn version_known_iff_file_exists(
    release: GithubRelease,
    name: Seq<char>,
    result: Result<LspBinaryVersion, ReleaseError>,
)
    requires
        version_selected(Ok(release), name, result),
    ensures
        result is Ok <==> exists|i: int|
            0 <= i < release.assets@.len() && (#[trigger] release.assets@[i]).name@ == name,
{
}

} // verus!
