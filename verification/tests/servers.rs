use zed_languages::cache::CacheError;
use zed_languages::install::{Action, Event, Install, InstallError, Stage};
use zed_languages::release::{
    GithubRelease, GithubReleaseAsset, LspBinaryVersion, ReleaseError,
};
use zed_languages::server::{CLsp, RustLsp};

fn release(name: &str, assets: Vec<(&str, &str)>) -> GithubRelease {
    GithubRelease {
        name: name.to_string(),
        assets: assets
            .into_iter()
            .map(|(name, url)| GithubReleaseAsset {
                name: name.to_string(),
                browser_download_url: url.to_string(),
            })
            .collect(),
    }
}

fn version(name: &str) -> LspBinaryVersion {
    LspBinaryVersion {
        name: name.to_string(),
        url: "https://example.com/file".to_string(),
    }
}

fn failed() -> Event {
    Event::Failed("no luck".to_string())
}

fn entry(name: &str) -> Event {
    Event::Entry(Some(name.to_string()))
}

/// All actions that come up when `events` happen one after the other.
fn actions(mut install: Install, events: Vec<Event>) -> Vec<Action> {
    let mut actions = vec![install.action()];
    for event in events {
        install = install.step(event);
        actions.push(install.action());
    }
    actions
}

fn stage(mut install: Install, events: Vec<Event>) -> Stage {
    for event in events {
        install = install.step(event);
    }
    install.stage
}

#[test]
fn releases_are_described_by_github() {
    assert_eq!(
        RustLsp.latest_release_url(),
        "https://api.github.com/repos/rust-analyzer/rust-analyzer/releases/latest"
    );
    assert_eq!(
        CLsp.latest_release_url(),
        "https://api.github.com/repos/clangd/clangd/releases/latest"
    );
}

#[test]
fn rust_version_is_the_first_file_for_the_architecture() {
    let release = release(
        "2022-03-21",
        vec![
            ("rust-analyzer-x86_64-apple-darwin.gz", "https://a"),
            ("rust-analyzer-aarch64-apple-darwin.gz", "https://b"),
            ("rust-analyzer-aarch64-apple-darwin.gz", "https://c"),
        ],
    );
    assert_eq!(
        RustLsp.fetch_latest_server_version(Ok(release), "aarch64"),
        Ok(LspBinaryVersion {
            name: "2022-03-21".to_string(),
            url: "https://b".to_string(),
        })
    );
}

#[test]
fn clangd_version_is_named_in_its_file() {
    let found = release("14.0.3", vec![("clangd-mac-14.0.3.zip", "https://a")]);
    assert_eq!(
        CLsp.fetch_latest_server_version(Ok(found)),
        Ok(LspBinaryVersion {
            name: "14.0.3".to_string(),
            url: "https://a".to_string(),
        })
    );
    let other = release("14.0.4", vec![("clangd-mac-14.0.3.zip", "https://a")]);
    assert_eq!(
        CLsp.fetch_latest_server_version(Ok(other)),
        Err(ReleaseError::NoAsset("clangd-mac-14.0.4.zip".to_string()))
    );
}

#[test]
fn release_errors_have_texts() {
    let missing = RustLsp
        .fetch_latest_server_version(Ok(release("1", vec![])), "x\"y")
        .unwrap_err();
    assert_eq!(
        missing.message(),
        "no release found matching \"rust-analyzer-x\\\"y-apple-darwin.gz\""
    );
    let fetch = RustLsp
        .fetch_latest_server_version(Err(ReleaseError::Fetch("timeout".to_string())), "x86_64")
        .unwrap_err();
    assert_eq!(fetch.message(), "error fetching latest release: timeout");
    let parse = CLsp
        .fetch_latest_server_version(Err(ReleaseError::Parse("eof".to_string())))
        .unwrap_err();
    assert_eq!(parse.message(), "error parsing latest release: eof");
}

#[test]
fn rust_analyzer_is_downloaded_and_made_executable() {
    let binary = || "rust-analyzer/rust-analyzer-2022-03-21".to_string();
    assert_eq!(
        actions(
            RustLsp.fetch_server_binary(version("2022-03-21")),
            vec![
                Event::Done,
                failed(),
                Event::Answered(200),
                Event::Done,
                Event::Done,
                Event::Done,
                Event::Done,
                entry("rust-analyzer-2022-03-14"),
                Event::Done,
                entry("rust-analyzer-2022-03-21"),
                Event::Entry(None),
                failed(),
                failed(),
                Event::NoEntry,
            ]
        ),
        vec![
            Action::MakeDirectory("rust-analyzer".to_string()),
            Action::Probe(binary()),
            Action::Request("https://example.com/file".to_string()),
            Action::MakeFile(binary()),
            Action::WriteDecompressed,
            Action::SetMode(binary(), 493),
            Action::List("rust-analyzer".to_string()),
            Action::ReadEntry,
            Action::RemoveFile,
            Action::ReadEntry,
            Action::ReadEntry,
            Action::RemoveFile,
            Action::ReadEntry,
            Action::ReadEntry,
            Action::Return(binary()),
        ]
    );
}

#[test]
fn clangd_is_downloaded_and_unpacked() {
    let archive = || "clangd/clangd_14.0.3.zip".to_string();
    let binary = || "clangd/clangd_14.0.3/bin/clangd".to_string();
    assert_eq!(
        actions(
            CLsp.fetch_server_binary(version("14.0.3")),
            vec![
                Event::Done,
                failed(),
                Event::Answered(200),
                Event::Done,
                Event::Done,
                Event::Unzipped(true),
                Event::Done,
                entry("clangd_14.0.3"),
                entry("clangd_14.0.3.zip"),
                failed(),
                Event::NoEntry,
            ]
        ),
        vec![
            Action::MakeDirectory("clangd".to_string()),
            Action::Probe(binary()),
            Action::Request("https://example.com/file".to_string()),
            Action::MakeFile(archive()),
            Action::Write,
            Action::Unzip("clangd".to_string(), archive()),
            Action::List("clangd".to_string()),
            Action::ReadEntry,
            Action::ReadEntry,
            Action::RemoveDirectory,
            Action::ReadEntry,
            Action::Return(binary()),
        ]
    );
}

#[test]
fn present_binary_is_returned_at_once() {
    let events = || vec![Event::Done, Event::Done, failed(), Event::Answered(200)];
    assert_eq!(
        stage(RustLsp.fetch_server_binary(version("1")), events()),
        Stage::Installed
    );
    assert_eq!(
        stage(CLsp.fetch_server_binary(version("1")), events()),
        Stage::Installed
    );
}

#[test]
fn unlisted_directory_is_no_failure() {
    let events = vec![
        Event::Done,
        failed(),
        Event::Answered(200),
        Event::Done,
        Event::Done,
        Event::Done,
        failed(),
    ];
    assert_eq!(
        stage(RustLsp.fetch_server_binary(version("1")), events),
        Stage::Installed
    );
}

#[test]
fn each_failure_has_its_error() {
    let io = || Stage::Failed(InstallError::Io("no luck".to_string()));
    let rust = |events| stage(RustLsp.fetch_server_binary(version("1")), events);
    let clangd = |events| stage(CLsp.fetch_server_binary(version("1")), events);
    let answered = |status| vec![Event::Done, failed(), Event::Answered(status)];
    let then = |mut events: Vec<Event>, more: Vec<Event>| {
        events.extend(more);
        events
    };

    assert_eq!(rust(vec![failed()]), io());
    assert_eq!(
        clangd(vec![failed()]),
        Stage::Failed(InstallError::Directory("no luck".to_string()))
    );
    let download = || Stage::Failed(InstallError::Download("no luck".to_string()));
    assert_eq!(rust(vec![Event::Done, failed(), failed()]), download());
    assert_eq!(clangd(vec![Event::Done, failed(), failed()]), download());

    assert_eq!(rust(then(answered(200), vec![failed()])), io());
    assert_eq!(rust(then(answered(200), vec![Event::Done, failed()])), io());
    assert_eq!(
        rust(then(answered(200), vec![Event::Done, Event::Done, failed()])),
        io()
    );
    // the status counts for clangd alone, and only once the file is there
    assert_eq!(
        rust(then(answered(404), vec![Event::Done])),
        Stage::Writing
    );
    assert_eq!(clangd(then(answered(404), vec![failed()])), io());
    assert_eq!(
        clangd(then(answered(404), vec![Event::Done])),
        Stage::Failed(InstallError::Status(404))
    );
    assert_eq!(
        clangd(then(answered(199), vec![Event::Done])),
        Stage::Failed(InstallError::Status(199))
    );
    assert_eq!(
        clangd(then(answered(299), vec![Event::Done])),
        Stage::Writing
    );
    assert_eq!(
        clangd(then(answered(300), vec![Event::Done])),
        Stage::Failed(InstallError::Status(300))
    );
    assert_eq!(
        clangd(then(
            answered(200),
            vec![Event::Done, Event::Done, Event::Unzipped(false)]
        )),
        Stage::Failed(InstallError::Unzip)
    );
    assert_eq!(
        clangd(then(answered(200), vec![Event::Done, Event::Done, failed()])),
        io()
    );
    let given_up = then(answered(404), vec![Event::Done, Event::Done]);
    assert_eq!(clangd(given_up), Stage::Failed(InstallError::Status(404)));
}

#[test]
fn what_answers_nothing_changes_nothing() {
    assert_eq!(
        stage(
            CLsp.fetch_server_binary(version("1")),
            vec![Event::NoEntry, Event::Unzipped(true), Event::Answered(200)]
        ),
        Stage::MakingDirectory
    );
    let failed = CLsp
        .fetch_server_binary(version("1"))
        .step(Event::Failed("x".to_string()));
    assert_eq!(failed.action(), Action::Fail);
}

#[test]
fn install_errors_have_texts() {
    let text = |error: InstallError| error.message();
    assert_eq!(
        text(InstallError::Directory("x".to_string())),
        "failed to create container directory"
    );
    assert_eq!(text(InstallError::Io("denied".to_string())), "denied");
    assert_eq!(
        text(InstallError::Download("x".to_string())),
        "error downloading release: x"
    );
    assert_eq!(
        text(InstallError::Status(404)),
        "download failed with status 404"
    );
    assert_eq!(
        text(InstallError::Status(0)),
        "download failed with status 0"
    );
    assert_eq!(
        text(InstallError::Status(65535)),
        "download failed with status 65535"
    );
    assert_eq!(
        text(InstallError::Unzip),
        "failed to unzip clangd archive"
    );
}

#[test]
fn entries_are_compared_by_components() {
    let reading = |name: &str, entry: &str| {
        let install = Install {
            stage: Stage::Reading,
            ..CLsp.fetch_server_binary(version(name))
        };
        install.step(Event::Entry(Some(entry.to_string()))).stage
    };
    assert_eq!(reading("1", "clangd_1"), Stage::Reading);
    assert_eq!(reading("1/", "clangd_1"), Stage::Reading);
    assert_eq!(reading("1/.//", "clangd_1"), Stage::Reading);
    assert_eq!(reading("1/..", "clangd_1"), Stage::Removing);
    assert_eq!(reading("1/a", "clangd_1"), Stage::Removing);
    assert_eq!(reading("1/.a", "clangd_1"), Stage::Removing);
    assert_eq!(reading("11", "clangd_1"), Stage::Removing);
    assert_eq!(reading("1", "clangd_11"), Stage::Removing);
    let name = CLsp.fetch_server_binary(version("1/"));
    assert_eq!(
        name.step(Event::Done).action(),
        Action::Probe("clangd/clangd_1/bin/clangd".to_string())
    );
}

fn bytes(name: &str) -> Vec<u8> {
    name.as_bytes().to_vec()
}

#[test]
fn last_entry_is_the_cached_rust_analyzer() {
    let cached = |entries| RustLsp.cached_server_binary(entries);
    assert_eq!(
        cached(Ok(vec![Ok(bytes("a")), Ok(bytes("c")), Ok(bytes("b"))])),
        Ok(bytes("rust-analyzer/b"))
    );
    // a name need not be text
    assert_eq!(
        cached(Ok(vec![Ok(vec![255])])),
        Ok([bytes("rust-analyzer/"), vec![255]].concat())
    );
    assert_eq!(
        cached(Ok(vec![])),
        Err(CacheError::NoCachedBinary)
    );
    assert_eq!(
        cached(Ok(vec![
            Ok(bytes("a")),
            Err("a".to_string()),
            Err("b".to_string()),
            Ok(bytes("b"))
        ])),
        Err(CacheError::Unreadable("a".to_string()))
    );
    assert_eq!(
        cached(Err("c".to_string())),
        Err(CacheError::Unreadable("c".to_string()))
    );
}

#[test]
fn last_directory_holds_the_cached_clangd() {
    let cached = |entries| CLsp.cached_server_dir(entries);
    assert_eq!(
        cached(Ok(vec![
            Ok((bytes("a"), true)),
            Ok((bytes("b"), true)),
            Ok((bytes("c"), false))
        ])),
        Ok(bytes("clangd/b"))
    );
    assert_eq!(
        cached(Ok(vec![Ok((bytes("a"), false))])),
        Err(CacheError::NoCachedBinary)
    );
    assert_eq!(
        cached(Ok(vec![Ok((bytes("a"), true)), Err("a".to_string())])),
        Err(CacheError::Unreadable("a".to_string()))
    );
    assert_eq!(
        cached(Err("c".to_string())),
        Err(CacheError::Unreadable("c".to_string()))
    );
}

#[test]
fn cached_clangd_is_in_the_directory_found() {
    let shown = || "\"/x/clangd/b\"".to_string();
    let dir = bytes("clangd/b");
    assert_eq!(CLsp.binary_in_version(&dir), bytes("clangd/b/bin/clangd"));
    assert_eq!(
        CLsp.cached_server_binary(&dir, shown(), true),
        Ok(bytes("clangd/b/bin/clangd"))
    );
    assert_eq!(
        CLsp.cached_server_binary(&bytes("clangd/b/"), shown(), true),
        Ok(bytes("clangd/b/bin/clangd"))
    );
    assert_eq!(
        CLsp.cached_server_binary(&vec![], shown(), true),
        Ok(bytes("bin/clangd"))
    );
    assert_eq!(
        CLsp.cached_server_binary(&dir, shown(), false),
        Err(CacheError::MissingBinary(shown()))
    );
}

#[test]
fn cache_errors_have_texts() {
    assert_eq!(
        CacheError::Unreadable("denied".to_string()).message(),
        "denied"
    );
    assert_eq!(CacheError::NoCachedBinary.message(), "no cached binary");
    assert_eq!(
        CacheError::MissingBinary("\"/x\"".to_string()).message(),
        "missing clangd binary in directory \"/x\""
    );
}

#[test]
fn cached_rust_analyzer_is_the_installed_one() {
    let returned = |name: &str| {
        RustLsp
            .fetch_server_binary(version(name))
            .step(Event::Done)
            .step(Event::Done)
            .action()
    };
    // what cleaning up leaves in the directory, after an installation of the
    // version of that name
    let cached = RustLsp
        .cached_server_binary(Ok(vec![Ok(bytes("rust-analyzer-7"))]))
        .unwrap();
    let cached = String::from_utf8(cached).unwrap();
    assert_eq!(returned("7"), Action::Return(cached.clone()));
    assert_eq!(returned("7/."), Action::Return(format!("{}/.", cached)));
}

#[test]
fn cached_clangd_is_the_installed_one() {
    let returned = |name: &str| {
        CLsp.fetch_server_binary(version(name))
            .step(Event::Done)
            .step(Event::Done)
            .action()
    };
    let dir = CLsp
        .cached_server_dir(Ok(vec![
            Ok((bytes("clangd_7"), true)),
            Ok((bytes("clangd_7.zip"), false)),
        ]))
        .unwrap();
    let cached = CLsp
        .cached_server_binary(&dir, "shown".to_string(), true)
        .unwrap();
    let cached = String::from_utf8(cached).unwrap();
    assert_eq!(returned("7"), Action::Return(cached.clone()));
    assert_eq!(returned("7/"), Action::Return(cached));
    assert_eq!(
        returned("7/."),
        Action::Return("clangd/clangd_7/./bin/clangd".to_string())
    );
}

#[test]
fn version_is_requested_once() {
    let asked = actions(
        CLsp.fetch_server_binary(version("7")),
        vec![
            Event::Done,
            failed(),
            Event::NoEntry,
            Event::Answered(200),
            Event::Answered(200),
            Event::Done,
            Event::Done,
            Event::Unzipped(true),
            failed(),
            failed(),
        ],
    );
    let requests: Vec<usize> = (0..asked.len())
        .filter(|&i| matches!(asked[i], Action::Request(_)))
        .collect();
    // what does not answer the request leaves it under way
    assert_eq!(requests, vec![2, 3]);
}

#[test]
fn second_fetch_only_probes() {
    let returned = || "rust-analyzer/rust-analyzer-7".to_string();
    assert_eq!(
        actions(
            RustLsp.fetch_server_binary(version("7")),
            vec![Event::Done, Event::Done]
        ),
        vec![
            Action::MakeDirectory("rust-analyzer".to_string()),
            Action::Probe(returned()),
            Action::Return(returned()),
        ]
    );
}

#[test]
fn cleaning_starts_when_the_binary_is_in_place() {
    let mut install = RustLsp.fetch_server_binary(version("7"));
    let mut cleaning = vec![install.is_cleaning()];
    for event in vec![
        Event::Done,
        failed(),
        Event::Answered(200),
        Event::Done,
        Event::Done,
        Event::Done,
        Event::Done,
        entry("other"),
        Event::Done,
        Event::NoEntry,
    ] {
        install = install.step(event);
        cleaning.push(install.is_cleaning());
    }
    assert_eq!(
        cleaning,
        vec![false, false, false, false, false, false, true, true, true, true, false]
    );
}

#[test]
fn plain_names_are_quoted_as_they_are() {
    assert_eq!(
        ReleaseError::NoAsset("clangd-mac-14.0_3.zip".to_string()).message(),
        "no release found matching \"clangd-mac-14.0_3.zip\""
    );
}
