//! Installing a version of a language server.
use crate::install;
use crate::install::{Action, Event, Install, InstallError, Server, Stage};
use crate::laws::text as text_laws;
use crate::release::LspBinaryVersion;
use crate::server::{CLsp, RustLsp};
use vstd::prelude::*;

verus! {

/// An installation starts by making the directory of its server, and is of the
/// version that was asked for.
pub proof fn installation_starts_with_the_directory(
    rust: RustLsp,
    c: CLsp,
    version: LspBinaryVersion,
    of_rust: Install,
    of_c: Install,
)
    requires
        call_ensures(RustLsp::fetch_server_binary, (&rust, version), of_rust),
        call_ensures(CLsp::fetch_server_binary, (&c, version), of_c),
    ensures
        of_rust.server == Server::RustAnalyzer,
        of_rust.version == version,
        of_rust.stage is MakingDirectory,
        of_c.server == Server::Clangd,
        of_c.version == version,
        of_c.stage is MakingDirectory,
{
}

/// Whatever happens, an installation stays that of its version.
pub proof fn installation_keeps_its_version(install: Install, event: Event, after: Install)
    requires
        call_ensures(Install::step, (install, event), after),
    ensures
        after.server == install.server,
        after.version == install.version,
{
}

/// Where something goes badly while the binary is not in place, the installation
/// ends with that reason. Only where no binary is found does it go on, and
/// requests the version. Once the binary is in place, nothing that goes badly
/// undoes that.
pub proof fn trouble_ends_the_installation(install: Install, reason: String, after: Install)
    requires
        call_ensures(Install::step, (install, Event::Failed(reason)), after),
    ensures
        install.stage is MakingDirectory ==> after.stage == Stage::Failed(
            if install.server == Server::Clangd {
                InstallError::Directory(reason)
            } else {
                InstallError::Io(reason)
            },
        ),
        install.stage is Probing ==> after.stage is Requesting,
        install.stage is Requesting ==> after.stage == Stage::Failed(
            InstallError::Download(reason),
        ),
        install.stage is MakingFile || install.stage is Writing || install.stage is Preparing
            ==> after.stage == Stage::Failed(InstallError::Io(reason)),
        install.stage is Listing ==> after.stage is Installed,
        install.stage is Reading || install.stage is Removing ==> after.stage is Reading,
{
}

/// Where something goes well, the installation goes on to what comes next. A
/// binary that is found is used at once. The status of the answer is looked at
/// for clangd alone, and once the file is there.
pub proof fn success_carries_the_installation_on(install: Install, after: Install)
    requires
        call_ensures(Install::step, (install, Event::Done), after),
    ensures
        install.stage is MakingDirectory ==> after.stage is Probing,
        install.stage is Probing ==> after.stage is Installed,
        install.stage matches Stage::MakingFile(status) ==> if install.server == Server::Clangd
            && !(200 <= status < 300) {
            after.stage == Stage::Failed(InstallError::Status(status))
        } else {
            after.stage is Writing
        },
        install.stage is Writing ==> after.stage is Preparing,
        install.stage is Preparing && install.server == Server::RustAnalyzer ==> after.stage
            is Listing,
        install.stage is Listing || install.stage is Removing ==> after.stage is Reading,
{
}

/// The status of the answer is kept until the file has been made.
pub proof fn answer_is_followed_by_the_file(install: Install, status: u16, after: Install)
    requires
        call_ensures(Install::step, (install, Event::Answered(status)), after),
        install.stage is Requesting,
    ensures
        after.stage == Stage::MakingFile(status),
{
}

/// Unpacking decides whether clangd is in place.
pub proof fn unpacking_decides(install: Install, success: bool, after: Install)
    requires
        call_ensures(Install::step, (install, Event::Unzipped(success)), after),
        install.stage is Preparing,
        install.server == Server::Clangd,
    ensures
        success ==> after.stage is Listing,
        !success ==> after.stage == Stage::Failed(InstallError::Unzip),
{
}

/// Cleaning up ends, and the installation with it, when no entry is left to
/// read.
pub proof fn cleaning_up_ends_with_the_entries(install: Install, after: Install)
    requires
        call_ensures(Install::step, (install, Event::NoEntry), after),
        install.stage is Reading,
    ensures
        after.stage is Installed,
{
}

/// What does not answer what the installation asked for changes nothing, and
/// nothing changes an installation that has ended.
pub proof fn what_was_not_asked_for_changes_nothing(
    install: Install,
    event: Event,
    after: Install,
)
    requires
        call_ensures(Install::step, (install, event), after),
        match event {
            Event::Done => install.stage is Requesting || install.stage is Reading
                || install.stage is Installed || install.stage is Failed || (install.stage
                is Preparing && install.server == Server::Clangd),
            Event::Failed(_) => install.stage is Installed || install.stage is Failed,
            Event::Answered(_) => !(install.stage is Requesting),
            Event::Unzipped(_) => !(install.stage is Preparing && install.server
                == Server::Clangd),
            Event::Entry(_) | Event::NoEntry => !(install.stage is Reading),
        },
    ensures
        after.stage == install.stage,
{
}

/// An entry that was read is removed, unless its name is that by which the version
/// is known, `rust-analyzer-` or `clangd_` and then the version's name. Separators
/// at the end of that, and dots behind them, do not count. An entry whose name is
/// no text is removed.
pub proof fn all_other_entries_are_removed(
    install: Install,
    entry: Option<String>,
    after: Install,
    known: Seq<char>,
)
    requires
        call_ensures(Install::step, (install, Event::Entry(entry)), after),
        install.stage is Reading,
        install.server == Server::RustAnalyzer ==> known == "rust-analyzer-"@
            + install.version.name@,
        install.server == Server::Clangd ==> known == "clangd_"@ + install.version.name@,
    ensures
        after.stage is Removing || after.stage is Reading,
        entry is None ==> after.stage is Removing,
        entry matches Some(entry) ==> (after.stage is Reading <==> entry@.len() <= known.len()
            && known.take(entry@.len() as int) == entry@ && forall|k: int|
            entry@.len() <= k < known.len() ==> (#[trigger] known[k] == '/' || (known[k] == '.' && k
                > entry@.len() && known[k - 1] == '/'))),
{
    assert(known == install::version_entry(install.server, install.version.name@));
    if entry is Some {
        text_laws::lemma_leads_to(known, entry->0@);
    }
}

/// Where the version's name holds no separator, exactly the entry of that very
/// name stays: `rust-analyzer-` or `clangd_`, and then the version's name.
pub proof fn only_the_version_stays(install: Install, entry: String, after: Install)
    requires
        call_ensures(Install::step, (install, Event::Entry(Some(entry))), after),
        install.stage is Reading,
        !install.version.name@.contains('/'),
    ensures
        after.stage is Reading <==> entry@ == match install.server {
            Server::RustAnalyzer => "rust-analyzer-"@ + install.version.name@,
            Server::Clangd => "clangd_"@ + install.version.name@,
        },
        after.stage is Removing <==> !(after.stage is Reading),
{
    let name = install.version.name@;
    let whole = install::version_entry(install.server, name);
    reveal_strlit("rust-analyzer-");
    reveal_strlit("clangd_");
    assert(!whole.contains('/')) by {
        if whole.contains('/') {
            let k = choose|k: int| 0 <= k < whole.len() && whole[k] == '/';
            let n = whole.len() - name.len();
            assert(k >= n);
            assert(name[k - n] == '/');
        }
    }
    crate::text::name_leads_to_itself(whole, entry@);
}

/// What an installation asks for, stage by stage, is what happens next to the
/// version. The version is requested from its own place.
pub proof fn each_stage_has_its_action(install: Install, action: Action)
    requires
        call_ensures(Install::action, (&install,), action),
    ensures
        install.stage is MakingDirectory <==> action is MakeDirectory,
        install.stage is Probing <==> action is Probe,
        install.stage is Requesting <==> action is Request,
        install.stage is MakingFile <==> action is MakeFile,
        install.stage is Writing && install.server == Server::RustAnalyzer <==> action
            is WriteDecompressed,
        install.stage is Writing && install.server == Server::Clangd <==> action is Write,
        install.stage is Preparing && install.server == Server::RustAnalyzer <==> action
            is SetMode,
        install.stage is Preparing && install.server == Server::Clangd <==> action is Unzip,
        install.stage is Listing <==> action is List,
        install.stage is Reading <==> action is ReadEntry,
        install.stage is Removing && install.server == Server::RustAnalyzer <==> action
            is RemoveFile,
        install.stage is Removing && install.server == Server::Clangd <==> action
            is RemoveDirectory,
        install.stage is Installed <==> action is Return,
        install.stage is Failed <==> action is Fail,
        action matches Action::Request(url) ==> url@ == install.version.url@,
{
}

/// The paths of a version of rust-analyzer: the binary that is looked for,
/// downloaded, made executable for all and returned is one and the same.
pub proof fn rust_analyzer_has_one_path(install: Install, action: Action)
    requires
        call_ensures(Install::action, (&install,), action),
        install.server == Server::RustAnalyzer,
    ensures
        action matches Action::MakeDirectory(dir) ==> dir@ == "rust-analyzer"@,
        action matches Action::List(dir) ==> dir@ == "rust-analyzer"@,
        action matches Action::Probe(path) ==> path@ == "rust-analyzer/rust-analyzer-"@
            + install.version.name@,
        action matches Action::MakeFile(path) ==> path@ == "rust-analyzer/rust-analyzer-"@
            + install.version.name@,
        action matches Action::SetMode(path, mode) ==> path@ == "rust-analyzer/rust-analyzer-"@
            + install.version.name@ && mode == 0o755,
        action matches Action::Return(path) ==> path@ == "rust-analyzer/rust-analyzer-"@
            + install.version.name@,
{
    reveal_strlit("rust-analyzer");
    reveal_strlit("/");
    reveal_strlit("rust-analyzer-");
    reveal_strlit("rust-analyzer/rust-analyzer-");
    let name = install.version.name@;
    assert("rust-analyzer"@ + "/"@ + ("rust-analyzer-"@ + name)
        =~= "rust-analyzer/rust-analyzer-"@ + name);
}

/// The paths of a version of clangd: the archive, which is unpacked in clangd's
/// own directory, and the binary that is looked for and returned.
pub proof fn clangd_has_two_paths(install: Install, action: Action)
    requires
        call_ensures(Install::action, (&install,), action),
        install.server == Server::Clangd,
    ensures
        action matches Action::MakeDirectory(dir) ==> dir@ == "clangd"@,
        action matches Action::List(dir) ==> dir@ == "clangd"@,
        action matches Action::MakeFile(path) ==> path@ == "clangd/clangd_"@
            + install.version.name@ + ".zip"@,
        action matches Action::Unzip(dir, archive) ==> dir@ == "clangd"@ && archive@
            == "clangd/clangd_"@ + install.version.name@ + ".zip"@,
        action matches Action::Probe(path) ==> path@ == "clangd/clangd_"@ + install.version.name@
            + (if install.version.name@.len() > 0 && install.version.name@.last() == '/' {
            "bin/clangd"@
        } else {
            "/bin/clangd"@
        }),
        action matches Action::Return(path) ==> path@ == "clangd/clangd_"@ + install.version.name@
            + (if install.version.name@.len() > 0 && install.version.name@.last() == '/' {
            "bin/clangd"@
        } else {
            "/bin/clangd"@
        }),
{
    reveal_strlit("clangd");
    reveal_strlit("/");
    reveal_strlit("clangd_");
    reveal_strlit("clangd/clangd_");
    reveal_strlit("bin/clangd");
    reveal_strlit("/bin/clangd");
    let name = install.version.name@;
    let path = "clangd"@ + "/"@ + ("clangd_"@ + name);
    assert(path =~= "clangd/clangd_"@ + name);
    assert("clangd"@ + "/"@ + ("clangd_"@ + name + ".zip"@) =~= "clangd/clangd_"@ + name
        + ".zip"@);
    assert(path + "/"@ + "bin/clangd"@ =~= "clangd/clangd_"@ + name + "/bin/clangd"@);
    if name.len() > 0 {
        assert(path.last() == name.last());
    } else {
        assert(path.last() == '_');
    }
}

/// What it takes for the stage at point `n` of an installation.
proof fn lemma_behind(states: Seq<Install>, events: Seq<Event>, n: int)
    requires
        0 <= n < states.len(),
        states.len() == events.len() + 1,
        states[0].stage is MakingDirectory,
        forall|k: int|
            0 <= k < events.len() ==> call_ensures(
                Install::step,
                (#[trigger] states[k], events[k]),
                states[k + 1],
            ),
    ensures
        states[n].server == states[0].server,
        states[n].version == states[0].version,
        states[n].stage is Writing || states[n].stage is Preparing || install::cleaning(
            states[n].stage,
        ) ==> exists|k: int|
            0 <= k < n && (#[trigger] states[k]).stage is MakingFile && events[k] is Done && (
            states[0].server == Server::Clangd ==> 200 <= states[k].stage->MakingFile_0 < 300),
        states[n].stage is Preparing || install::cleaning(states[n].stage) ==> exists|k: int|
            0 <= k < n && (#[trigger] states[k]).stage is Writing && events[k] is Done,
        install::cleaning(states[n].stage) ==> exists|k: int|
            0 <= k < n && (#[trigger] states[k]).stage is Preparing && (if states[0].server
                == Server::Clangd {
                events[k] == Event::Unzipped(true)
            } else {
                events[k] is Done
            }),
        states[n].stage is Installed ==> (exists|k: int|
            0 <= k < n && (#[trigger] states[k]).stage is Probing && events[k] is Done) || exists|
            k: int,
        |
            0 <= k < n && install::cleaning((#[trigger] states[k]).stage),
    decreases n,
{
    if n > 0 {
        lemma_behind(states, events, n - 1);
        let before = states[n - 1];
        let event = events[n - 1];
        assert(call_ensures(Install::step, (states[n - 1], events[n - 1]), states[n]));
        assert(states[n].stage == install::next(
            before.server,
            before.version.name@,
            before.stage,
            event,
        ));
    }
}

/// An installation ends well only with a binary in place: either the binary was
/// found, or the file was made after the request was answered (for clangd with
/// success), the answer was written to its end, and the file was made into a
/// binary that can run, in this order.
pub proof fn installed_only_with_a_binary_in_place(states: Seq<Install>, events: Seq<Event>)
    requires
        states.len() == events.len() + 1,
        states[0].stage is MakingDirectory,
        forall|k: int|
            0 <= k < events.len() ==> call_ensures(
                Install::step,
                (#[trigger] states[k], events[k]),
                states[k + 1],
            ),
        states.last().stage is Installed,
    ensures
        (exists|k: int|
            0 <= k < events.len() && (#[trigger] states[k]).stage is Probing && events[k] is Done)
            || (exists|i: int, j: int, k: int|
            0 <= i < j < k < events.len() && (#[trigger] states[i]).stage is MakingFile && events[i]
                is Done && (states[0].server == Server::Clangd ==> 200
                <= states[i].stage->MakingFile_0 < 300) && (#[trigger] states[j]).stage is Writing
                && events[j] is Done && (#[trigger] states[k]).stage is Preparing && (
            if states[0].server == Server::Clangd {
                events[k] == Event::Unzipped(true)
            } else {
                events[k] is Done
            })),
{
    let n = events.len() as int;
    lemma_behind(states, events, n);
    if !(exists|k: int|
        0 <= k < events.len() && (#[trigger] states[k]).stage is Probing && events[k] is Done) {
        let m = choose|m: int| 0 <= m < n && install::cleaning((#[trigger] states[m]).stage);
        lemma_behind(states, events, m);
        let k = choose|k: int|
            0 <= k < m && (#[trigger] states[k]).stage is Preparing && (if states[0].server
                == Server::Clangd {
                events[k] == Event::Unzipped(true)
            } else {
                events[k] is Done
            });
        lemma_behind(states, events, k);
        let j = choose|j: int|
            0 <= j < k && (#[trigger] states[j]).stage is Writing && events[j] is Done;
        lemma_behind(states, events, j);
        let i = choose|i: int|
            0 <= i < j && (#[trigger] states[i]).stage is MakingFile && events[i] is Done && (
            states[0].server == Server::Clangd ==> 200 <= states[i].stage->MakingFile_0 < 300);
        assert(states[i].stage is MakingFile && states[j].stage is Writing && states[k].stage
            is Preparing);
    }
}

/// Nothing is removed before the binary is in place: by then the answer was
/// written to its end, and the file was made into a binary that can run.
pub proof fn removed_only_with_a_binary_in_place(states: Seq<Install>, events: Seq<Event>)
    requires
        states.len() == events.len() + 1,
        states[0].stage is MakingDirectory,
        forall|k: int|
            0 <= k < events.len() ==> call_ensures(
                Install::step,
                (#[trigger] states[k], events[k]),
                states[k + 1],
            ),
        states.last().stage is Removing,
    ensures
        exists|k: int|
            0 <= k < events.len() && (#[trigger] states[k]).stage is Writing && events[k] is Done,
        exists|k: int|
            0 <= k < events.len() && (#[trigger] states[k]).stage is Preparing && (
            if states[0].server == Server::Clangd {
                events[k] == Event::Unzipped(true)
            } else {
                events[k] is Done
            }),
{
    lemma_behind(states, events, events.len() as int);
}

/// An installation fails only in the step in which something went badly, and with
/// the error that says what.
pub proof fn failure_says_what_went_badly(
    install: Install,
    event: Event,
    after: Install,
    error: InstallError,
)
    requires
        call_ensures(Install::step, (install, event), after),
        !(install.stage is Failed),
        after.stage == Stage::Failed(error),
    ensures
        match error {
            InstallError::Directory(reason) => install.stage is MakingDirectory && install.server
                == Server::Clangd && event == Event::Failed(reason),
            InstallError::Io(reason) => event == Event::Failed(reason) && (install.stage
                is MakingFile || install.stage is Writing || install.stage is Preparing || (
            install.stage is MakingDirectory && install.server == Server::RustAnalyzer)),
            InstallError::Download(reason) => install.stage is Requesting && event
                == Event::Failed(reason),
            InstallError::Status(status) => install.stage == Stage::MakingFile(status)
                && install.server == Server::Clangd && !(200 <= status < 300) && event is Done,
            InstallError::Unzip => install.stage is Preparing && install.server == Server::Clangd
                && event == Event::Unzipped(false),
        },
{
}

/// The directories of the two servers, and when an installation cleans up.
pub proof fn servers_have_their_own_directories(
    rust: RustLsp,
    c: CLsp,
    rust_dir: &'static str,
    c_dir: &'static str,
    install: Install,
    cleans: bool,
)
    requires
        call_ensures(RustLsp::server_dir, (&rust,), rust_dir),
        call_ensures(CLsp::server_dir, (&c,), c_dir),
        call_ensures(Install::is_cleaning, (&install,), cleans),
    ensures
        rust_dir@ == "rust-analyzer"@,
        c_dir@ == "clangd"@,
        cleans <==> install.stage is Listing || install.stage is Reading || install.stage
            is Removing,
{
}

/// The text of an error is the reason, or says what went badly.
pub proof fn install_errors_say_why(error: InstallError, message: String)
    requires
        call_ensures(InstallError::message, (&error,), message),
    ensures
        error is Directory ==> message@ == "failed to create container directory"@,
        error matches InstallError::Io(reason) ==> message@ == reason@,
        error matches InstallError::Download(reason) ==> message@ == "error downloading release: "@
            + reason@,
        error is Unzip ==> message@ == "failed to unzip clangd archive"@,
{
}

/// The text of an error about a status ends with the status in decimal: a status
/// of one digit with that digit, another as that without its last digit does,
/// followed by that digit.
pub proof fn status_is_given_in_decimal(status: u16, message: String, shorter: String)
    requires
        call_ensures(InstallError::message, (&InstallError::Status(status),), message),
        call_ensures(InstallError::message, (&InstallError::Status(status / 10),), shorter),
    ensures
        status < 10 ==> message@ == "download failed with status "@.push((0x30 + status) as char),
        status >= 10 ==> message@ == shorter@.push((0x30 + status % 10) as char),
{
    text_laws::lemma_decimal(status);
    let head = "download failed with status "@;
    if status < 10 {
        assert(head + seq![(0x30 + status) as char] =~= head.push((0x30 + status) as char));
    } else {
        let front = crate::text::decimal((status / 10) as nat);
        assert(head + front.push((0x30 + status % 10) as char) =~= (head + front).push(
            (0x30 + status % 10) as char,
        ));
    }
}

} // verus!
