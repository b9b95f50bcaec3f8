//! Installing a version of a language server.
//!
//! An [`Install`] says what to do next, and takes note of how that went. Its
//! paths lead on from the directory that is set aside for language servers.
use crate::release::LspBinaryVersion;
use crate::server::{CLsp, RustLsp};
use crate::text;
use vstd::prelude::*;

verus! {

/// Which server is installed.
#[derive(Debug, Clone, Copy, PartialEq, Eq, Structural)]
pub enum Server {
    RustAnalyzer,
    Clangd,
}

/// Why a version could not be installed.
#[derive(Debug, PartialEq, Eq)]
pub enum InstallError {
    /// The directory of the server could not be made, for the reason given.
    Directory(String),
    /// A file could not be written or made executable, or the archiver could
    /// not be run, for the reason given.
    Io(String),
    /// The request for the version failed, for the reason given.
    Download(String),
    /// The request for the version was answered with this status.
    Status(u16),
    /// The archiver failed.
    Unzip,
}

/// How far an installation has come.
#[derive(Debug, PartialEq, Eq)]
pub enum Stage {
    /// The directory of the server is being made.
    MakingDirectory,
    /// The binary is being looked for.
    Probing,
    /// The version is being requested.
    Requesting,
    /// The request was answered with this status, and the file is being made.
    MakingFile(u16),
    /// The answer is being written into the file.
    Writing,
    /// The file is being made into a binary that can run.
    Preparing,
    /// The binary is in place, and the directory of the server is being listed.
    Listing,
    /// The next entry of the directory is being read.
    Reading,
    /// The entry that was read is being removed.
    Removing,
    /// The binary is in place.
    Installed,
    /// The installation has been given up.
    Failed(InstallError),
}

/// What to do next.
#[derive(Debug, PartialEq, Eq)]
pub enum Action {
    /// Make the directory at this path, and those above it, where they are not
    /// there.
    MakeDirectory(String),
    /// See whether there is something at this path.
    Probe(String),
    /// Request what is at this address.
    Request(String),
    /// Make a file at this path, empty at first.
    MakeFile(String),
    /// Write the answer into the file.
    Write,
    /// Write the answer, decompressed, into the file.
    WriteDecompressed,
    /// Give what is at the path these permissions.
    SetMode(String, u32),
    /// Unpack the archive at the second path in the directory at the first.
    Unzip(String, String),
    /// List the directory at this path.
    List(String),
    /// Read the next entry of the directory.
    ReadEntry,
    /// Remove the entry that was read, which is a file.
    RemoveFile,
    /// Remove the entry that was read, which is a directory, with all it holds.
    RemoveDirectory,
    /// Stop: the binary is at this path.
    Return(String),
    /// Stop: the stage says why.
    Fail,
}

/// How what was done went.
#[derive(Debug, PartialEq, Eq)]
pub enum Event {
    /// Well.
    Done,
    /// Badly, for the reason given.
    Failed(String),
    /// The request was answered with this status.
    Answered(u16),
    /// The archiver ran, and succeeded or not.
    Unzipped(bool),
    /// The entry that was read has this name, where that is text.
    Entry(Option<String>),
    /// There was no further entry to read.
    NoEntry,
}

/// An installation under way.
#[derive(Debug, PartialEq, Eq)]
pub struct Install {
    pub server: Server,
    pub version: LspBinaryVersion,
    pub stage: Stage,
}

/// The directory of `server`.
pub open spec fn server_dir(server: Server) -> Seq<char> {
    match server {
        Server::RustAnalyzer => "rust-analyzer"@,
        Server::Clangd => "clangd"@,
    }
}

/// The entry of the server's directory that belongs to the version `name`: the
/// binary itself for rust-analyzer, the unpacked archive for clangd.
pub open spec fn version_entry(server: Server, name: Seq<char>) -> Seq<char> {
    match server {
        Server::RustAnalyzer => "rust-analyzer-"@ + name,
        Server::Clangd => "clangd_"@ + name,
    }
}

/// The path of the version's entry.
pub open spec fn version_path(server: Server, name: Seq<char>) -> Seq<char> {
    text::path_join(server_dir(server), version_entry(server, name))
}

/// The path of the binary within the directory of a version of clangd.
pub open spec fn clangd_binary() -> Seq<char> {
    "bin/clangd"@
}

/// The path of the binary of a version whose entry is at `path`.
pub open spec fn binary_in(server: Server, path: Seq<char>) -> Seq<char> {
    match server {
        Server::RustAnalyzer => path,
        Server::Clangd => text::path_join(path, clangd_binary()),
    }
}

/// The path of the version's binary.
pub open spec fn binary_path(server: Server, name: Seq<char>) -> Seq<char> {
    binary_in(server, version_path(server, name))
}

/// The path of the file into which the version is downloaded.
pub open spec fn download_path(server: Server, name: Seq<char>) -> Seq<char> {
    match server {
        Server::RustAnalyzer => binary_path(server, name),
        Server::Clangd => text::path_join(
            server_dir(server),
            version_entry(server, name) + ".zip"@,
        ),
    }
}

/// The status of an answer that holds what was requested.
pub open spec fn status_is_success(status: u16) -> bool {
    200 <= status < 300
}

/// The entry that was read belongs to the version `name`, and stays.
pub open spec fn entry_stays(server: Server, name: Seq<char>, entry: Option<String>) -> bool {
    match entry {
        Some(entry) => text::leads_to(version_entry(server, name), entry@),
        None => false,
    }
}

/// How far the installation of the version `name` has come once `event` has
/// happened at `stage`. What does not answer the stage's action changes nothing.
pub open spec fn next(server: Server, name: Seq<char>, stage: Stage, event: Event) -> Stage {
    match (stage, event) {
        (Stage::MakingDirectory, Event::Done) => Stage::Probing,
        (Stage::MakingDirectory, Event::Failed(reason)) => match server {
            Server::RustAnalyzer => Stage::Failed(InstallError::Io(reason)),
            Server::Clangd => Stage::Failed(InstallError::Directory(reason)),
        },
        (Stage::Probing, Event::Done) => Stage::Installed,
        (Stage::Probing, Event::Failed(_)) => Stage::Requesting,
        (Stage::Requesting, Event::Answered(status)) => Stage::MakingFile(status),
        (Stage::Requesting, Event::Failed(reason)) => Stage::Failed(InstallError::Download(reason)),
        (Stage::MakingFile(status), Event::Done) => if server == Server::Clangd
            && !status_is_success(status) {
            Stage::Failed(InstallError::Status(status))
        } else {
            Stage::Writing
        },
        (Stage::Writing, Event::Done) => Stage::Preparing,
        (Stage::Preparing, Event::Done) => match server {
            Server::RustAnalyzer => Stage::Listing,
            Server::Clangd => stage,
        },
        (Stage::Preparing, Event::Unzipped(success)) => match server {
            Server::RustAnalyzer => stage,
            Server::Clangd => if success {
                Stage::Listing
            } else {
                Stage::Failed(InstallError::Unzip)
            },
        },
        (
            Stage::MakingFile(_) | Stage::Writing | Stage::Preparing,
            Event::Failed(reason),
        ) => Stage::Failed(InstallError::Io(reason)),
        (Stage::Listing, Event::Done) => Stage::Reading,
        (Stage::Listing, Event::Failed(_)) => Stage::Installed,
        (Stage::Reading, Event::Entry(entry)) => if entry_stays(server, name, entry) {
            Stage::Reading
        } else {
            Stage::Removing
        },
        (Stage::Reading, Event::Failed(_)) => Stage::Reading,
        (Stage::Reading, Event::NoEntry) => Stage::Installed,
        (Stage::Removing, Event::Done | Event::Failed(_)) => Stage::Reading,
        _ => stage,
    }
}

/// `action` is what `install` asks for.
pub open spec fn asks_for(install: Install, action: Action) -> bool {
    let server = install.server;
    let name = install.version.name@;
    match install.stage {
        Stage::MakingDirectory => action matches Action::MakeDirectory(dir) && dir@
            == server_dir(server),
        Stage::Probing => action matches Action::Probe(path) && path@ == binary_path(server, name),
        Stage::Requesting => action == Action::Request(install.version.url),
        Stage::MakingFile(_) => action matches Action::MakeFile(path) && path@ == download_path(
            server,
            name,
        ),
        Stage::Writing => match server {
            Server::RustAnalyzer => action is WriteDecompressed,
            Server::Clangd => action is Write,
        },
        Stage::Preparing => match server {
            Server::RustAnalyzer => action matches Action::SetMode(path, mode) && path@
                == download_path(server, name) && mode == 0o755,
            Server::Clangd => action matches Action::Unzip(dir, archive) && dir@ == server_dir(
                server,
            ) && archive@ == download_path(server, name),
        },
        Stage::Listing => action matches Action::List(dir) && dir@ == server_dir(server),
        Stage::Reading => action is ReadEntry,
        Stage::Removing => match server {
            Server::RustAnalyzer => action is RemoveFile,
            Server::Clangd => action is RemoveDirectory,
        },
        Stage::Installed => action matches Action::Return(path) && path@ == binary_path(
            server,
            name,
        ),
        Stage::Failed(_) => action is Fail,
    }
}

/// The directory of `server`.
pub(crate) fn dir_of(server: Server) -> (dir: &'static str)
    ensures
        dir@ == server_dir(server),
{
    match server {
        Server::RustAnalyzer => "rust-analyzer",
        Server::Clangd => "clangd",
    }
}

impl Install {
    /// The entry of the server's directory that belongs to the version.
    fn entry(&self) -> (entry: String)
        ensures
            entry@ == version_entry(self.server, self.version.name@),
    {
        match self.server {
            Server::RustAnalyzer => text::join("rust-analyzer-", self.version.name.as_str()),
            Server::Clangd => text::join("clangd_", self.version.name.as_str()),
        }
    }

    /// The path of the version's binary.
    fn binary(&self) -> (path: String)
        ensures
            path@ == binary_path(self.server, self.version.name@),
    {
        let path = text::join_path(dir_of(self.server), self.entry().as_str());
        match self.server {
            Server::RustAnalyzer => path,
            Server::Clangd => text::join_path(path.as_str(), "bin/clangd"),
        }
    }

    /// The path of the file into which the version is downloaded.
    fn download(&self) -> (path: String)
        ensures
            path@ == download_path(self.server, self.version.name@),
    {
        match self.server {
            Server::RustAnalyzer => self.binary(),
            Server::Clangd => text::join_path(
                dir_of(self.server),
                text::join(self.entry().as_str(), ".zip").as_str(),
            ),
        }
    }

    /// What to do next.
    pub fn action(&self) -> (action: Action)
        ensures
            asks_for(*self, action),
    {
        let dir = dir_of(self.server);
        match &self.stage {
            Stage::MakingDirectory => Action::MakeDirectory(String::from_str(dir)),
            Stage::Probing => Action::Probe(self.binary()),
            Stage::Requesting => Action::Request(self.version.url.clone()),
            Stage::MakingFile(_) => Action::MakeFile(self.download()),
            Stage::Writing => match self.server {
                Server::RustAnalyzer => Action::WriteDecompressed,
                Server::Clangd => Action::Write,
            },
            Stage::Preparing => match self.server {
                Server::RustAnalyzer => Action::SetMode(self.download(), 0o755),
                Server::Clangd => Action::Unzip(String::from_str(dir), self.download()),
            },
            Stage::Listing => Action::List(String::from_str(dir)),
            Stage::Reading => Action::ReadEntry,
            Stage::Removing => match self.server {
                Server::RustAnalyzer => Action::RemoveFile,
                Server::Clangd => Action::RemoveDirectory,
            },
            Stage::Installed => Action::Return(self.binary()),
            Stage::Failed(_) => Action::Fail,
        }
    }

    /// Whether the binary is in place, and what else is in the directory is
    /// being removed. A failure is then no more than worth noting.
    pub fn is_cleaning(&self) -> (cleans: bool)
        ensures
            cleans == cleaning(self.stage),
    {
        match self.stage {
            Stage::Listing | Stage::Reading | Stage::Removing => true,
            _ => false,
        }
    }

    /// Whether the entry that was read belongs to the version, and stays.
    fn keeps(&self, entry: &Option<String>) -> (stays: bool)
        ensures
            stays == entry_stays(self.server, self.version.name@, *entry),
    {
        match entry {
            Some(entry) => text::path_leads_to(self.entry().as_str(), entry.as_str()),
            None => false,
        }
    }

    /// The installation once `event` has happened.
    pub fn step(self, event: Event) -> (install: Install)
        ensures
            install.server == self.server,
            install.version == self.version,
            install.stage == next(self.server, self.version.name@, self.stage, event),
    {
        let mut install = self;
        let server = install.server;
        let stage = match (install.stage, event) {
            (Stage::MakingDirectory, Event::Done) => Stage::Probing,
            (Stage::MakingDirectory, Event::Failed(reason)) => match server {
                Server::RustAnalyzer => Stage::Failed(InstallError::Io(reason)),
                Server::Clangd => Stage::Failed(InstallError::Directory(reason)),
            },
            (Stage::Probing, Event::Done) => Stage::Installed,
            (Stage::Probing, Event::Failed(_)) => Stage::Requesting,
            (Stage::Requesting, Event::Answered(status)) => Stage::MakingFile(status),
            (Stage::Requesting, Event::Failed(reason)) => Stage::Failed(
                InstallError::Download(reason),
            ),
            (Stage::MakingFile(status), Event::Done) => if server == Server::Clangd && !(200
                <= status && status < 300) {
                Stage::Failed(InstallError::Status(status))
            } else {
                Stage::Writing
            },
            (Stage::Writing, Event::Done) => Stage::Preparing,
            (Stage::Preparing, Event::Done) => match server {
                Server::RustAnalyzer => Stage::Listing,
                Server::Clangd => Stage::Preparing,
            },
            (Stage::Preparing, Event::Unzipped(success)) => match server {
                Server::RustAnalyzer => Stage::Preparing,
                Server::Clangd => if success {
                    Stage::Listing
                } else {
                    Stage::Failed(InstallError::Unzip)
                },
            },
            (
                Stage::MakingFile(_) | Stage::Writing | Stage::Preparing,
                Event::Failed(reason),
            ) => Stage::Failed(InstallError::Io(reason)),
            (Stage::Listing, Event::Done) => Stage::Reading,
            (Stage::Listing, Event::Failed(_)) => Stage::Installed,
            (Stage::Reading, Event::Entry(entry)) => {
                install.stage = Stage::Reading;
                if install.keeps(&entry) {
                    Stage::Reading
                } else {
                    Stage::Removing
                }
            },
            (Stage::Reading, Event::Failed(_)) => Stage::Reading,
            (Stage::Reading, Event::NoEntry) => Stage::Installed,
            (Stage::Removing, Event::Done | Event::Failed(_)) => Stage::Reading,
            (stage, _) => stage,
        };
        install.stage = stage;
        install
    }
}

impl RustLsp {
    /// The directory of the server.
    pub fn server_dir(&self) -> (dir: &'static str)
        ensures
            dir@ == server_dir(Server::RustAnalyzer),
    {
        dir_of(Server::RustAnalyzer)
    }

    /// Starts to install `version`.
    pub fn fetch_server_binary(&self, version: LspBinaryVersion) -> (install: Install)
        ensures
            install == (Install {
                server: Server::RustAnalyzer,
                version,
                stage: Stage::MakingDirectory,
            }),
    {
        Install { server: Server::RustAnalyzer, version, stage: Stage::MakingDirectory }
    }
}

impl CLsp {
    /// The directory of the server.
    pub fn server_dir(&self) -> (dir: &'static str)
        ensures
            dir@ == server_dir(Server::Clangd),
    {
        dir_of(Server::Clangd)
    }

    /// Starts to install `version`.
    pub fn fetch_server_binary(&self, version: LspBinaryVersion) -> (install: Install)
        ensures
            install == (Install {
                server: Server::Clangd,
                version,
                stage: Stage::MakingDirectory,
            }),
    {
        Install { server: Server::Clangd, version, stage: Stage::MakingDirectory }
    }
}

/// The text of `error`.
pub open spec fn install_error_text(error: InstallError) -> Seq<char> {
    match error {
        InstallError::Directory(_) => "failed to create container directory"@,
        InstallError::Io(reason) => reason@,
        InstallError::Download(reason) => "error downloading release: "@ + reason@,
        InstallError::Status(status) => "download failed with status "@ + text::decimal(
            status as nat,
        ),
        InstallError::Unzip => "failed to unzip clangd archive"@,
    }
}

impl InstallError {
    /// The text of the error.
    pub fn message(&self) -> (message: String)
        ensures
            message@ == install_error_text(*self),
    {
        match self {
            InstallError::Directory(_) => String::from_str("failed to create container directory"),
            InstallError::Io(reason) => reason.clone(),
            InstallError::Download(reason) => text::join(
                "error downloading release: ",
                reason.as_str(),
            ),
            InstallError::Status(status) => text::join(
                "download failed with status ",
                text::to_decimal(*status).as_str(),
            ),
            InstallError::Unzip => String::from_str("failed to unzip clangd archive"),
        }
    }
}

/// How far an installation that stood at `stage` has come once `events` have
/// happened, one after the other.
pub open spec fn run_from(
    server: Server,
    name: Seq<char>,
    stage: Stage,
    events: Seq<Event>,
) -> Stage
    decreases events.len(),
{
    if events.len() == 0 {
        stage
    } else {
        next(server, name, run_from(server, name, stage, events.drop_last()), events.last())
    }
}

/// How far an installation has come once `events` have happened, from the start.
pub open spec fn run(server: Server, name: Seq<char>, events: Seq<Event>) -> Stage {
    run_from(server, name, Stage::MakingDirectory, events)
}

/// The binary is in place, and what else is in the directory is being removed.
pub open spec fn cleaning(stage: Stage) -> bool {
    stage is Listing || stage is Reading || stage is Removing
}

/// `event` says that the file has been made into a binary that can run.
pub open spec fn prepared(server: Server, event: Event) -> bool {
    match server {
        Server::RustAnalyzer => event is Done,
        Server::Clangd => event == Event::Unzipped(true),
    }
}

/// At some point of `events` no binary was found.
pub open spec fn was_missing(server: Server, name: Seq<char>, events: Seq<Event>) -> bool {
    exists|k: int|
        0 <= k < events.len() && run(server, name, #[trigger] events.take(k)) is Probing
            && events[k] is Failed
}

/// At some point of `events` the request was answered, for clangd with success,
/// and the file was made.
pub open spec fn was_answered(server: Server, name: Seq<char>, events: Seq<Event>) -> bool {
    exists|k: int|
        0 <= k < events.len() && (run(server, name, #[trigger] events.take(k)) matches
            Stage::MakingFile(status) && (server == Server::Clangd ==> status_is_success(status)))
            && events[k] is Done
}

/// At some point of `events` the answer was written to its end.
pub open spec fn was_written(server: Server, name: Seq<char>, events: Seq<Event>) -> bool {
    exists|k: int|
        0 <= k < events.len() && run(server, name, #[trigger] events.take(k)) is Writing
            && events[k] is Done
}

/// At some point of `events` the file was made into a binary that can run.
pub open spec fn was_prepared(server: Server, name: Seq<char>, events: Seq<Event>) -> bool {
    exists|k: int|
        0 <= k < events.len() && run(server, name, #[trigger] events.take(k)) is Preparing
            && prepared(server, events[k])
}

/// An installation that has ended stays as it is, whatever happens.
pub proof fn outcome_is_final(server: Server, name: Seq<char>, stage: Stage, events: Seq<Event>)
    requires
        stage is Installed || stage is Failed,
    ensures
        run_from(server, name, stage, events) == stage,
    decreases events.len(),
{
    if events.len() > 0 {
        outcome_is_final(server, name, stage, events.drop_last());
    }
}

/// A binary that is there is used as it is: once it has been found, nothing is
/// requested, written or removed.
pub proof fn present_binary_is_used(server: Server, name: Seq<char>, events: Seq<Event>)
    requires
        events.len() >= 2,
        events[0] is Done,
        events[1] is Done,
    ensures
        run(server, name, events) is Installed,
    decreases events.len(),
{
    if events.len() == 2 {
        reveal_with_fuel(run_from, 3);
    } else {
        present_binary_is_used(server, name, events.drop_last());
    }
}

/// A version that is not there is put in place where its download is answered
/// with success and nothing goes badly.
pub proof fn download_installs(server: Server, name: Seq<char>, events: Seq<Event>)
    requires
        events.len() == 6,
        events[0] is Done,
        events[1] is Failed,
        events[2] matches Event::Answered(status) && status_is_success(status),
        events[3] is Done,
        events[4] is Done,
        prepared(server, events[5]),
    ensures
        run(server, name, events) is Listing,
{
    reveal_with_fuel(run_from, 7);
}

/// Once the binary is in place, no failure to clean up undoes that: the
/// installation goes on cleaning up or ends well.
pub proof fn cleaning_never_fails(server: Server, name: Seq<char>, stage: Stage, events: Seq<Event>)
    requires
        cleaning(stage),
    ensures
        cleaning(run_from(server, name, stage, events)) || run_from(server, name, stage, events)
            is Installed,
    decreases events.len(),
{
    if events.len() > 0 {
        cleaning_never_fails(server, name, stage, events.drop_last());
    }
}

/// An entry is removed only where it was read and does not belong to the
/// version; the entry of the version's own name stays.
pub proof fn version_is_never_removed(server: Server, name: Seq<char>, stage: Stage, event: Event)
    requires
        !(stage is Removing),
    ensures
        next(server, name, stage, event) is Removing <==> stage is Reading && (event matches
            Event::Entry(entry) && !entry_stays(server, name, entry)),
        event matches Event::Entry(Some(entry)) && entry@ == version_entry(server, name) ==> !(next(
            server,
            name,
            stage,
            event,
        ) is Removing),
{
    text::name_leads_to_itself(Seq::empty(), version_entry(server, name));
}

/// A version's binary is the one in the entry at `path`: going on from there
/// leads nowhere else.
pub open spec fn installed_at(server: Server, name: Seq<char>, path: Seq<char>) -> bool {
    exists|tail: Seq<char>|
        text::stays_here(tail) && binary_path(server, name) == #[trigger] binary_in(
            server,
            path + tail,
        )
}

/// An entry that stays is that of the version: its binary is the one that the
/// installation returned.
pub proof fn staying_entry_is_the_version(server: Server, name: Seq<char>, entry: String)
    requires
        entry_stays(server, name, Some(entry)),
    ensures
        installed_at(server, name, text::path_join(server_dir(server), entry@)),
{
    let whole = version_entry(server, name);
    let tail = whole.skip(entry@.len() as int);
    let path = text::path_join(server_dir(server), entry@);
    assert(whole =~= entry@ + tail) by {
        assert(whole =~= whole.subrange(0, entry@.len() as int) + tail);
    }
    assert(version_path(server, name) =~= path + tail);
    assert(binary_path(server, name) == binary_in(server, path + tail));
}

/// A second installation of a version looks for what the first returned, which
/// cleaning up did not remove, and, once that is found, returns it. It does
/// nothing else.
pub proof fn second_fetch_only_probes(
    first: Install,
    second: Install,
    events: Seq<Event>,
    returned: String,
)
    requires
        first.stage is Installed,
        asks_for(first, Action::Return(returned)),
        second.server == first.server,
        second.version == first.version,
        second.stage == run(second.server, second.version.name@, events),
        events.len() > 0 ==> events[0] is Done,
        events.len() > 1 ==> events[1] is Done,
    ensures
        events.len() == 0 ==> second.stage is MakingDirectory,
        events.len() == 1 ==> second.stage is Probing,
        events.len() > 1 ==> second.stage is Installed,
        forall|path: String| #[trigger]
            asks_for(second, Action::Probe(path)) ==> path@ == returned@,
        forall|path: String| #[trigger]
            asks_for(second, Action::Return(path)) ==> path@ == returned@,
        forall|entry: String|
            text::leads_to(version_entry(first.server, first.version.name@), entry@) ==> !(
            #[trigger] next(
                first.server,
                first.version.name@,
                Stage::Reading,
                Event::Entry(Some(entry)),
            ) is Removing),
{
    reveal_with_fuel(run_from, 3);
    if events.len() > 1 {
        present_binary_is_used(second.server, second.version.name@, events);
    }
}

/// An installation is given up only because something went badly while the
/// binary was not yet in place.
pub proof fn only_trouble_fails(server: Server, name: Seq<char>, stage: Stage, event: Event)
    requires
        !(stage is Failed),
        next(server, name, stage, event) is Failed,
    ensures
        !cleaning(stage) && !(stage is Probing) && !(stage is Installed),
        event is Failed || event == Event::Unzipped(false) || (server == Server::Clangd && (
        stage matches Stage::MakingFile(status) && !status_is_success(status))),
{
}

/// How many stages an installation that has come to `stage` can have behind it.
/// Reading an entry and removing it are one stage here, as they take turns.
pub open spec fn rank(stage: Stage) -> nat {
    match stage {
        Stage::MakingDirectory => 0,
        Stage::Probing => 1,
        Stage::Requesting => 2,
        Stage::MakingFile(_) => 3,
        Stage::Writing => 4,
        Stage::Preparing => 5,
        Stage::Listing => 6,
        Stage::Reading | Stage::Removing => 7,
        Stage::Installed | Stage::Failed(_) => 8,
    }
}

/// An installation never goes back: whatever happens, its stage comes no earlier
/// than before.
pub proof fn stages_never_go_back(
    server: Server,
    name: Seq<char>,
    stage: Stage,
    events: Seq<Event>,
)
    ensures
        rank(stage) <= rank(run_from(server, name, stage, events)),
    decreases events.len(),
{
    if events.len() > 0 {
        stages_never_go_back(server, name, stage, events.drop_last());
    }
}

/// Running on from where a run has come to is one run.
proof fn lemma_run_on(
    server: Server,
    name: Seq<char>,
    stage: Stage,
    first: Seq<Event>,
    more: Seq<Event>,
)
    ensures
        run_from(server, name, stage, first + more) == run_from(
            server,
            name,
            run_from(server, name, stage, first),
            more,
        ),
    decreases more.len(),
{
    if more.len() == 0 {
        assert(first + more =~= first);
    } else {
        lemma_run_on(server, name, stage, first, more.drop_last());
        assert((first + more).drop_last() =~= first + more.drop_last());
    }
}

/// A version is requested at most once: after its request has been answered or
/// has failed, no request is under way again.
pub proof fn version_is_requested_once(
    server: Server,
    name: Seq<char>,
    events: Seq<Event>,
    i: int,
    j: int,
)
    requires
        0 <= i < j <= events.len(),
        run(server, name, events.take(i)) is Requesting,
        events[i] is Answered || events[i] is Failed,
    ensures
        !(run(server, name, events.take(j)) is Requesting),
{
    let after = events.take(i + 1);
    assert(after.drop_last() =~= events.take(i));
    assert(rank(run(server, name, after)) > rank(Stage::Requesting));
    assert(events.take(j) =~= after + events.subrange(i + 1, j));
    lemma_run_on(server, name, Stage::MakingDirectory, after, events.subrange(i + 1, j));
    stages_never_go_back(server, name, run(server, name, after), events.subrange(i + 1, j));
}

/// What has happened by a point of `events` has happened by the end.
proof fn lemma_history_grows(server: Server, name: Seq<char>, events: Seq<Event>)
    requires
        events.len() > 0,
    ensures
        was_missing(server, name, events.drop_last()) ==> was_missing(server, name, events),
        was_answered(server, name, events.drop_last()) ==> was_answered(server, name, events),
        was_written(server, name, events.drop_last()) ==> was_written(server, name, events),
        was_prepared(server, name, events.drop_last()) ==> was_prepared(server, name, events),
{
    let before = events.drop_last();
    assert forall|k: int| 0 <= k < before.len() implies #[trigger] before.take(k) == events.take(
        k,
    ) && before[k] == events[k] by {
        assert(before.take(k) =~= events.take(k));
    }
}

/// Nothing is removed before a version is in place: cleaning up starts only
/// after no binary was found, the request was answered (for clangd with
/// success), the answer was written to its end, and the file was made into a
/// binary that can run.
pub proof fn removal_follows_installation(server: Server, name: Seq<char>, events: Seq<Event>)
    ensures
        cleaning(run(server, name, events)) ==> was_missing(server, name, events) && was_answered(
            server,
            name,
            events,
        ) && was_written(server, name, events) && was_prepared(server, name, events),
{
    lemma_history(server, name, events);
}

/// Each stage has behind it what must have happened before.
proof fn lemma_history(server: Server, name: Seq<char>, events: Seq<Event>)
    ensures
        ({
            let stage = run(server, name, events);
            let preparing = stage is Preparing || cleaning(stage);
            let writing = stage is Writing || preparing;
            let requesting = stage is Requesting || stage is MakingFile || writing;
            &&& requesting ==> was_missing(server, name, events)
            &&& writing ==> was_answered(server, name, events)
            &&& preparing ==> was_written(server, name, events)
            &&& cleaning(stage) ==> was_prepared(server, name, events)
        }),
    decreases events.len(),
{
    if events.len() > 0 {
        let k = events.len() - 1;
        let before = events.drop_last();
        lemma_history(server, name, before);
        lemma_history_grows(server, name, events);
        assert(events.take(k) =~= before);
        assert(events[k] == events.last());
        assert(run(server, name, events.take(k)) == run(server, name, before));
    }
}

} // verus!
