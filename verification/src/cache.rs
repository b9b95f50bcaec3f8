//! Which binary of a language server to use when none can be fetched.
//!
//! The name of an entry of a directory need not be text, so names and paths are
//! given in bytes here. A path leads on from the directory that is set aside for
//! language servers.
use crate::install::{self, Server};
use crate::server::{CLsp, RustLsp};
use crate::text;
use vstd::prelude::*;
use vstd::utf8::*;

verus! {

/// Why there is no binary to use.
#[derive(Debug, PartialEq, Eq)]
pub enum CacheError {
    /// The directory could not be listed, or an entry of it could not be read,
    /// for the reason given.
    Unreadable(String),
    /// No entry of the directory can hold a binary.
    NoCachedBinary,
    /// The directory that should hold the binary, shown as given, does not.
    MissingBinary(String),
}

/// The text of `error`.
pub open spec fn cache_error_text(error: CacheError) -> Seq<char> {
    match error {
        CacheError::Unreadable(reason) => reason@,
        CacheError::NoCachedBinary => "no cached binary"@,
        CacheError::MissingBinary(dir) => "missing clangd binary in directory "@ + dir@,
    }
}

impl CacheError {
    /// The text of the error.
    pub fn message(&self) -> (message: String)
        ensures
            message@ == cache_error_text(*self),
    {
        match self {
            CacheError::Unreadable(reason) => reason.clone(),
            CacheError::NoCachedBinary => String::from_str("no cached binary"),
            CacheError::MissingBinary(dir) => text::join(
                "missing clangd binary in directory ",
                dir.as_str(),
            ),
        }
    }
}

/// The entries of a directory: each read, or not, for the reason given. The
/// directory itself may be out of reach too.
pub type Listing<T> = Result<Vec<Result<T, String>>, String>;

/// The first of `entries` that could not be read is the one at index `i`.
pub open spec fn first_failure<T>(entries: Seq<Result<T, String>>, i: int) -> bool {
    &&& 0 <= i < entries.len()
    &&& entries[i] is Err
    &&& forall|k: int| 0 <= k < i ==> (#[trigger] entries[k]) is Ok
}

/// All of `entries` could be read.
pub open spec fn all_read<T>(entries: Seq<Result<T, String>>) -> bool {
    forall|k: int| 0 <= k < entries.len() ==> (#[trigger] entries[k]) is Ok
}

/// `error` says why `listing` could not be read to its end.
pub open spec fn listing_failed<T>(listing: Listing<T>, error: CacheError) -> bool {
    match listing {
        Err(reason) => error == CacheError::Unreadable(reason),
        Ok(entries) => exists|i: int| #[trigger]
            first_failure(entries@, i) && error == CacheError::Unreadable(entries@[i]->Err_0),
    }
}

/// The path of the entry of the name `entry` of the server's directory.
pub open spec fn entry_path(server: Server, entry: Seq<u8>) -> Seq<u8> {
    text::bytes_join(encode_utf8(install::server_dir(server)), entry)
}

/// `result` is the path of the last entry of `listing`, once all of it has been
/// read.
pub open spec fn last_entry_found(
    listing: Listing<Vec<u8>>,
    result: Result<Vec<u8>, CacheError>,
) -> bool {
    if listing is Ok && all_read(listing->Ok_0@) {
        let entries = listing->Ok_0@;
        match result {
            Ok(path) => entries.len() > 0 && path@ == entry_path(
                Server::RustAnalyzer,
                entries.last()->Ok_0@,
            ),
            Err(error) => entries.len() == 0 && error == CacheError::NoCachedBinary,
        }
    } else {
        result is Err && listing_failed(listing, result->Err_0)
    }
}

/// The last directory among `entries`, each of which is a name and whether it
/// is that of a directory, is the one at index `i`.
pub open spec fn last_directory(entries: Seq<Result<(Vec<u8>, bool), String>>, i: int) -> bool {
    &&& 0 <= i < entries.len()
    &&& entries[i]->Ok_0.1
    &&& forall|k: int| i < k < entries.len() ==> !(#[trigger] entries[k])->Ok_0.1
}

/// None of `entries` is a directory.
pub open spec fn no_directory(entries: Seq<Result<(Vec<u8>, bool), String>>) -> bool {
    forall|k: int| 0 <= k < entries.len() ==> !(#[trigger] entries[k])->Ok_0.1
}

/// `result` is the path of the last directory of `listing`, once all of it has
/// been read.
pub open spec fn last_directory_found(
    listing: Listing<(Vec<u8>, bool)>,
    result: Result<Vec<u8>, CacheError>,
) -> bool {
    if listing is Ok && all_read(listing->Ok_0@) {
        let entries = listing->Ok_0@;
        match result {
            Ok(dir) => exists|i: int| #[trigger]
                last_directory(entries, i) && dir@ == entry_path(
                    Server::Clangd,
                    entries[i]->Ok_0.0@,
                ),
            Err(error) => error == CacheError::NoCachedBinary && no_directory(entries),
        }
    } else {
        result is Err && listing_failed(listing, result->Err_0)
    }
}

/// The path of the binary of the version of clangd in the directory at `dir`.
pub open spec fn binary_in_dir(dir: Seq<u8>) -> Seq<u8> {
    text::bytes_join(dir, encode_utf8(install::clangd_binary()))
}

/// `result` is the path of the binary in the directory at `dir`, where there is
/// a file at that path, or else the error that shows the directory as `shown`.
pub open spec fn binary_found(
    dir: Seq<u8>,
    shown: String,
    exists: bool,
    result: Result<Vec<u8>, CacheError>,
) -> bool {
    match result {
        Ok(path) => exists && path@ == binary_in_dir(dir),
        Err(error) => !exists && error == CacheError::MissingBinary(shown),
    }
}

/// The entries of `listing`, once all of it has been read.
fn read_entries<T>(listing: Listing<T>) -> (result: Result<Vec<Result<T, String>>, CacheError>)
    ensures
        match result {
            Ok(entries) => listing == Listing::<T>::Ok(entries) && all_read(entries@),
            Err(error) => !(listing is Ok && all_read(listing->Ok_0@)) && listing_failed(
                listing,
                error,
            ),
        },
{
    let entries = match listing {
        Ok(entries) => entries,
        Err(reason) => return Err(CacheError::Unreadable(reason)),
    };
    let mut i: usize = 0;
    while i < entries.len()
        invariant
            listing == Listing::<T>::Ok(entries),
            i <= entries@.len(),
            forall|k: int| 0 <= k < i ==> (#[trigger] entries@[k]) is Ok,
        decreases entries@.len() - i,
    {
        if let Err(reason) = &entries[i] {
            assert(first_failure(entries@, i as int));
            return Err(CacheError::Unreadable(reason.clone()));
        }
        i = i + 1;
    }
    Ok(entries)
}

impl RustLsp {
    /// The path of the cached binary, from the names of the entries of the
    /// server's directory: the last one.
    pub fn cached_server_binary(&self, listing: Listing<Vec<u8>>) -> (result: Result<
        Vec<u8>,
        CacheError,
    >)
        ensures
            last_entry_found(listing, result),
    {
        let mut entries = match read_entries(listing) {
            Ok(entries) => entries,
            Err(error) => return Err(error),
        };
        match entries.pop() {
            Some(Ok(name)) => Ok(path_of(Server::RustAnalyzer, &name)),
            _ => Err(CacheError::NoCachedBinary),
        }
    }
}

/// The path of the entry of the name `entry` of the server's directory.
fn path_of(server: Server, entry: &Vec<u8>) -> (path: Vec<u8>)
    ensures
        path@ == entry_path(server, entry@),
{
    text::join_bytes(install::dir_of(server).as_bytes(), entry.as_slice())
}

impl CLsp {
    /// The path of the directory of the cached version, from the names of the
    /// entries of the server's directory: the last one that is a directory.
    pub fn cached_server_dir(&self, listing: Listing<(Vec<u8>, bool)>) -> (result: Result<
        Vec<u8>,
        CacheError,
    >)
        ensures
            last_directory_found(listing, result),
    {
        let mut entries = match read_entries(listing) {
            Ok(entries) => entries,
            Err(error) => return Err(error),
        };
        let ghost all = entries@;
        loop
            invariant
                listing is Ok,
                listing->Ok_0@ == all,
                all_read(all),
                entries@.len() <= all.len(),
                entries@ == all.take(entries@.len() as int),
                forall|k: int| entries@.len() <= k < all.len() ==> !(#[trigger] all[k])->Ok_0.1,
            decreases entries@.len(),
        {
            let ghost n = entries@.len() as int;
            match entries.pop() {
                Some(Ok((name, is_dir))) => {
                    assert(all[n - 1] == Ok::<(Vec<u8>, bool), String>((name, is_dir)));
                    if is_dir {
                        assert(last_directory(all, n - 1));
                        return Ok(path_of(Server::Clangd, &name));
                    }
                },
                Some(Err(_)) => {
                    assert(all[n - 1] is Ok);
                },
                None => return Err(CacheError::NoCachedBinary),
            }
        }
    }

    /// The path of the binary of the version in the directory at `dir`.
    pub fn binary_in_version(&self, dir: &Vec<u8>) -> (path: Vec<u8>)
        ensures
            path@ == binary_in_dir(dir@),
    {
        text::join_bytes(dir.as_slice(), "bin/clangd".as_bytes())
    }

    /// The path of the cached binary, which is in the directory that
    /// [`CLsp::cached_server_dir`] found, where there is a file at the path that
    /// [`CLsp::binary_in_version`] gives. Otherwise the error shows the directory
    /// as `shown`.
    pub fn cached_server_binary(&self, dir: &Vec<u8>, shown: String, exists: bool) -> (result:
        Result<Vec<u8>, CacheError>)
        ensures
            binary_found(dir@, shown, exists, result),
    {
        if exists {
            Ok(self.binary_in_version(dir))
        } else {
            Err(CacheError::MissingBinary(shown))
        }
    }
}

/// `entry` is the name of an entry of the server's directory that is not removed
/// when it is read in the course of installing the version `name`.
pub open spec fn left_by_cleaning(server: Server, name: Seq<char>, entry: Seq<u8>) -> bool {
    exists|known: String|
        !(#[trigger] install::next(
            server,
            name,
            install::Stage::Reading,
            install::Event::Entry(Some(known)),
        ) is Removing) && entry == encode_utf8(known@)
}

/// `path` leads to the binary that an installation of the version `name`
/// returns. It is the very path of that binary, unless the version's name holds a
/// separator: then they differ at most in separators and dots that lead nowhere
/// else.
pub open spec fn leads_to_binary(server: Server, name: Seq<char>, path: Seq<u8>) -> bool {
    &&& exists|at: Seq<char>| #[trigger]
        install::installed_at(server, name, at) && path == encode_utf8(
            install::binary_in(server, at),
        )
    &&& !name.contains('/') ==> path == encode_utf8(install::binary_path(server, name))
}

/// What is left after cleaning up holds the version's binary.
proof fn lemma_left_is_installed(server: Server, name: Seq<char>, entry: Seq<u8>)
    requires
        left_by_cleaning(server, name, entry),
    ensures
        leads_to_binary(
            server,
            name,
            match server {
                Server::RustAnalyzer => entry_path(server, entry),
                Server::Clangd => binary_in_dir(entry_path(server, entry)),
            },
        ),
{
    let known = choose|known: String|
        !(#[trigger] install::next(
            server,
            name,
            install::Stage::Reading,
            install::Event::Entry(Some(known)),
        ) is Removing) && entry == encode_utf8(known@);
    let dir = install::server_dir(server);
    let at = text::path_join(dir, known@);
    install::staying_entry_is_the_version(server, name, known);
    text::lemma_encode_join(dir, known@);
    text::lemma_encode_join(at, install::clangd_binary());
    if !name.contains('/') {
        let whole = install::version_entry(server, name);
        reveal_strlit("rust-analyzer-");
        reveal_strlit("clangd_");
        assert(!whole.contains('/')) by {
            if whole.contains('/') {
                let k = whole.index_of('/');
                let n = whole.len() - name.len();
                assert(k >= n);
                assert(name[k - n] == '/');
            }
        }
        text::name_leads_to_itself(whole, known@);
    }
}

/// After a version of rust-analyzer has been installed, the cached binary is the
/// installed one: where the directory holds nothing but what cleaning up leaves,
/// and that is something, the search finds it.
pub proof fn cached_rust_analyzer_is_the_installed_one(
    name: Seq<char>,
    listing: Listing<Vec<u8>>,
    result: Result<Vec<u8>, CacheError>,
)
    requires
        listing is Ok && all_read(listing->Ok_0@) && listing->Ok_0@.len() > 0,
        forall|k: int|
            0 <= k < listing->Ok_0@.len() ==> left_by_cleaning(
                Server::RustAnalyzer,
                name,
                (#[trigger] listing->Ok_0@[k])->Ok_0@,
            ),
        last_entry_found(listing, result),
    ensures
        result is Ok,
        leads_to_binary(Server::RustAnalyzer, name, result->Ok_0@),
{
    let entries = listing->Ok_0@;
    assert(entries.last() == entries[entries.len() - 1]);
    lemma_left_is_installed(Server::RustAnalyzer, name, entries[entries.len() - 1]->Ok_0@);
}

/// After a version of clangd has been installed, the cached binary is the
/// installed one: where the directory holds no other directories than cleaning
/// up leaves, and holds one, the search finds it, and then the binary in it where
/// that exists.
pub proof fn cached_clangd_is_the_installed_one(
    name: Seq<char>,
    listing: Listing<(Vec<u8>, bool)>,
    dir: Result<Vec<u8>, CacheError>,
    shown: String,
    result: Result<Vec<u8>, CacheError>,
)
    requires
        listing is Ok && all_read(listing->Ok_0@),
        !no_directory(listing->Ok_0@),
        forall|k: int|
            0 <= k < listing->Ok_0@.len() && (#[trigger] listing->Ok_0@[k])->Ok_0.1
                ==> left_by_cleaning(Server::Clangd, name, listing->Ok_0@[k]->Ok_0.0@),
        last_directory_found(listing, dir),
        dir is Ok ==> binary_found(dir->Ok_0@, shown, true, result),
    ensures
        dir is Ok,
        result is Ok,
        leads_to_binary(Server::Clangd, name, result->Ok_0@),
{
    let entries = listing->Ok_0@;
    let i = choose|i: int| #[trigger]
        last_directory(entries, i) && dir->Ok_0@ == entry_path(
            Server::Clangd,
            entries[i]->Ok_0.0@,
        );
    assert(entries[i]->Ok_0.1);
    lemma_left_is_installed(Server::Clangd, name, entries[i]->Ok_0.0@);
}

} // verus!
