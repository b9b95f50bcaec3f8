//! The binary that is used when none can be fetched.
use crate::cache;
use crate::cache::CacheError;
use crate::server::{CLsp, RustLsp};
use vstd::prelude::*;
use vstd::utf8::*;

verus! {

/// The bytes of the texts that the paths are made of.
proof fn lemma_parts()
    ensures
        encode_utf8("rust-analyzer/"@) == encode_utf8("rust-analyzer"@).push('/' as u8),
        encode_utf8("clangd/"@) == encode_utf8("clangd"@).push('/' as u8),
        encode_utf8("/bin/clangd"@) == seq!['/' as u8] + encode_utf8("bin/clangd"@),
        encode_utf8("rust-analyzer"@).len() > 0,
        encode_utf8("rust-analyzer"@).last() != '/' as u8,
        encode_utf8("clangd"@).len() > 0,
        encode_utf8("clangd"@).last() != '/' as u8,
{
    reveal_strlit("rust-analyzer/");
    reveal_strlit("rust-analyzer");
    reveal_strlit("clangd/");
    reveal_strlit("clangd");
    reveal_strlit("/bin/clangd");
    reveal_strlit("bin/clangd");
    is_ascii_chars_encode_utf8("rust-analyzer/"@);
    is_ascii_chars_encode_utf8("rust-analyzer"@);
    is_ascii_chars_encode_utf8("clangd/"@);
    is_ascii_chars_encode_utf8("clangd"@);
    is_ascii_chars_encode_utf8("/bin/clangd"@);
    is_ascii_chars_encode_utf8("bin/clangd"@);
    assert(encode_utf8("rust-analyzer/"@) =~= encode_utf8("rust-analyzer"@).push('/' as u8));
    assert(encode_utf8("clangd/"@) =~= encode_utf8("clangd"@).push('/' as u8));
    assert(encode_utf8("/bin/clangd"@) =~= seq!['/' as u8] + encode_utf8("bin/clangd"@));
}

/// Where all entries of rust-analyzer's directory could be read, the last one is
/// the cached binary, whatever and however many stand before it. Without entries
/// there is none.
pub proof fn last_entry_is_cached_rust_analyzer(
    lsp: RustLsp,
    entries: Vec<Result<Vec<u8>, String>>,
    result: Result<Vec<u8>, CacheError>,
)
    requires
        call_ensures(RustLsp::cached_server_binary, (&lsp, Ok(entries)), result),
        forall|k: int| 0 <= k < entries@.len() ==> (#[trigger] entries@[k]) is Ok,
    ensures
        entries@.len() == 0 ==> result is Err && result->Err_0 == CacheError::NoCachedBinary,
        entries@.len() > 0 ==> result is Ok && result->Ok_0@ == encode_utf8("rust-analyzer/"@)
            + entries@[entries@.len() - 1]->Ok_0@,
{
    lemma_parts();
}

/// Two listings of rust-analyzer's directory that could be read and end with the
/// same entry give the same binary.
pub proof fn only_the_last_entry_counts(
    lsp: RustLsp,
    entries: Vec<Result<Vec<u8>, String>>,
    others: Vec<Result<Vec<u8>, String>>,
    result: Result<Vec<u8>, CacheError>,
    other: Result<Vec<u8>, CacheError>,
)
    requires
        call_ensures(RustLsp::cached_server_binary, (&lsp, Ok(entries)), result),
        call_ensures(RustLsp::cached_server_binary, (&lsp, Ok(others)), other),
        forall|k: int| 0 <= k < entries@.len() ==> (#[trigger] entries@[k]) is Ok,
        forall|k: int| 0 <= k < others@.len() ==> (#[trigger] others@[k]) is Ok,
        entries@.len() > 0,
        others@.len() > 0,
        entries@[entries@.len() - 1]->Ok_0@ == others@[others@.len() - 1]->Ok_0@,
    ensures
        result is Ok,
        other is Ok,
        result->Ok_0@ == other->Ok_0@,
{
    last_entry_is_cached_rust_analyzer(lsp, entries, result);
    last_entry_is_cached_rust_analyzer(lsp, others, other);
}

/// A directory of rust-analyzer that could not be listed gives the reason, and so
/// does the first of its entries that could not be read.
pub proof fn unreadable_rust_analyzer_gives_the_reason(
    lsp: RustLsp,
    listing: Result<Vec<Result<Vec<u8>, String>>, String>,
    i: int,
    result: Result<Vec<u8>, CacheError>,
)
    requires
        call_ensures(RustLsp::cached_server_binary, (&lsp, listing), result),
    ensures
        listing is Err ==> result is Err && result->Err_0 == CacheError::Unreadable(
            listing->Err_0,
        ),
        listing is Ok && 0 <= i < listing->Ok_0@.len() && listing->Ok_0@[i] is Err && (forall|
            k: int,
        |
            0 <= k < i ==> (#[trigger] listing->Ok_0@[k]) is Ok) ==> result is Err && result->Err_0
            == CacheError::Unreadable(listing->Ok_0@[i]->Err_0),
{
    if listing is Ok {
        let entries = listing->Ok_0@;
        if 0 <= i < entries.len() && entries[i] is Err && (forall|k: int|
            0 <= k < i ==> (#[trigger] entries[k]) is Ok) {
            assert(!cache::all_read(entries));
            let j = choose|j: int| #[trigger]
                cache::first_failure(entries, j) && result->Err_0 == CacheError::Unreadable(
                    entries[j]->Err_0,
                );
            assert(j == i) by {
                if j < i {
                    assert(entries[j] is Ok);
                } else if i < j {
                    assert(entries[i] is Ok);
                }
            }
        }
    }
}

/// Where all entries of clangd's directory could be read, the last one that is a
/// directory holds the cached version, whatever stands before it and whatever
/// files stand behind it. Without directories there is none.
pub proof fn last_directory_is_cached_clangd(
    lsp: CLsp,
    entries: Vec<Result<(Vec<u8>, bool), String>>,
    i: int,
    result: Result<Vec<u8>, CacheError>,
)
    requires
        call_ensures(CLsp::cached_server_dir, (&lsp, Ok(entries)), result),
        forall|k: int| 0 <= k < entries@.len() ==> (#[trigger] entries@[k]) is Ok,
        -1 <= i < entries@.len(),
        i >= 0 ==> entries@[i]->Ok_0.1,
        forall|k: int| i < k < entries@.len() ==> !(#[trigger] entries@[k])->Ok_0.1,
    ensures
        i == -1 ==> result is Err && result->Err_0 == CacheError::NoCachedBinary,
        i >= 0 ==> result is Ok && result->Ok_0@ == encode_utf8("clangd/"@)
            + entries@[i]->Ok_0.0@,
{
    lemma_parts();
    let all = entries@;
    assert(cache::all_read(all));
    if result is Ok {
        let j = choose|j: int| #[trigger]
            cache::last_directory(all, j) && result->Ok_0@ == cache::entry_path(
                crate::install::Server::Clangd,
                all[j]->Ok_0.0@,
            );
        assert(all[j]->Ok_0.1);
        assert(j == i) by {
            if j < i {
                assert(!all[i]->Ok_0.1);
            }
        }
    } else if i >= 0 {
        assert(!all[i]->Ok_0.1);
    }
}

/// A directory of clangd that could not be listed gives the reason, and so does
/// the first of its entries that could not be read.
pub proof fn unreadable_clangd_gives_the_reason(
    lsp: CLsp,
    listing: Result<Vec<Result<(Vec<u8>, bool), String>>, String>,
    i: int,
    result: Result<Vec<u8>, CacheError>,
)
    requires
        call_ensures(CLsp::cached_server_dir, (&lsp, listing), result),
    ensures
        listing is Err ==> result is Err && result->Err_0 == CacheError::Unreadable(
            listing->Err_0,
        ),
        listing is Ok && 0 <= i < listing->Ok_0@.len() && listing->Ok_0@[i] is Err && (forall|
            k: int,
        |
            0 <= k < i ==> (#[trigger] listing->Ok_0@[k]) is Ok) ==> result is Err && result->Err_0
            == CacheError::Unreadable(listing->Ok_0@[i]->Err_0),
{
    if listing is Ok {
        let entries = listing->Ok_0@;
        if 0 <= i < entries.len() && entries[i] is Err && (forall|k: int|
            0 <= k < i ==> (#[trigger] entries[k]) is Ok) {
            assert(!cache::all_read(entries));
            let j = choose|j: int| #[trigger]
                cache::first_failure(entries, j) && result->Err_0 == CacheError::Unreadable(
                    entries[j]->Err_0,
                );
            assert(j == i) by {
                if j < i {
                    assert(entries[j] is Ok);
                } else if i < j {
                    assert(entries[i] is Ok);
                }
            }
        }
    }
}

/// The cached clangd is at `bin/clangd` in the directory of its version, and that
/// is where it is looked for. Where nothing is there, the error shows the
/// directory.
pub proof fn cached_clangd_is_in_its_directory(
    lsp: CLsp,
    dir: Vec<u8>,
    shown: String,
    exists: bool,
    looked_for: Vec<u8>,
    result: Result<Vec<u8>, CacheError>,
)
    requires
        call_ensures(CLsp::binary_in_version, (&lsp, &dir), looked_for),
        call_ensures(CLsp::cached_server_binary, (&lsp, &dir, shown, exists), result),
    ensures
        dir@.len() > 0 && dir@.last() != '/' as u8 ==> looked_for@ == dir@ + encode_utf8(
            "/bin/clangd"@,
        ),
        dir@.len() == 0 || dir@.last() == '/' as u8 ==> looked_for@ == dir@ + encode_utf8(
            "bin/clangd"@,
        ),
        exists ==> result is Ok && result->Ok_0@ == looked_for@,
        !exists ==> result is Err && result->Err_0 == CacheError::MissingBinary(shown),
{
    lemma_parts();
    assert(dir@.push('/' as u8) + encode_utf8("bin/clangd"@) =~= dir@ + encode_utf8(
        "/bin/clangd"@,
    ));
}

/// From the listing on, the cached clangd is at `bin/clangd` in the last
/// directory of clangd's own.
pub proof fn cached_clangd_is_in_the_last_directory(
    lsp: CLsp,
    entries: Vec<Result<(Vec<u8>, bool), String>>,
    i: int,
    dir: Vec<u8>,
    shown: String,
    result: Result<Vec<u8>, CacheError>,
)
    requires
        call_ensures(CLsp::cached_server_dir, (&lsp, Ok(entries)), Ok(dir)),
        call_ensures(CLsp::cached_server_binary, (&lsp, &dir, shown, true), result),
        forall|k: int| 0 <= k < entries@.len() ==> (#[trigger] entries@[k]) is Ok,
        0 <= i < entries@.len(),
        entries@[i]->Ok_0.1,
        forall|k: int| i < k < entries@.len() ==> !(#[trigger] entries@[k])->Ok_0.1,
        entries@[i]->Ok_0.0@.len() > 0,
        entries@[i]->Ok_0.0@.last() != '/' as u8,
    ensures
        result is Ok,
        result->Ok_0@ == encode_utf8("clangd/"@) + entries@[i]->Ok_0.0@ + encode_utf8(
            "/bin/clangd"@,
        ),
{
    lemma_parts();
    last_directory_is_cached_clangd(lsp, entries, i, Ok(dir));
    assert(dir@.last() == entries@[i]->Ok_0.0@.last());
    assert(dir@.push('/' as u8) + encode_utf8("bin/clangd"@) =~= dir@ + encode_utf8(
        "/bin/clangd"@,
    ));
}

/// The text of an error is the reason, or says what is missing, and where.
pub proof fn cache_errors_say_why(error: CacheError, message: String)
    requires
        call_ensures(CacheError::message, (&error,), message),
    ensures
        error matches CacheError::Unreadable(reason) ==> message@ == reason@,
        error is NoCachedBinary ==> message@ == "no cached binary"@,
        error matches CacheError::MissingBinary(dir) ==> message@
            == "missing clangd binary in directory "@ + dir@,
{
}

} // verus!
