//! Texts and paths.
use crate::text;
use vstd::prelude::*;
use vstd::utf8::*;

verus! {

/// The first place where `pattern` stands in a text is behind `before`.
pub(crate) proof fn lemma_found(s: Seq<char>, pattern: Seq<char>, before: Seq<char>)
    requires
        before.len() + pattern.len() <= s.len(),
        s.take(before.len() as int) == before,
        s.subrange(before.len() as int, (before.len() + pattern.len()) as int) == pattern,
        forall|k: int|
            0 <= k < before.len() && k + pattern.len() <= s.len() ==> #[trigger] s.subrange(
                k,
                k + pattern.len(),
            ) != pattern,
    ensures
        text::find_text(s, pattern) == Some(before.len() as int),
        text::byte_offset(s, before.len() as int) == encode_utf8(before).len(),
{
    text::lemma_find_text(s, pattern);
    let n = before.len() as int;
    assert(text::occurs_at(s, pattern, n));
    assert(text::find_text(s, pattern) is Some);
    let k = text::find_text(s, pattern)->0;
    assert(text::occurs_at(s, pattern, k));
    if k < n {
        assert(s.subrange(k, k + pattern.len()) == pattern);
    }
}

/// A text in which `pattern` stands nowhere.
pub(crate) proof fn lemma_not_found(s: Seq<char>, pattern: Seq<char>)
    requires
        forall|k: int|
            0 <= k && k + pattern.len() <= s.len() ==> #[trigger] s.subrange(k, k + pattern.len())
                != pattern,
    ensures
        text::find_text(s, pattern) is None,
{
    text::lemma_find_text(s, pattern);
    if let Some(k) = text::find_text(s, pattern) {
        assert(s.subrange(k, k + pattern.len()) == pattern);
    }
}

/// The last place of `c` in a text is behind `before`.
pub(crate) proof fn lemma_found_last(
    s: Seq<char>,
    c: char,
    before: Seq<char>,
    after: Seq<char>,
)
    requires
        s == before + seq![c] + after,
        !after.contains(c),
    ensures
        text::rfind_char(s, c) == Some(before.len() as int),
        text::byte_offset(s, before.len() as int) == encode_utf8(before).len(),
{
    text::lemma_rfind_char(s, c);
    let n = before.len() as int;
    assert(s[n] == c);
    assert(s.contains(c));
    let k = text::rfind_char(s, c)->0;
    if k > n {
        assert(after[k - n - 1] == c);
    }
    assert(s.take(n) =~= before);
}

/// A text is found in another at the byte behind all that comes before its first
/// place there.
pub proof fn text_is_found_where_it_stands_first(
    s: &str,
    pattern: &str,
    before: Seq<char>,
    after: Seq<char>,
    offset: Option<usize>,
)
    requires
        call_ensures(text::find, (s, pattern), offset),
        s@ == before + pattern@ + after,
        forall|k: int|
            0 <= k < before.len() && k + pattern@.len() <= s@.len() ==> #[trigger] s@.subrange(
                k,
                k + pattern@.len(),
            ) != pattern@,
    ensures
        offset is Some,
        offset->0 == encode_utf8(before).len(),
{
    assert(s@.take(before.len() as int) =~= before);
    assert(s@.subrange(before.len() as int, (before.len() + pattern@.len()) as int)
        =~= pattern@);
    lemma_found(s@, pattern@, before);
}

/// A text is found in another only where it stands there.
pub proof fn text_is_found_only_where_it_stands(s: &str, pattern: &str, offset: Option<usize>)
    requires
        call_ensures(text::find, (s, pattern), offset),
    ensures
        offset is Some <==> exists|k: int|
            0 <= k && k + pattern@.len() <= s@.len() && #[trigger] s@.subrange(
                k,
                k + pattern@.len(),
            ) == pattern@,
{
    text::lemma_find_text(s@, pattern@);
    if let Some(k) = text::find_text(s@, pattern@) {
        assert(s@.subrange(k, k + pattern@.len()) == pattern@);
    }
    if exists|k: int|
        0 <= k && k + pattern@.len() <= s@.len() && #[trigger] s@.subrange(k, k + pattern@.len())
            == pattern@ {
        let k = choose|k: int|
            0 <= k && k + pattern@.len() <= s@.len() && #[trigger] s@.subrange(
                k,
                k + pattern@.len(),
            ) == pattern@;
        assert(text::occurs_at(s@, pattern@, k));
    }
}

/// A character is found from the end at the byte behind all that comes before
/// its last place in a text, and not where it is not there.
pub proof fn character_is_found_where_it_stands_last(
    s: &str,
    c: char,
    before: Seq<char>,
    after: Seq<char>,
    offset: Option<usize>,
)
    requires
        call_ensures(text::rfind, (s, c), offset),
        !after.contains(c),
    ensures
        s@ == before + seq![c] + after ==> offset is Some && offset->0 == encode_utf8(
            before,
        ).len(),
        !s@.contains(c) ==> offset is None,
{
    if s@ == before + seq![c] + after {
        lemma_found_last(s@, c, before, after);
    }
    text::lemma_rfind_char(s@, c);
}

/// Joining keeps both texts, and lengths count bytes.
pub proof fn joined_text_holds_both(a: &str, b: &str, joined: String, length: usize)
    requires
        call_ensures(text::join, (a, b), joined),
        call_ensures(text::len_in_bytes, (a,), length),
    ensures
        joined@ == a@ + b@,
        length == encode_utf8(a@).len(),
{
}

/// A path is joined to another with exactly one separator between them, where the
/// first does not end with one.
pub proof fn paths_are_joined_by_one_separator(
    base: &str,
    path: &str,
    joined: String,
    base_bytes: &[u8],
    path_bytes: &[u8],
    joined_bytes: Vec<u8>,
)
    requires
        call_ensures(text::join_path, (base, path), joined),
        call_ensures(text::join_bytes, (base_bytes, path_bytes), joined_bytes),
    ensures
        base@.len() > 0 && base@.last() != '/' ==> joined@ == base@ + seq!['/'] + path@,
        base@.len() == 0 || base@.last() == '/' ==> joined@ == base@ + path@,
        base_bytes@.len() > 0 && base_bytes@.last() != 0x2f ==> joined_bytes@ == base_bytes@
            + seq![0x2fu8] + path_bytes@,
        base_bytes@.len() == 0 || base_bytes@.last() == 0x2f ==> joined_bytes@ == base_bytes@
            + path_bytes@,
{
    reveal_strlit("/");
    assert("/"@ =~= seq!['/']);
    assert(base_bytes@.push(0x2f) =~= base_bytes@ + seq![0x2fu8]);
}

/// A path is made of separators, each perhaps with a dot behind it, just where
/// every character is a separator or a dot behind one.
pub(crate) proof fn lemma_stays_here(path: Seq<char>)
    ensures
        text::stays_here(path) <==> forall|k: int|
            0 <= k < path.len() ==> (#[trigger] path[k] == '/' || (path[k] == '.' && k > 0 && path[k
                - 1] == '/')),
    decreases path.len(),
{
    if path.len() > 0 {
        let n: int = if path.len() > 1 && path[1] == '.' {
            2
        } else {
            1
        };
        let rest = path.skip(n);
        lemma_stays_here(rest);
        assert(forall|k: int| 0 <= k < rest.len() ==> rest[k] == path[k + n]);
        let fits = |s: Seq<char>|
            forall|k: int|
                0 <= k < s.len() ==> (#[trigger] s[k] == '/' || (s[k] == '.' && k > 0 && s[k - 1]
                    == '/'));
        if path[0] == '/' && fits(rest) {
            assert forall|k: int| 0 <= k < path.len() implies (#[trigger] path[k] == '/' || (path[k]
                == '.' && k > 0 && path[k - 1] == '/')) by {
                if k >= n {
                    let _ = rest[k - n];
                }
            }
        }
        if fits(path) {
            assert(path[0] == '/');
            assert forall|k: int| 0 <= k < rest.len() implies (#[trigger] rest[k] == '/' || (rest[k]
                == '.' && k > 0 && rest[k - 1] == '/')) by {
                let _ = path[k + n];
                if k == 0 && rest[0] == '.' {
                    assert(path[n] == '.' && path[n - 1] == '/');
                }
            }
        }
    }
}

/// A path leads to an entry just where it starts with the entry's name, and all
/// that follows are separators and dots, each dot directly behind a separator.
pub proof fn path_leads_to_the_entry_it_names(path: &str, entry: &str, found: bool)
    requires
        call_ensures(text::path_leads_to, (path, entry), found),
    ensures
        found <==> entry@.len() <= path@.len() && path@.take(entry@.len() as int) == entry@
            && forall|k: int|
            entry@.len() <= k < path@.len() ==> (#[trigger] path@[k] == '/' || (path@[k] == '.' && k
                > entry@.len() && path@[k - 1] == '/')),
{
    lemma_leads_to(path@, entry@);
}

/// What it takes for a path to lead to an entry.
pub(crate) proof fn lemma_leads_to(path: Seq<char>, entry: Seq<char>)
    ensures
        text::leads_to(path, entry) <==> entry.len() <= path.len() && path.take(entry.len() as int)
            == entry && forall|k: int|
            entry.len() <= k < path.len() ==> (#[trigger] path[k] == '/' || (path[k] == '.' && k
                > entry.len() && path[k - 1] == '/')),
{
    let n = entry.len() as int;
    if n <= path.len() {
        let tail = path.skip(n);
        lemma_stays_here(tail);
        assert(path.subrange(0, n) =~= path.take(n));
        assert(forall|k: int| 0 <= k < tail.len() ==> tail[k] == path[k + n]);
        if forall|k: int|
            0 <= k < tail.len() ==> (#[trigger] tail[k] == '/' || (tail[k] == '.' && k > 0 && tail[k
                - 1] == '/')) {
            assert forall|k: int| n <= k < path.len() implies (#[trigger] path[k] == '/' || (path[k]
                == '.' && k > n && path[k - 1] == '/')) by {
                let _ = tail[k - n];
            }
        }
        if forall|k: int|
            n <= k < path.len() ==> (#[trigger] path[k] == '/' || (path[k] == '.' && k > n && path[k
                - 1] == '/')) {
            assert forall|k: int| 0 <= k < tail.len() implies (#[trigger] tail[k] == '/' || (tail[k]
                == '.' && k > 0 && tail[k - 1] == '/')) by {
                let _ = path[k + n];
            }
        }
    }
}

/// A number of one digit is that digit; one of more digits is the number without
/// its last digit, followed by that digit.
pub proof fn decimals_are_read_digit_by_digit(n: u16, s: String, front: String)
    requires
        call_ensures(text::to_decimal, (n,), s),
        call_ensures(text::to_decimal, (n / 10,), front),
    ensures
        n < 10 ==> s@ == seq![(0x30 + n) as char],
        n >= 10 ==> s@ == front@.push((0x30 + n % 10) as char),
{
    lemma_decimal(n);
}

/// The digits of a number.
pub(crate) proof fn lemma_decimal(n: u16)
    ensures
        n < 10 ==> text::decimal(n as nat) == seq![(0x30 + n) as char],
        n >= 10 ==> text::decimal(n as nat) == text::decimal((n / 10) as nat).push(
            (0x30 + n % 10) as char,
        ),
{
    reveal_strlit("0123456789");
    assert forall|d: int| 0 <= d < 10 implies #[trigger] text::digit(d) == (0x30 + d) as char by {
    }
}

} // verus!
