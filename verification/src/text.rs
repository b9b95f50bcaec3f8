//! Searching and measuring text.
//!
//! The view of a string is its sequence of characters. Editor ranges count
//! bytes of the UTF-8 encoding, so a position found among the characters is
//! turned into a byte offset by [`byte_offset`].
use vstd::prelude::*;
use vstd::utf8::*;

verus! {

/// The number of bytes that encode `s`.
pub open spec fn byte_len(s: Seq<char>) -> nat {
    encode_utf8(s).len()
}

/// The byte position of the character at index `k` of `s`.
pub open spec fn byte_offset(s: Seq<char>, k: int) -> nat {
    byte_len(s.take(k))
}

/// The byte position `offset` of `s` is between two characters, or at an end.
pub open spec fn is_boundary(s: Seq<char>, offset: int) -> bool {
    exists|k: int| 0 <= k <= s.len() && offset == #[trigger] byte_offset(s, k)
}

/// `pattern` stands in `s` at index `k`.
pub open spec fn occurs_at(s: Seq<char>, pattern: Seq<char>, k: int) -> bool {
    &&& 0 <= k
    &&& k + pattern.len() <= s.len()
    &&& s.subrange(k, k + pattern.len()) == pattern
}

/// The smallest index at which `pattern` stands in `s`.
pub open spec fn find_text(s: Seq<char>, pattern: Seq<char>) -> Option<int>
    decreases s.len(),
{
    if s.len() < pattern.len() {
        None
    } else if s.take(pattern.len() as int) == pattern {
        Some(0)
    } else if s.len() == 0 {
        None
    } else {
        match find_text(s.drop_first(), pattern) {
            Some(k) => Some(k + 1),
            None => None,
        }
    }
}

/// What [`find_text`] finds is an occurrence, none comes before it, and it
/// finds one whenever there is one.
pub proof fn lemma_find_text(s: Seq<char>, pattern: Seq<char>)
    ensures
        match find_text(s, pattern) {
            Some(k) => occurs_at(s, pattern, k) && forall|j: int|
                0 <= j < k ==> !occurs_at(s, pattern, j),
            None => forall|j: int| !occurs_at(s, pattern, j),
        },
    decreases s.len(),
{
    let n = pattern.len() as int;
    if s.len() < pattern.len() {
    } else if s.take(n) == pattern {
        assert(s.subrange(0, n) =~= s.take(n));
    } else if s.len() == 0 {
    } else {
        let rest = s.drop_first();
        lemma_find_text(rest, pattern);
        assert forall|j: int| #[trigger] occurs_at(s, pattern, j) implies j > 0 && occurs_at(
            rest,
            pattern,
            j - 1,
        ) by {
            if j == 0 {
                assert(s.subrange(0, n) =~= s.take(n));
            }
            assert(s.subrange(j, j + n) =~= rest.subrange(j - 1, j - 1 + n));
        }
        if let Some(k) = find_text(rest, pattern) {
            assert(s.subrange(k + 1, k + 1 + n) =~= rest.subrange(k, k + n));
        }
    }
}

/// The index of the last `c` in `s`.
pub open spec fn rfind_char(s: Seq<char>, c: char) -> Option<int>
    decreases s.len(),
{
    if s.len() == 0 {
        None
    } else if s.last() == c {
        Some(s.len() - 1)
    } else {
        rfind_char(s.drop_last(), c)
    }
}

/// What [`rfind_char`] finds is a `c`, none comes after it, and it finds one
/// whenever there is one.
pub proof fn lemma_rfind_char(s: Seq<char>, c: char)
    ensures
        match rfind_char(s, c) {
            Some(k) => 0 <= k < s.len() && s[k] == c && forall|j: int|
                k < j < s.len() ==> s[j] != c,
            None => !s.contains(c),
        },
    decreases s.len(),
{
    if s.len() > 0 && s.last() != c {
        lemma_rfind_char(s.drop_last(), c);
        assert(forall|j: int| 0 <= j < s.len() - 1 ==> s[j] == s.drop_last()[j]);
    }
}

/// Encoding distributes over concatenation.
pub proof fn lemma_encode_concat(a: Seq<char>, b: Seq<char>)
    ensures
        encode_utf8(a + b) == encode_utf8(a) + encode_utf8(b),
    decreases a.len(),
{
    if a.len() == 0 {
        assert(a + b =~= b);
        assert(encode_utf8(a) + encode_utf8(b) =~= encode_utf8(b));
    } else {
        lemma_encode_concat(a.drop_first(), b);
        assert((a + b).drop_first() =~= a.drop_first() + b);
        let first = encode_scalar(a[0] as u32);
        assert(first + (encode_utf8(a.drop_first()) + encode_utf8(b)) =~= (first + encode_utf8(
            a.drop_first(),
        )) + encode_utf8(b));
    }
}

/// A later character has no smaller byte offset, and none is past the end.
pub proof fn lemma_byte_offset_le(s: Seq<char>, k: int, m: int)
    requires
        0 <= k <= m <= s.len(),
    ensures
        byte_offset(s, k) <= byte_offset(s, m) <= byte_len(s),
{
    assert(s.take(m) =~= s.take(k) + s.subrange(k, m));
    lemma_encode_concat(s.take(k), s.subrange(k, m));
    assert(s =~= s.take(m) + s.skip(m));
    lemma_encode_concat(s.take(m), s.skip(m));
}

/// The length of `s` in bytes.
pub fn len_in_bytes(s: &str) -> (n: usize)
    ensures
        n == byte_len(s@),
{
    s.as_bytes().len()
}

/// The characters of `s`.
fn characters(s: &str) -> (chars: Vec<char>)
    ensures
        chars@ == s@,
{
    let mut chars: Vec<char> = Vec::new();
    for c in it: s.chars()
        invariant
            it.seq() == s@,
            chars@ == s@.take(it.index()),
    {
        chars.push(c);
    }
    chars
}

/// Whether `pattern` stands in `s` at index `k`.
fn matches_at(s: &Vec<char>, pattern: &Vec<char>, k: usize) -> (found: bool)
    requires
        k <= s@.len(),
    ensures
        found == occurs_at(s@, pattern@, k as int),
{
    let n: usize = s.len();
    if n - k < pattern.len() {
        return false;
    }
    let mut i: usize = 0;
    while i < pattern.len()
        invariant
            n == s@.len(),
            k + pattern@.len() <= n,
            i <= pattern@.len(),
            forall|j: int| 0 <= j < i ==> s@[k + j] == pattern@[j],
        decreases pattern@.len() - i,
    {
        if s[k + i] != pattern[i] {
            assert(s@.subrange(k as int, k + pattern@.len())[i as int] != pattern@[i as int]);
            return false;
        }
        i = i + 1;
    }
    assert(s@.subrange(k as int, k + pattern@.len()) =~= pattern@);
    true
}

/// The byte offset of the first place where `pattern` stands in `s`.
pub fn find(s: &str, pattern: &str) -> (offset: Option<usize>)
    ensures
        match find_text(s@, pattern@) {
            Some(k) => offset matches Some(o) && o == byte_offset(s@, k),
            None => offset is None,
        },
{
    let chars = characters(s);
    let wanted = characters(pattern);
    proof {
        lemma_find_text(s@, pattern@);
    }
    let mut k: usize = 0;
    loop
        invariant
            chars@ == s@,
            wanted@ == pattern@,
            k <= s@.len(),
            forall|j: int| 0 <= j < k ==> !occurs_at(s@, pattern@, j),
            match find_text(s@, pattern@) {
                Some(f) => occurs_at(s@, pattern@, f) && forall|j: int|
                    0 <= j < f ==> !occurs_at(s@, pattern@, j),
                None => forall|j: int| !occurs_at(s@, pattern@, j),
            },
        decreases s@.len() - k,
    {
        if matches_at(&chars, &wanted, k) {
            let before = s.substring_char(0, k);
            assert(before@ =~= s@.take(k as int));
            return Some(len_in_bytes(before));
        }
        if k == chars.len() {
            assert(forall|j: int| #[trigger] occurs_at(s@, pattern@, j) ==> j <= s@.len());
            return None;
        }
        k = k + 1;
    }
}

/// The byte offset of the last `c` in `s`.
pub fn rfind(s: &str, c: char) -> (offset: Option<usize>)
    ensures
        match rfind_char(s@, c) {
            Some(k) => offset matches Some(o) && o == byte_offset(s@, k),
            None => offset is None,
        },
{
    let chars = characters(s);
    let mut k: usize = chars.len();
    assert(s@.take(k as int) =~= s@);
    while k > 0
        invariant
            chars@ == s@,
            k <= s@.len(),
            rfind_char(s@, c) == rfind_char(s@.take(k as int), c),
        decreases k,
    {
        k = k - 1;
        assert(s@.take(k + 1).drop_last() =~= s@.take(k as int));
        if chars[k] == c {
            let before = s.substring_char(0, k);
            assert(before@ =~= s@.take(k as int));
            return Some(len_in_bytes(before));
        }
    }
    None
}

/// `a` followed by `b`.
pub fn join(a: &str, b: &str) -> (s: String)
    ensures
        s@ == a@ + b@,
{
    String::from_str(a).concat(b)
}

/// The digit for `d`.
pub open spec fn digit(d: int) -> char {
    "0123456789"@[d]
}

/// The decimal digits of `n`.
pub open spec fn decimal(n: nat) -> Seq<char>
    decreases n,
{
    if n < 10 {
        seq![digit(n as int)]
    } else {
        decimal(n / 10).push(digit((n % 10) as int))
    }
}

/// `n` in decimal.
pub fn to_decimal(n: u16) -> (s: String)
    ensures
        s@ == decimal(n as nat),
    decreases n,
{
    proof {
        reveal_strlit("0123456789");
    }
    let d: usize = (n % 10) as usize;
    let last = "0123456789".substring_char(d, d + 1);
    assert(last@ =~= seq![digit(d as int)]);
    if n < 10 {
        String::from_str(last)
    } else {
        let front = to_decimal(n / 10);
        assert(front@ + last@ =~= front@.push(digit(d as int)));
        front.concat(last)
    }
}

/// The path that leads from `base` on along `path`, which does not start at the
/// root.
pub open spec fn path_join(base: Seq<char>, path: Seq<char>) -> Seq<char> {
    if base.len() > 0 && base.last() != '/' {
        base + "/"@ + path
    } else {
        base + path
    }
}

/// The path that leads from `base` on along `path`.
pub fn join_path(base: &str, path: &str) -> (joined: String)
    ensures
        joined@ == path_join(base@, path@),
{
    let n: usize = base.unicode_len();
    if n > 0 && base.get_char(n - 1) != '/' {
        join(join(base, "/").as_str(), path)
    } else {
        join(base, path)
    }
}

/// The path that leads from `base` on along `path`, which does not start at the
/// root, all of them in bytes.
pub open spec fn bytes_join(base: Seq<u8>, path: Seq<u8>) -> Seq<u8> {
    if base.len() > 0 && base.last() != '/' as u8 {
        base.push('/' as u8) + path
    } else {
        base + path
    }
}

/// The path that leads from `base` on along `path`, all of them in bytes.
pub fn join_bytes(base: &[u8], path: &[u8]) -> (joined: Vec<u8>)
    ensures
        joined@ == bytes_join(base@, path@),
{
    let mut joined: Vec<u8> = Vec::new();
    joined.extend_from_slice(base);
    if base.len() > 0 && base[base.len() - 1] != '/' as u8 {
        joined.push('/' as u8);
    }
    joined.extend_from_slice(path);
    assert(joined@ =~= bytes_join(base@, path@));
    joined
}

/// The last byte of a character is that of a separator just where the character
/// is one.
proof fn lemma_last_byte(c: char)
    ensures
        encode_scalar(c as u32).len() > 0,
        encode_scalar(c as u32).last() == '/' as u8 <==> c == '/',
{
    let n = c as u32;
    if has_width_1_encoding(n) {
        assert(n <= 0x7f ==> (leading_byte_width_1(n) == 0x2f <==> n == 0x2f)) by (bit_vector);
    } else {
        assert(last_continuation_byte(n) != 0x2f) by (bit_vector);
    }
}

/// Joining paths and then encoding them gives the same as joining their bytes.
pub proof fn lemma_encode_join(base: Seq<char>, path: Seq<char>)
    ensures
        encode_utf8(path_join(base, path)) == bytes_join(encode_utf8(base), encode_utf8(path)),
{
    reveal_strlit("/");
    let slash = "/"@;
    assert(slash =~= seq!['/']);
    assert(encode_utf8(slash) =~= seq!['/' as u8]) by {
        is_ascii_chars_encode_utf8(slash);
    }
    lemma_encode_concat(base, path);
    lemma_encode_concat(base + slash, path);
    lemma_encode_concat(base, slash);
    assert(encode_utf8(base) + seq!['/' as u8] =~= encode_utf8(base).push('/' as u8));
    if base.len() > 0 {
        let end = seq![base.last()];
        assert(base =~= base.drop_last() + end);
        lemma_encode_concat(base.drop_last(), end);
        lemma_last_byte(base.last());
        assert(end.drop_first() =~= Seq::<char>::empty());
        assert(encode_utf8(end) =~= encode_scalar(base.last() as u32)) by {
            reveal_with_fuel(encode_utf8, 2);
        }
        assert(encode_utf8(base).last() == encode_scalar(base.last() as u32).last());
    }
}

/// Going on along `path` leads nowhere else: it is made of separators, each
/// perhaps with a dot behind it.
pub open spec fn stays_here(path: Seq<char>) -> bool
    decreases path.len(),
{
    if path.len() == 0 {
        true
    } else if path[0] != '/' {
        false
    } else if path.len() > 1 && path[1] == '.' {
        stays_here(path.skip(2))
    } else {
        stays_here(path.skip(1))
    }
}

/// `path` leads to the entry of the name `entry`. Paths are compared by their
/// components, so that separators and dots at the end make no difference.
pub open spec fn leads_to(path: Seq<char>, entry: Seq<char>) -> bool {
    &&& occurs_at(path, entry, 0)
    &&& stays_here(path.skip(entry.len() as int))
}

/// Whether `path` leads to the entry of the name `entry`.
pub fn path_leads_to(path: &str, entry: &str) -> (found: bool)
    ensures
        found == leads_to(path@, entry@),
{
    let chars = characters(path);
    let name = characters(entry);
    if !matches_at(&chars, &name, 0) {
        return false;
    }
    let n: usize = chars.len();
    let mut i: usize = name.len();
    while i < n
        invariant
            chars@ == path@,
            n == path@.len(),
            entry@.len() <= i <= n,
            stays_here(path@.skip(entry@.len() as int)) == stays_here(path@.skip(i as int)),
        decreases n - i,
    {
        let ghost rest = path@.skip(i as int);
        if chars[i] != '/' {
            return false;
        }
        if i + 1 < n && chars[i + 1] == '.' {
            assert(rest.skip(2) =~= path@.skip(i + 2));
            i = i + 2;
        } else {
            assert(rest.skip(1) =~= path@.skip(i + 1));
            i = i + 1;
        }
    }
    true
}

/// A path that is the name of an entry leads to that entry, and one without
/// separators leads to no other.
pub proof fn name_leads_to_itself(path: Seq<char>, entry: Seq<char>)
    ensures
        leads_to(entry, entry),
        !path.contains('/') ==> (leads_to(path, entry) <==> path == entry),
{
    assert(entry.subrange(0, entry.len() as int) =~= entry);
    assert(entry.skip(entry.len() as int) =~= Seq::<char>::empty());
    if !path.contains('/') && leads_to(path, entry) {
        let tail = path.skip(entry.len() as int);
        if tail.len() > 0 {
            assert(path[entry.len() as int] == tail[0]);
        }
        assert(path =~= path.subrange(0, entry.len() as int));
    }
}

/// What formatting `s` with `{:?}` gives.
pub uninterp spec fn debug_text(s: Seq<char>) -> Seq<char>;

/// `c` is a letter or a digit of ASCII, a hyphen, an underscore or a dot.
pub open spec fn is_plain_char(c: char) -> bool {
    ||| 'a' <= c <= 'z'
    ||| 'A' <= c <= 'Z'
    ||| '0' <= c <= '9'
    ||| c == '-'
    ||| c == '_'
    ||| c == '.'
}

/// `s` holds plain characters alone.
pub open spec fn is_plain(s: Seq<char>) -> bool {
    forall|i: int| 0 <= i < s.len() ==> is_plain_char(#[trigger] s[i])
}

/// `s` between quotation marks.
pub open spec fn quoted_text(s: Seq<char>) -> Seq<char> {
    seq!['"'] + s + seq!['"']
}

/// Calls the formatting of `str` with `{:?}`, which puts the text between
/// quotation marks and escapes some of its characters. The result depends on
/// the text alone, and plain characters are not escaped; which others are is
/// left unsaid.
#[verifier::external_body]
pub(crate) fn debug(s: &str) -> (quoted: String)
    ensures
        quoted@ == debug_text(s@),
        is_plain(s@) ==> quoted@ == quoted_text(s@),
{
    format!("{:?}", s)
}

} // verus!
