//! Pattern replacement through the `regex` crate.
use regex::Regex;
use vstd::prelude::*;

verus! {

/// A code span of `s` opens at index `i`, and the backtick at index `j`, which
/// closes it, ends its line and directly follows a line break. The span holds
/// something before that line break.
pub open spec fn broken_span(s: Seq<char>, i: int, j: int) -> bool {
    &&& 0 <= i
    &&& i + 2 < j < s.len()
    &&& s[i] == '`'
    &&& s[j] == '`'
    &&& s[j - 1] == '\n'
    &&& forall|k: int| i < k < j ==> s[k] != '`'
    &&& j + 1 == s.len() || s[j + 1] == '\n'
}

/// `s` without the line break before the closing backtick of each broken code
/// span, the spans being taken from left to right, one after the other.
pub open spec fn mend_spans(s: Seq<char>) -> Seq<char>
    decreases s.len(),
{
    if s.len() == 0 {
        s
    } else if exists|j: int| broken_span(s, 0, j) {
        let j = choose|j: int| broken_span(s, 0, j);
        s.take(j - 1) + seq!['`'] + mend_spans(s.skip(j + 1))
    } else {
        seq![s[0]] + mend_spans(s.drop_first())
    }
}

/// The length of the empty argument list, `()` or `(…)`, that stands in `s` at
/// index `i`; zero where there is none.
pub open spec fn empty_arguments_len(s: Seq<char>, i: int) -> int {
    if i < 0 || s.len() < i + 2 || s[i] != '(' {
        0
    } else if s[i + 1] == ')' {
        2
    } else if i + 2 < s.len() && s[i + 1] == '\u{2026}' && s[i + 2] == ')' {
        3
    } else {
        0
    }
}

/// The first empty argument list of `s` stands at index `i`.
pub open spec fn first_empty_arguments(s: Seq<char>, i: int) -> bool {
    &&& empty_arguments_len(s, i) > 0
    &&& forall|k: int| 0 <= k < i ==> empty_arguments_len(s, k) == 0
}

/// `s` with `filling` in place of the `n` characters from index `i` on.
pub open spec fn splice(s: Seq<char>, i: int, n: int, filling: Seq<char>) -> Seq<char> {
    s.take(i) + filling + s.skip(i + n)
}

/// `result` is `s` with its first empty argument list replaced. A text without
/// one stays, and so does what surrounds it in a text with one. Where
/// `arguments` holds no dollar sign, they are what takes its place.
pub open spec fn arguments_replaced(
    s: Seq<char>,
    arguments: Seq<char>,
    result: Seq<char>,
) -> bool {
    &&& (forall|i: int| #[trigger] empty_arguments_len(s, i) == 0) ==> result == s
    &&& forall|i: int| #[trigger]
        first_empty_arguments(s, i) ==> exists|filling: Seq<char>| #[trigger]
            splice(s, i, empty_arguments_len(s, i), filling) == result
    &&& !arguments.contains('$') ==> forall|i: int| #[trigger]
        first_empty_arguments(s, i) ==> result == splice(
            s,
            i,
            empty_arguments_len(s, i),
            arguments,
        )
}

/// What `Regex::new(pattern)` and then `replace(text, replacement)` give, for a
/// pattern that compiles.
pub uninterp spec fn regex_replace(
    pattern: Seq<char>,
    text: Seq<char>,
    replacement: Seq<char>,
) -> Seq<char>;

/// Calls `regex::Regex::new` and `regex::Regex::replace_all`, which replaces
/// all non-overlapping matches from left to right. The contract reads the one
/// pattern that is used here: a backtick, as many characters other than a
/// backtick as there are and at least one, a line break, and a backtick at the
/// end of a line, all of which is replaced by its first group between
/// backticks. That pattern compiles.
#[verifier::external_body]
pub(crate) fn replace_all(pattern: &str, text: &str, replacement: &str) -> (result: String)
    requires
        pattern@ == "(?m)`([^`]+)\n`$"@,
        replacement@ == "`$1`"@,
    ensures
        result@ == mend_spans(text@),
{
    Regex::new(pattern).unwrap().replace_all(text, replacement).into_owned()
}

/// Calls `regex::Regex::new` and `regex::Regex::replace`, which replaces the
/// leftmost match. The result depends on the three texts alone. The second
/// clause reads the one pattern that is used here: an opening parenthesis,
/// perhaps an ellipsis, a closing parenthesis. That pattern compiles. What a
/// dollar sign in the replacement expands to is left unsaid.
#[verifier::external_body]
pub(crate) fn replace(pattern: &str, text: &str, replacement: &str) -> (result: String)
    requires
        pattern@ == "\\(\u{2026}?\\)"@,
    ensures
        result@ == regex_replace(pattern@, text@, replacement@),
        arguments_replaced(text@, replacement@, result@),
{
    Regex::new(pattern).unwrap().replace(text, replacement).into_owned()
}

} // verus!
