//! Diagnostics as a language server publishes them, made fit for display.
use crate::replace;
use crate::server::{CLsp, RustLsp};
use vstd::prelude::*;

verus! {

/// A message attached to a diagnostic.
#[derive(Debug, PartialEq, Eq)]
pub struct DiagnosticRelatedInformation {
    pub message: String,
}

/// What the server has to say about a place in a file.
#[derive(Debug, PartialEq, Eq)]
pub struct Diagnostic {
    pub message: String,
    pub related_information: Option<Vec<DiagnosticRelatedInformation>>,
}

/// The diagnostics of one file.
#[derive(Debug, PartialEq, Eq)]
pub struct PublishDiagnosticsParams {
    pub uri: String,
    pub version: Option<i32>,
    pub diagnostics: Vec<Diagnostic>,
}

/// The messages of `after` are those of `before`, in the same order, with their
/// code spans mended.
pub open spec fn information_mended(
    before: Seq<DiagnosticRelatedInformation>,
    after: Seq<DiagnosticRelatedInformation>,
) -> bool {
    &&& after.len() == before.len()
    &&& forall|i: int|
        0 <= i < before.len() ==> (#[trigger] after[i]).message@ == replace::mend_spans(before[i].message@)
}

/// `after` is `before` with the code spans of all its messages mended.
pub open spec fn diagnostic_mended(before: Diagnostic, after: Diagnostic) -> bool {
    &&& after.message@ == replace::mend_spans(before.message@)
    &&& match before.related_information {
        Some(information) => after.related_information is Some && information_mended(
            information@,
            after.related_information->0@,
        ),
        None => after.related_information is None,
    }
}

/// `message` with its code spans mended.
fn mend_message(message: &String) -> (mended: String)
    ensures
        mended@ == replace::mend_spans(message@),
{
    replace::replace_all("(?m)`([^`]+)\n`$", message.as_str(), "`$1`")
}

impl RustLsp {
    /// Takes out of every message, and of every message attached to one, the
    /// line break that the compiler puts at the end of a code span.
    pub fn process_diagnostics(&self, params: &mut PublishDiagnosticsParams)
        ensures
            final(params).uri == old(params).uri,
            final(params).version == old(params).version,
            final(params).diagnostics@.len() == old(params).diagnostics@.len(),
            forall|i: int|
                0 <= i < old(params).diagnostics@.len() ==> diagnostic_mended(
                    old(params).diagnostics@[i],
                    #[trigger] final(params).diagnostics@[i],
                ),
    {
        let ghost before = params.diagnostics@;
        let mut i: usize = 0;
        while i < params.diagnostics.len()
            invariant
                params.uri == old(params).uri,
                params.version == old(params).version,
                before == old(params).diagnostics@,
                i <= params.diagnostics@.len() == before.len(),
                forall|k: int|
                    0 <= k < i ==> diagnostic_mended(before[k], #[trigger] params.diagnostics@[k]),
                forall|k: int| i <= k < before.len() ==> params.diagnostics@[k] == before[k],
            decreases before.len() - i,
        {
            let diagnostic = &mut params.diagnostics[i];
            process_diagnostic(diagnostic);
            i = i + 1;
        }
    }
}

/// Mends the code spans of all messages of `diagnostic`.
fn process_diagnostic(diagnostic: &mut Diagnostic)
    ensures
        diagnostic_mended(*old(diagnostic), *final(diagnostic)),
{
    if let Some(information) = &mut diagnostic.related_information {
        process_information(information);
    }
    diagnostic.message = mend_message(&diagnostic.message);
}

/// Mends the code spans of all messages of `information`.
fn process_information(information: &mut Vec<DiagnosticRelatedInformation>)
    ensures
        information_mended(old(information)@, final(information)@),
{
    let ghost before = information@;
    let mut i: usize = 0;
    while i < information.len()
        invariant
            before == old(information)@,
            i <= information@.len() == before.len(),
            forall|k: int|
                0 <= k < i ==> (#[trigger] information@[k]).message@ == replace::mend_spans(
                    before[k].message@,
                ),
            forall|k: int| i <= k < before.len() ==> information@[k] == before[k],
        decreases before.len() - i,
    {
        let message = mend_message(&information[i].message);
        information[i].message = message;
        i = i + 1;
    }
}

impl CLsp {
    /// Leaves the diagnostics as they are.
    pub fn process_diagnostics(&self, params: &mut PublishDiagnosticsParams)
        ensures
            *final(params) == *old(params),
    {
    }
}

/// A message in which no backtick that ends a line directly follows a line
/// break keeps every character. In particular a line break before the start of
/// a code span stays, where the opening backtick does not end its line.
pub proof fn whole_message_unchanged(s: Seq<char>)
    requires
        forall|k: int|
            0 <= k < s.len() - 1 && #[trigger] s[k] == '\n' && s[k + 1] == '`' ==> k + 2 < s.len()
                && s[k + 2] != '\n',
    ensures
        replace::mend_spans(s) == s,
    decreases s.len(),
{
    if s.len() > 0 {
        assert forall|j: int| !replace::broken_span(s, 0, j) by {
            if replace::broken_span(s, 0, j) {
                assert(s[j - 1] == '\n');
            }
        }
        let rest = s.drop_first();
        assert forall|k: int|
            0 <= k < rest.len() - 1 && #[trigger] rest[k] == '\n' && rest[k + 1] == '`' implies k
            + 2 < rest.len() && rest[k + 2] != '\n' by {
            assert(s[k + 1] == rest[k]);
        }
        whole_message_unchanged(rest);
        assert(seq![s[0]] + rest =~= s);
    }
}

/// Of the first code span of a message, where it ends with a line break that
/// the end of the line follows, exactly that line break goes. What comes after
/// the span is treated as a message of its own.
pub proof fn broken_span_is_mended(before: Seq<char>, code: Seq<char>, after: Seq<char>)
    requires
        !before.contains('`'),
        !code.contains('`'),
        code.len() > 0,
        after.len() > 0 ==> after[0] == '\n',
    ensures
        replace::mend_spans(before + seq!['`'] + code + seq!['\n', '`'] + after) == before
            + seq!['`'] + code + seq!['`'] + replace::mend_spans(after),
    decreases before.len(),
{
    let s = before + seq!['`'] + code + seq!['\n', '`'] + after;
    if before.len() == 0 {
        let end = code.len() as int + 2;
        assert(forall|k: int| 0 < k <= code.len() ==> s[k] == code[k - 1]);
        assert(s[end - 1] == '\n' && s[end] == '`');
        assert(s.len() > end + 1 ==> s[end + 1] == after[0]);
        assert(replace::broken_span(s, 0, end));
        let j = choose|j: int| replace::broken_span(s, 0, j);
        assert(j == end) by {
            if j < end {
                assert(s[j] != '`');
            } else if end < j {
                assert(s[end] != '`');
            }
        }
        assert(s.take(end - 1) =~= seq!['`'] + code);
        assert(s.skip(end + 1) =~= after);
        assert(before + seq!['`'] + code + seq!['`'] + replace::mend_spans(after) =~= seq!['`']
            + code + seq!['`'] + replace::mend_spans(after));
    } else {
        assert(before.contains(before[0]));
        assert(s[0] == before[0]);
        let rest = before.drop_first();
        assert(!rest.contains('`')) by {
            if rest.contains('`') {
                let k = choose|k: int| 0 <= k < rest.len() && rest[k] == '`';
                assert(before[k + 1] == '`');
            }
        }
        broken_span_is_mended(rest, code, after);
        assert(s.drop_first() =~= rest + seq!['`'] + code + seq!['\n', '`'] + after);
        assert(seq![s[0]] + (rest + seq!['`'] + code + seq!['`'] + replace::mend_spans(after))
            =~= before + seq!['`'] + code + seq!['`'] + replace::mend_spans(after));
    }
}

/// `s` without its line breaks.
pub open spec fn unbroken(s: Seq<char>) -> Seq<char> {
    s.filter(|c: char| c != '\n')
}

/// The line breaks of a concatenation go part by part.
proof fn lemma_unbroken_concat(a: Seq<char>, b: Seq<char>)
    ensures
        unbroken(a + b) == unbroken(a) + unbroken(b),
{
    Seq::filter_distributes_over_add(a, b, |c: char| c != '\n');
}

/// A line break alone leaves nothing.
proof fn lemma_unbroken_line_break()
    ensures
        unbroken(seq!['\n']) == Seq::<char>::empty(),
{
    let kept = |c: char| c != '\n';
    reveal_with_fuel(Seq::filter, 2);
    assert(!kept(seq!['\n'].last()));
    assert(seq!['\n'].filter(kept) =~= Seq::<char>::empty());
}

/// Nothing but line breaks ever goes out of a message, and nothing comes in.
pub proof fn only_line_breaks_go(s: Seq<char>)
    ensures
        unbroken(replace::mend_spans(s)) == unbroken(s),
        replace::mend_spans(s).len() <= s.len(),
    decreases s.len(),
{
    if s.len() == 0 {
    } else if exists|j: int| replace::broken_span(s, 0, j) {
        let j = choose|j: int| replace::broken_span(s, 0, j);
        let front = s.take(j - 1);
        let rest = s.skip(j + 1);
        only_line_breaks_go(rest);
        lemma_unbroken_mended_span(front, rest);
        assert(s =~= front + seq!['\n'] + seq!['`'] + rest);
    } else {
        let rest = s.drop_first();
        only_line_breaks_go(rest);
        assert(s =~= seq![s[0]] + rest);
        lemma_unbroken_concat(seq![s[0]], rest);
        lemma_unbroken_concat(seq![s[0]], replace::mend_spans(rest));
    }
}

/// Mending the span that `front` opens, and what follows it, takes out line
/// breaks only.
proof fn lemma_unbroken_mended_span(front: Seq<char>, rest: Seq<char>)
    requires
        unbroken(replace::mend_spans(rest)) == unbroken(rest),
    ensures
        unbroken(front + seq!['`'] + replace::mend_spans(rest)) == unbroken(
            front + seq!['\n'] + seq!['`'] + rest,
        ),
{
    lemma_unbroken_line_break();
    lemma_unbroken_concat(front + seq!['\n'] + seq!['`'], rest);
    lemma_unbroken_concat(front + seq!['\n'], seq!['`']);
    lemma_unbroken_concat(front, seq!['\n']);
    lemma_unbroken_concat(front + seq!['`'], replace::mend_spans(rest));
    lemma_unbroken_concat(front, seq!['`']);
    assert(unbroken(front) + Seq::<char>::empty() =~= unbroken(front));
}

/// `mended` is `front`, a line break and `back`, and so is `s` at index `k`, up
/// to line breaks elsewhere.
pub open spec fn broken_alike(
    mended: Seq<char>,
    front: Seq<char>,
    back: Seq<char>,
    s: Seq<char>,
    k: int,
) -> bool {
    &&& mended == front + seq!['\n'] + back
    &&& unbroken(front) == unbroken(s.take(k))
    &&& unbroken(back) == unbroken(s.skip(k + 1))
}

/// A split at a line break stays one behind a longer front.
proof fn lemma_broken_alike_behind(
    mended_head: Seq<char>,
    head: Seq<char>,
    mended: Seq<char>,
    front: Seq<char>,
    back: Seq<char>,
    s: Seq<char>,
    k: int,
)
    requires
        0 <= k < s.len(),
        unbroken(mended_head) == unbroken(head),
        broken_alike(mended, front, back, s, k),
    ensures
        broken_alike(mended_head + mended, mended_head + front, back, head + s, head.len() + k),
{
    assert(mended_head + mended =~= (mended_head + front) + seq!['\n'] + back);
    assert((head + s).take(head.len() + k) =~= head + s.take(k));
    assert((head + s).skip(head.len() + k + 1) =~= s.skip(k + 1));
    lemma_unbroken_concat(mended_head, front);
    lemma_unbroken_concat(head, s.take(k));
}

/// A line break inside a broken code span, other than the one that goes, stays.
proof fn lemma_break_in_span(s: Seq<char>, j: int, k: int)
    requires
        0 <= k < j - 1,
        j < s.len(),
        s[k] == '\n',
        s[j - 1] == '\n',
        s[j] == '`',
    ensures
        broken_alike(
            s.take(j - 1) + seq!['`'] + replace::mend_spans(s.skip(j + 1)),
            s.take(k),
            s.subrange(k + 1, j - 1) + seq!['`'] + replace::mend_spans(s.skip(j + 1)),
            s,
            k,
        ),
{
    let rest = s.skip(j + 1);
    let tail = s.subrange(k + 1, j - 1);
    only_line_breaks_go(rest);
    lemma_unbroken_mended_span(tail, rest);
    assert(s.take(j - 1) =~= s.take(k) + seq!['\n'] + tail);
    assert(s.take(j - 1) + seq!['`'] + replace::mend_spans(rest) =~= s.take(k) + seq!['\n'] + (tail
        + seq!['`'] + replace::mend_spans(rest)));
    assert(s.skip(k + 1) =~= tail + seq!['\n'] + seq!['`'] + rest);
}

/// A line break that stays behind a broken code span stays with it in front.
proof fn lemma_break_behind_span(
    s: Seq<char>,
    j: int,
    front: Seq<char>,
    back: Seq<char>,
    m: int,
)
    requires
        1 <= j < s.len(),
        s[j - 1] == '\n',
        s[j] == '`',
        0 <= m < s.len() - j - 1,
        broken_alike(replace::mend_spans(s.skip(j + 1)), front, back, s.skip(j + 1), m),
    ensures
        broken_alike(
            s.take(j - 1) + seq!['`'] + replace::mend_spans(s.skip(j + 1)),
            s.take(j - 1) + seq!['`'] + front,
            back,
            s,
            j + 1 + m,
        ),
{
    let rest = s.skip(j + 1);
    let span = s.take(j - 1);
    let head = span + seq!['\n'] + seq!['`'];
    lemma_unbroken_line_break();
    lemma_unbroken_concat(span + seq!['\n'], seq!['`']);
    lemma_unbroken_concat(span, seq!['\n']);
    lemma_unbroken_concat(span, seq!['`']);
    assert(unbroken(span) + Seq::<char>::empty() =~= unbroken(span));
    let mended = replace::mend_spans(rest);
    lemma_broken_alike_behind(span + seq!['`'], head, mended, front, back, rest, m);
    assert(head + rest =~= s);
}

/// A line break stays in its place, between the same texts, unless it directly
/// precedes a backtick that ends a line. So one before the start of a code span
/// whose opening backtick does not end its line stays, whatever else the message
/// holds.
pub proof fn other_line_breaks_stay(s: Seq<char>, k: int)
    requires
        0 <= k < s.len(),
        s[k] == '\n',
        k + 1 < s.len() && s[k + 1] == '`' ==> k + 2 < s.len() && s[k + 2] != '\n',
    ensures
        exists|front: Seq<char>, back: Seq<char>|
            broken_alike(replace::mend_spans(s), front, back, s, k),
    decreases s.len(),
{
    if exists|j: int| replace::broken_span(s, 0, j) {
        let j = choose|j: int| replace::broken_span(s, 0, j);
        let rest = s.skip(j + 1);
        if k < j {
            lemma_break_in_span(s, j, k);
            let back = s.subrange(k + 1, j - 1) + seq!['`'] + replace::mend_spans(rest);
            assert(broken_alike(replace::mend_spans(s), s.take(k), back, s, k));
        } else {
            let m = k - j - 1;
            other_line_breaks_stay(rest, m);
            let (front, back) = choose|front: Seq<char>, back: Seq<char>|
                broken_alike(replace::mend_spans(rest), front, back, rest, m);
            lemma_break_behind_span(s, j, front, back, m);
            assert(broken_alike(
                replace::mend_spans(s),
                s.take(j - 1) + seq!['`'] + front,
                back,
                s,
                k,
            ));
        }
    } else {
        let head = seq![s[0]];
        let rest = s.drop_first();
        let mended = replace::mend_spans(rest);
        assert(head + rest =~= s);
        if k == 0 {
            let none = Seq::<char>::empty();
            only_line_breaks_go(rest);
            assert(head + mended =~= none + seq!['\n'] + mended);
            assert(s.take(0) =~= none);
            assert(s.skip(1) =~= rest);
            assert(broken_alike(replace::mend_spans(s), none, mended, s, k));
        } else {
            let m = k - 1;
            other_line_breaks_stay(rest, m);
            let (front, back) = choose|front: Seq<char>, back: Seq<char>|
                broken_alike(mended, front, back, rest, m);
            lemma_broken_alike_behind(head, head, mended, front, back, rest, m);
            assert(broken_alike(replace::mend_spans(s), head + front, back, s, k));
        }
    }
}

} // verus!
