//! The diagnostics of a language server.
use crate::diagnostics;
use crate::diagnostics::PublishDiagnosticsParams;
use crate::replace;
use crate::server::{CLsp, RustLsp};
use vstd::prelude::*;

verus! {

/// A message without broken code spans stays.
proof fn lemma_nothing_to_mend(s: Seq<char>)
    requires
        forall|p: int, q: int| !replace::broken_span(s, p, q),
    ensures
        replace::mend_spans(s) == s,
    decreases s.len(),
{
    if s.len() > 0 {
        let rest = s.drop_first();
        assert forall|p: int, q: int| !replace::broken_span(rest, p, q) by {
            if replace::broken_span(rest, p, q) {
                lemma_span_of_rest(s, p, q);
            }
        }
        assert(!replace::broken_span(s, 0, 0));
        lemma_nothing_to_mend(rest);
        assert(seq![s[0]] + rest =~= s);
    }
}

/// A broken code span stays one with a character put before it.
proof fn lemma_span_of_rest(s: Seq<char>, p: int, q: int)
    requires
        s.len() > 0,
    ensures
        p >= 0 ==> (replace::broken_span(s, p + 1, q + 1) <==> replace::broken_span(
            s.drop_first(),
            p,
            q,
        )),
{
    let rest = s.drop_first();
    if p >= 0 {
        assert(forall|k: int| 0 <= k < rest.len() ==> rest[k] == s[k + 1]);
        if replace::broken_span(rest, p, q) {
            assert forall|k: int| p + 1 < k < q + 1 implies s[k] != '`' by {
                assert(rest[k - 1] != '`');
            }
        }
        if replace::broken_span(s, p + 1, q + 1) {
            assert forall|k: int| p < k < q implies rest[k] != '`' by {
                assert(s[k + 1] != '`');
            }
        }
    }
}

/// Of the first broken code span of a message the line break goes, and what
/// comes after it is mended.
proof fn lemma_first_span_mended(s: Seq<char>, i: int, j: int)
    requires
        replace::broken_span(s, i, j),
        forall|p: int, q: int| 0 <= p < i ==> !replace::broken_span(s, p, q),
    ensures
        replace::mend_spans(s) == s.take(j - 1) + seq!['`'] + replace::mend_spans(s.skip(j + 1)),
    decreases i,
{
    if i == 0 {
        let found = choose|q: int| replace::broken_span(s, 0, q);
        assert(replace::broken_span(s, 0, found));
        assert(found == j) by {
            if found < j {
                assert(s[found] != '`');
            } else if j < found {
                assert(s[j] != '`');
            }
        }
    } else {
        let rest = s.drop_first();
        lemma_span_of_rest(s, i - 1, j - 1);
        assert forall|p: int, q: int| 0 <= p < i - 1 implies !replace::broken_span(rest, p, q) by {
            lemma_span_of_rest(s, p, q);
        }
        lemma_first_span_mended(rest, i - 1, j - 1);
        assert(!exists|q: int| replace::broken_span(s, 0, q));
        assert(rest.skip(j) =~= s.skip(j + 1));
        assert(seq![s[0]] + (rest.take(j - 2) + seq!['`'] + replace::mend_spans(s.skip(j + 1)))
            =~= s.take(j - 1) + seq!['`'] + replace::mend_spans(s.skip(j + 1)));
    }
}

/// Each diagnostic of rust-analyzer stays in its place, with as many attached
/// messages as it had, and all else stays as it is.
pub proof fn diagnostics_stay_in_place(lsp: RustLsp, params: &mut PublishDiagnosticsParams, d: int)
    requires
        call_ensures(RustLsp::process_diagnostics, (&lsp, params), ()),
        0 <= d < old(params).diagnostics@.len(),
    ensures
        final(params).uri == old(params).uri,
        final(params).version == old(params).version,
        final(params).diagnostics@.len() == old(params).diagnostics@.len(),
        old(params).diagnostics@[d].related_information is None
            <==> final(params).diagnostics@[d].related_information is None,
        old(params).diagnostics@[d].related_information is Some
            ==> final(params).diagnostics@[d].related_information->0@.len()
            == old(params).diagnostics@[d].related_information->0@.len(),
{
    assert(diagnostics::diagnostic_mended(
        old(params).diagnostics@[d],
        final(params).diagnostics@[d],
    ));
}

/// Every message of rust-analyzer, attached or not, whose first code span ends
/// with a line break, with the closing backtick at the end of its line, loses
/// exactly that line break. Here no other code span follows.
pub proof fn first_code_span_loses_its_line_break(
    lsp: RustLsp,
    params: &mut PublishDiagnosticsParams,
    d: int,
    before: Seq<char>,
    code: Seq<char>,
    after: Seq<char>,
)
    requires
        call_ensures(RustLsp::process_diagnostics, (&lsp, params), ()),
        0 <= d < old(params).diagnostics@.len(),
        !before.contains('`'),
        !code.contains('`'),
        !after.contains('`'),
        code.len() > 0,
        after.len() == 0 || after[0] == '\n',
    ensures
        old(params).diagnostics@[d].message@ == before + seq!['`'] + code + seq!['\n', '`'] + after
            ==> final(params).diagnostics@[d].message@ == before + seq!['`'] + code + seq!['`']
            + after,
        old(params).diagnostics@[d].related_information is Some ==> forall|i: int|
            0 <= i < old(params).diagnostics@[d].related_information->0@.len() && (
            #[trigger] old(params).diagnostics@[d].related_information->0@[i]).message@ == before
                + seq!['`'] + code + seq!['\n', '`'] + after
                ==> final(params).diagnostics@[d].related_information->0@[i].message@ == before
                + seq!['`'] + code + seq!['`'] + after,
{
    assert(diagnostics::diagnostic_mended(
        old(params).diagnostics@[d],
        final(params).diagnostics@[d],
    ));
    diagnostics::broken_span_is_mended(before, code, after);
    assert forall|p: int, q: int| !replace::broken_span(after, p, q) by {
        if replace::broken_span(after, p, q) {
            assert(after.contains(after[p]));
        }
    }
    lemma_nothing_to_mend(after);
    if old(params).diagnostics@[d].related_information is Some {
        let attached = old(params).diagnostics@[d].related_information->0@;
        let processed = final(params).diagnostics@[d].related_information->0@;
        assert forall|i: int| 0 <= i < attached.len() implies processed[i].message@
            == replace::mend_spans((#[trigger] attached[i]).message@) by {
            let _ = processed[i];
        }
    }
}

/// A message of rust-analyzer, attached or not, with a code span that ends with
/// a line break, with the closing backtick at the end of its line, and that comes
/// first among those, loses exactly that line break there. The rest of the message
/// becomes what it would become as a message of its own.
pub proof fn rest_of_a_message_is_a_message(
    lsp: RustLsp,
    params: &mut PublishDiagnosticsParams,
    d: int,
    before: Seq<char>,
    code: Seq<char>,
    after: Seq<char>,
    others: &mut PublishDiagnosticsParams,
    e: int,
)
    requires
        call_ensures(RustLsp::process_diagnostics, (&lsp, params), ()),
        call_ensures(RustLsp::process_diagnostics, (&lsp, others), ()),
        0 <= d < old(params).diagnostics@.len(),
        0 <= e < old(others).diagnostics@.len(),
        old(others).diagnostics@[e].message@ == after,
        !code.contains('`'),
        code.len() > 0,
        after.len() == 0 || after[0] == '\n',
        ({
            let s = before + seq!['`'] + code + seq!['\n', '`'] + after;
            forall|p: int, q: int|
                0 <= p < before.len() && p + 2 < q < s.len() && #[trigger] s[p] == '`' && (
                #[trigger] s[q]) == '`' && s[q - 1] == '\n' && (q + 1 == s.len() || s[q + 1]
                    == '\n') ==> exists|k: int| p < k < q && (#[trigger] s[k]) == '`'
        }),
    ensures
        old(params).diagnostics@[d].message@ == before + seq!['`'] + code + seq!['\n', '`'] + after
            ==> final(params).diagnostics@[d].message@ == before + seq!['`'] + code + seq!['`']
            + final(others).diagnostics@[e].message@,
        old(params).diagnostics@[d].related_information is Some ==> forall|i: int|
            0 <= i < old(params).diagnostics@[d].related_information->0@.len() && (
            #[trigger] old(params).diagnostics@[d].related_information->0@[i]).message@ == before
                + seq!['`'] + code + seq!['\n', '`'] + after
                ==> final(params).diagnostics@[d].related_information->0@[i].message@ == before
                + seq!['`'] + code + seq!['`'] + final(others).diagnostics@[e].message@,
{
    let s = before + seq!['`'] + code + seq!['\n', '`'] + after;
    let i = before.len() as int;
    let j = i + code.len() + 2;
    assert(diagnostics::diagnostic_mended(
        old(params).diagnostics@[d],
        final(params).diagnostics@[d],
    ));
    assert(diagnostics::diagnostic_mended(
        old(others).diagnostics@[e],
        final(others).diagnostics@[e],
    ));
    assert(s[i] == '`' && s[j] == '`' && s[j - 1] == '\n');
    assert forall|k: int| i < k < j implies s[k] != '`' by {
        if k < j - 1 {
            assert(s[k] == code[k - i - 1]);
        }
    }
    assert(j + 1 < s.len() ==> s[j + 1] == after[0]);
    assert(replace::broken_span(s, i, j));
    assert forall|p: int, q: int| 0 <= p < i implies !replace::broken_span(s, p, q) by {
        if replace::broken_span(s, p, q) {
            assert(s[p] == '`' && s[q] == '`');
        }
    }
    lemma_first_span_mended(s, i, j);
    assert(s.take(j - 1) =~= before + seq!['`'] + code);
    assert(s.skip(j + 1) =~= after);
    if old(params).diagnostics@[d].related_information is Some {
        let attached = old(params).diagnostics@[d].related_information->0@;
        let processed = final(params).diagnostics@[d].related_information->0@;
        assert forall|i: int| 0 <= i < attached.len() implies processed[i].message@
            == replace::mend_spans((#[trigger] attached[i]).message@) by {
            let _ = processed[i];
        }
    }
}

/// A message of rust-analyzer, attached or not, in which no code span ends with a
/// line break, with the closing backtick at the end of its line, stays.
pub proof fn whole_code_spans_stay(
    lsp: RustLsp,
    params: &mut PublishDiagnosticsParams,
    d: int,
    s: Seq<char>,
)
    requires
        call_ensures(RustLsp::process_diagnostics, (&lsp, params), ()),
        0 <= d < old(params).diagnostics@.len(),
        forall|p: int, q: int|
            0 <= p && p + 2 < q < s.len() && #[trigger] s[p] == '`' && (#[trigger] s[q]) == '`'
                && s[q - 1] == '\n' && (q + 1 == s.len() || s[q + 1] == '\n') ==> exists|k: int|
                p < k < q && (#[trigger] s[k]) == '`',
    ensures
        old(params).diagnostics@[d].message@ == s ==> final(params).diagnostics@[d].message@ == s,
        old(params).diagnostics@[d].related_information is Some ==> forall|i: int|
            0 <= i < old(params).diagnostics@[d].related_information->0@.len() && (
            #[trigger] old(params).diagnostics@[d].related_information->0@[i]).message@ == s
                ==> final(params).diagnostics@[d].related_information->0@[i].message@ == s,
{
    assert(diagnostics::diagnostic_mended(
        old(params).diagnostics@[d],
        final(params).diagnostics@[d],
    ));
    assert forall|p: int, q: int| !replace::broken_span(s, p, q) by {
        if replace::broken_span(s, p, q) {
            assert(s[p] == '`' && s[q] == '`');
        }
    }
    lemma_nothing_to_mend(s);
    if old(params).diagnostics@[d].related_information is Some {
        let attached = old(params).diagnostics@[d].related_information->0@;
        let processed = final(params).diagnostics@[d].related_information->0@;
        assert forall|i: int| 0 <= i < attached.len() implies processed[i].message@
            == replace::mend_spans((#[trigger] attached[i]).message@) by {
            let _ = processed[i];
        }
    }
}

/// What becomes of a message of rust-analyzer depends on its text alone, not on
/// where it stands: two messages that read the same, attached or not, still do.
pub proof fn equal_messages_stay_equal(
    lsp: RustLsp,
    params: &mut PublishDiagnosticsParams,
    d: int,
    i: int,
    others: &mut PublishDiagnosticsParams,
    e: int,
    j: int,
)
    requires
        call_ensures(RustLsp::process_diagnostics, (&lsp, params), ()),
        call_ensures(RustLsp::process_diagnostics, (&lsp, others), ()),
        0 <= d < old(params).diagnostics@.len(),
        0 <= e < old(others).diagnostics@.len(),
        old(params).diagnostics@[d].related_information is Some,
        old(others).diagnostics@[e].related_information is Some,
        0 <= i < old(params).diagnostics@[d].related_information->0@.len(),
        0 <= j < old(others).diagnostics@[e].related_information->0@.len(),
    ensures
        old(params).diagnostics@[d].message@ == old(others).diagnostics@[e].message@ ==> final(params).diagnostics@[d].message@ == final(others).diagnostics@[e].message@,
        old(params).diagnostics@[d].message@
            == old(others).diagnostics@[e].related_information->0@[j].message@ ==> final(params).diagnostics@[d].message@
            == final(others).diagnostics@[e].related_information->0@[j].message@,
        old(params).diagnostics@[d].related_information->0@[i].message@
            == old(others).diagnostics@[e].related_information->0@[j].message@ ==> final(params).diagnostics@[d].related_information->0@[i].message@
            == final(others).diagnostics@[e].related_information->0@[j].message@,
{
    assert(diagnostics::diagnostic_mended(
        old(params).diagnostics@[d],
        final(params).diagnostics@[d],
    ));
    assert(diagnostics::diagnostic_mended(
        old(others).diagnostics@[e],
        final(others).diagnostics@[e],
    ));
    let _ = final(params).diagnostics@[d].related_information->0@[i];
    let _ = final(others).diagnostics@[e].related_information->0@[j];
}

/// No message of rust-analyzer, attached or not, loses anything but line breaks,
/// and none gains anything.
pub proof fn all_but_line_breaks_stays(
    lsp: RustLsp,
    params: &mut PublishDiagnosticsParams,
    d: int,
)
    requires
        call_ensures(RustLsp::process_diagnostics, (&lsp, params), ()),
        0 <= d < old(params).diagnostics@.len(),
    ensures
        final(params).diagnostics@[d].message@.len() <= old(params).diagnostics@[d].message@.len(),
        final(params).diagnostics@[d].message@.filter(|c: char| c != '\n') == old(params).diagnostics@[d].message@.filter(|c: char| c != '\n'),
        old(params).diagnostics@[d].related_information is Some ==> forall|i: int|
            0 <= i < old(params).diagnostics@[d].related_information->0@.len() ==> (
            #[trigger] final(params).diagnostics@[d].related_information->0@[i]).message@.filter(|c: char| c != '\n')
                == old(params).diagnostics@[d].related_information->0@[i].message@.filter(
                |c: char| c != '\n',
            ),
{
    assert(diagnostics::diagnostic_mended(
        old(params).diagnostics@[d],
        final(params).diagnostics@[d],
    ));
    diagnostics::only_line_breaks_go(old(params).diagnostics@[d].message@);
    if old(params).diagnostics@[d].related_information is Some {
        let attached = old(params).diagnostics@[d].related_information->0@;
        let processed = final(params).diagnostics@[d].related_information->0@;
        assert forall|i: int| 0 <= i < attached.len() implies (
        #[trigger] processed[i]).message@.filter(|c: char| c != '\n')
            == attached[i].message@.filter(|c: char| c != '\n') by {
            diagnostics::only_line_breaks_go(attached[i].message@);
        }
    }
}

/// The diagnostics of clangd stay as they are.
pub proof fn diagnostics_of_clangd_stay(lsp: CLsp, params: &mut PublishDiagnosticsParams)
    requires
        call_ensures(CLsp::process_diagnostics, (&lsp, params), ()),
    ensures
        *final(params) == *old(params),
{
}

} // verus!
