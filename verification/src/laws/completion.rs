//! The labels of completions.
use crate::completion;
use crate::completion::{
    CompletionItem, CompletionItemKind, CompletionLabel, HighlightId, HighlightRequest, LabelPlan,
};
use crate::laws::text as text_laws;
use crate::replace;
use crate::server::RustLsp;
use crate::text;
use core::ops::Range;
use vstd::prelude::*;
use vstd::utf8::*;

verus! {

/// The lengths of the texts that stand before a label in its source.
proof fn lemma_heads()
    ensures
        encode_utf8("struct S { "@).len() == 11,
        encode_utf8("let "@).len() == 4,
        encode_utf8("fn "@).len() == 3,
{
    reveal_strlit("struct S { ");
    reveal_strlit("let ");
    reveal_strlit("fn ");
    is_ascii_chars_encode_utf8("struct S { "@);
    is_ascii_chars_encode_utf8("let "@);
    is_ascii_chars_encode_utf8("fn "@);
}

/// A detail is the type of a function where its first characters say so.
proof fn lemma_fn_type(detail: Seq<char>)
    ensures
        completion::is_fn_type(detail) <==> detail.len() >= 3 && detail[0] == 'f' && detail[1]
            == 'n' && detail[2] == '(',
{
    reveal_strlit("fn(");
    if detail.len() >= 3 {
        let start = detail.subrange(0, 3);
        if completion::is_fn_type(detail) {
            assert(start[0] == 'f' && start[1] == 'n' && start[2] == '(');
        }
        if detail[0] == 'f' && detail[1] == 'n' && detail[2] == '(' {
            assert(start =~= "fn("@);
        }
    }
}

/// A field reads as its name and its type, and so does the source, which declares
/// it in a struct. The label alone is what it is filtered by and what is aligned
/// to the left.
pub proof fn field_is_declared(
    lsp: RustLsp,
    completion: CompletionItem,
    detail: String,
    plan: LabelPlan,
)
    requires
        call_ensures(RustLsp::label_for_completion, (&lsp, &completion), plan),
        completion.kind == Some(CompletionItemKind::Field),
        completion.detail == Some(detail),
    ensures
        plan is Source,
        plan->Source_0.text@ == completion.label@ + ": "@ + detail@,
        plan->Source_0.source@ == "struct S { "@ + plan->Source_0.text@ + " }"@,
        plan->Source_0.range.start == 11,
        plan->Source_0.range.end == 11 + encode_utf8(plan->Source_0.text@).len(),
        plan->Source_0.filter_range.start == 0,
        plan->Source_0.filter_range.end == encode_utf8(completion.label@).len(),
        plan->Source_0.left_aligned_len == encode_utf8(completion.label@).len(),
{
    lemma_heads();
}

/// A constant or a variable reads as its name and its type, and so does the
/// source, which declares it. The label alone is what it is filtered by and what
/// is aligned to the left.
pub proof fn variable_is_declared(
    lsp: RustLsp,
    completion: CompletionItem,
    detail: String,
    plan: LabelPlan,
)
    requires
        call_ensures(RustLsp::label_for_completion, (&lsp, &completion), plan),
        completion.kind == Some(CompletionItemKind::Constant) || completion.kind == Some(
            CompletionItemKind::Variable,
        ),
        completion.detail == Some(detail),
    ensures
        plan is Source,
        plan->Source_0.text@ == completion.label@ + ": "@ + detail@,
        plan->Source_0.source@ == "let "@ + plan->Source_0.text@ + " = ();"@,
        plan->Source_0.range.start == 4,
        plan->Source_0.range.end == 4 + encode_utf8(plan->Source_0.text@).len(),
        plan->Source_0.filter_range.start == 0,
        plan->Source_0.filter_range.end == encode_utf8(completion.label@).len(),
        plan->Source_0.left_aligned_len == encode_utf8(completion.label@).len(),
{
    lemma_heads();
}

/// A function or a method is read from a source that defines it.
pub proof fn function_is_defined(
    lsp: RustLsp,
    completion: CompletionItem,
    detail: String,
    plan: LabelPlan,
)
    requires
        call_ensures(RustLsp::label_for_completion, (&lsp, &completion), plan),
        completion.kind == Some(CompletionItemKind::Function) || completion.kind == Some(
            CompletionItemKind::Method,
        ),
        completion.detail == Some(detail),
        detail@.len() >= 3 && detail@[0] == 'f' && detail@[1] == 'n' && detail@[2] == '(',
    ensures
        plan is Source,
        plan->Source_0.text@ == replace::regex_replace(
            "\\(\u{2026}?\\)"@,
            completion.label@,
            detail@.skip(2),
        ),
        plan->Source_0.source@ == "fn "@ + plan->Source_0.text@ + " {}"@,
        plan->Source_0.range.start == 3,
        plan->Source_0.range.end == 3 + encode_utf8(plan->Source_0.text@).len(),
{
    lemma_heads();
    lemma_fn_type(detail@);
}

/// A function or a method is filtered by exactly what its label holds before its
/// first opening parenthesis, which the text starts with; by the whole label,
/// where it has none.
pub proof fn function_is_filtered_by_its_name(
    lsp: RustLsp,
    completion: CompletionItem,
    detail: String,
    plan: LabelPlan,
    name: Seq<char>,
    rest: Seq<char>,
)
    requires
        call_ensures(RustLsp::label_for_completion, (&lsp, &completion), plan),
        completion.kind == Some(CompletionItemKind::Function) || completion.kind == Some(
            CompletionItemKind::Method,
        ),
        completion.detail == Some(detail),
        detail@.len() >= 3 && detail@[0] == 'f' && detail@[1] == 'n' && detail@[2] == '(',
        completion.label@ == name + rest,
        !name.contains('('),
        rest.len() == 0 || rest[0] == '(',
    ensures
        plan is Source,
        plan->Source_0.filter_range.start == 0,
        plan->Source_0.filter_range.end == encode_utf8(name).len(),
        encode_utf8(plan->Source_0.text@).take(encode_utf8(name).len() as int) == encode_utf8(
            name,
        ),
        plan->Source_0.filter_range.end <= encode_utf8(plan->Source_0.text@).len(),
        name.len() > 0 ==> plan->Source_0.filter_range.end > 0,
        rest.len() == 0 ==> plan->Source_0.text@ == completion.label@,
{
    lemma_fn_type(detail@);
    reveal_strlit("(");
    let label = completion.label@;
    let shown = plan->Source_0.text@;
    assert("("@ =~= seq!['(']);
    completion::filter_range_is_start_of_label(completion, plan->Source_0);
    completion::lemma_signature_keeps_name(label, detail@.skip(2), shown);
    assert forall|k: int| 0 <= k < name.len() && k + 1 <= label.len() implies #[trigger] label.subrange(
        k,
        k + 1,
    ) != "("@ by {
        assert(label.subrange(k, k + 1)[0] == name[k]);
        assert(name.contains(name[k]));
    }
    assert(label.take(name.len() as int) =~= name);
    text::lemma_encode_concat(name, rest);
    if rest.len() == 0 {
        assert(label =~= name);
        text_laws::lemma_not_found(label, "("@);
    } else {
        assert(label.subrange(name.len() as int, (name.len() + 1) as int) =~= "("@);
        text_laws::lemma_found(label, "("@, name);
    }
    let n = encode_utf8(name).len() as int;
    assert(encode_utf8(label).take(n) =~= encode_utf8(name));
    if name.len() > 0 {
        encode_utf8_first_scalar(name);
        lemma_encoding_is_longer(name);
    }
}

/// A text has at least one byte for each character.
proof fn lemma_encoding_is_longer(s: Seq<char>)
    ensures
        encode_utf8(s).len() >= s.len(),
    decreases s.len(),
{
    if s.len() > 0 {
        lemma_encoding_is_longer(s.drop_first());
    }
}

/// Of a function or a method exactly what its text holds before the first `->`
/// is aligned to the left; the whole text, where it has none.
pub proof fn function_is_aligned_up_to_its_result(
    lsp: RustLsp,
    completion: CompletionItem,
    detail: String,
    plan: LabelPlan,
    head: Seq<char>,
    tail: Seq<char>,
)
    requires
        call_ensures(RustLsp::label_for_completion, (&lsp, &completion), plan),
        completion.kind == Some(CompletionItemKind::Function) || completion.kind == Some(
            CompletionItemKind::Method,
        ),
        completion.detail == Some(detail),
        detail@.len() >= 3 && detail@[0] == 'f' && detail@[1] == 'n' && detail@[2] == '(',
        plan is Source,
        plan->Source_0.text@ == head + tail,
        forall|k: int|
            0 <= k < head.len() && k + 1 < (head + tail).len() ==> !(#[trigger] (head + tail)[k]
                == '-' && (head + tail)[k + 1] == '>'),
        tail.len() == 0 || (tail.len() >= 2 && tail[0] == '-' && tail[1] == '>'),
    ensures
        plan->Source_0.left_aligned_len == encode_utf8(head).len(),
        encode_utf8(plan->Source_0.text@).take(plan->Source_0.left_aligned_len as int)
            == encode_utf8(head),
{
    lemma_fn_type(detail@);
    lemma_arrow(head, tail);
    text::lemma_encode_concat(head, tail);
    assert(encode_utf8(head + tail).take(encode_utf8(head).len() as int) =~= encode_utf8(head));
}

/// Where the first `->` of a text stands.
proof fn lemma_arrow(head: Seq<char>, tail: Seq<char>)
    requires
        forall|k: int|
            0 <= k < head.len() && k + 1 < (head + tail).len() ==> !(#[trigger] (head + tail)[k]
                == '-' && (head + tail)[k + 1] == '>'),
        tail.len() == 0 || (tail.len() >= 2 && tail[0] == '-' && tail[1] == '>'),
    ensures
        completion::find_or(head + tail, "->"@, text::byte_len(head + tail)) == encode_utf8(
            head,
        ).len(),
{
    reveal_strlit("->");
    let s = head + tail;
    assert forall|k: int| 0 <= k < head.len() && k + 2 <= s.len() implies #[trigger] s.subrange(
        k,
        k + 2,
    ) != "->"@ by {
        if s.subrange(k, k + 2) == "->"@ {
            assert(s.subrange(k, k + 2)[0] == '-' && s.subrange(k, k + 2)[1] == '>');
            assert(s[k] == '-' && s[k + 1] == '>');
        }
    }
    assert(s.take(head.len() as int) =~= head);
    if tail.len() == 0 {
        assert(s =~= head);
        text_laws::lemma_not_found(s, "->"@);
    } else {
        assert(s.subrange(head.len() as int, (head.len() + 2) as int) =~= "->"@);
        text_laws::lemma_found(s, "->"@, head);
    }
}

/// A function or a method whose label holds an empty argument list, `()` or
/// `(…)`, reads as its label with the parameters and the result that the detail
/// gives in place of the first one. A dollar sign in the detail may expand to
/// something else, but leaves what surrounds the list. A label without an empty
/// argument list is shown as it is.
pub proof fn function_shows_its_parameters(
    lsp: RustLsp,
    completion: CompletionItem,
    detail: String,
    plan: LabelPlan,
    name: Seq<char>,
    list: Seq<char>,
    rest: Seq<char>,
)
    requires
        call_ensures(RustLsp::label_for_completion, (&lsp, &completion), plan),
        completion.kind == Some(CompletionItemKind::Function) || completion.kind == Some(
            CompletionItemKind::Method,
        ),
        completion.detail == Some(detail),
        detail@.len() >= 3 && detail@[0] == 'f' && detail@[1] == 'n' && detail@[2] == '(',
        completion.label@ == name + list + rest,
        list == seq!['(', ')'] || list == seq!['(', '\u{2026}', ')'] || (list.len() == 0
            && rest.len() == 0),
        forall|k: int|
            0 <= k < name.len() && k + 1 < completion.label@.len() && #[trigger] completion.label@[k]
                == '(' ==> completion.label@[k + 1] != ')' && (k + 2 < completion.label@.len()
                && completion.label@[k + 1] == '\u{2026}' ==> completion.label@[k + 2] != ')'),
    ensures
        plan is Source,
        list.len() == 0 ==> plan->Source_0.text@ == completion.label@,
        list.len() > 0 && !detail@.contains('$') ==> plan->Source_0.text@ == name + detail@.skip(2)
            + rest,
        list.len() > 0 ==> exists|filling: Seq<char>|
            plan->Source_0.text@ == #[trigger] (name + filling) + rest,
{
    lemma_fn_type(detail@);
    let label = completion.label@;
    let arguments = detail@.skip(2);
    let shown = plan->Source_0.text@;
    let i = name.len() as int;
    assert forall|k: int| k != i && (k < i || list.len() == 0) implies
        #[trigger] replace::empty_arguments_len(label, k) == 0 by {
        if 0 <= k < label.len() {
            let _ = label[k];
        }
    }
    if list.len() == 0 {
        assert(replace::empty_arguments_len(label, i) == 0);
        assert(forall|k: int| #[trigger] replace::empty_arguments_len(label, k) == 0);
    } else {
        assert(forall|k: int| 0 <= k < list.len() ==> list[k] == label[i + k]);
        assert(list[0] == '(');
        assert(label[i] == '(' && label[i + 1] == list[1]);
        let n = replace::empty_arguments_len(label, i);
        assert(n == list.len()) by {
            if list.len() == 3 {
                assert(label[i + 2] == list[2]);
            }
        }
        assert(replace::first_empty_arguments(label, i));
        assert(label.take(i) =~= name);
        assert(label.skip(i + n) =~= rest);
        let filling = choose|filling: Seq<char>| #[trigger]
            replace::splice(label, i, n, filling) == shown;
        assert(shown == (name + filling) + rest);
        if !detail@.contains('$') {
            assert(!arguments.contains('$')) by {
                if arguments.contains('$') {
                    let k = choose|k: int| 0 <= k < arguments.len() && arguments[k] == '$';
                    assert(detail@[k + 2] == '$');
                }
            }
        }
    }
}

/// Functions and methods are laid out alike.
pub proof fn methods_are_laid_out_like_functions(
    lsp: RustLsp,
    function: CompletionItem,
    method: CompletionItem,
    plan: LabelPlan,
    other: LabelPlan,
)
    requires
        call_ensures(RustLsp::label_for_completion, (&lsp, &function), plan),
        call_ensures(RustLsp::label_for_completion, (&lsp, &method), other),
        function.kind == Some(CompletionItemKind::Function),
        method.kind == Some(CompletionItemKind::Method),
        function.label == method.label,
        function.detail == method.detail,
    ensures
        plan is Absent <==> other is Absent,
        plan is Source <==> other is Source,
        plan is Source ==> plan->Source_0.text@ == other->Source_0.text@
            && plan->Source_0.source@ == other->Source_0.source@ && plan->Source_0.range
            == other->Source_0.range && plan->Source_0.filter_range == other->Source_0.filter_range
            && plan->Source_0.left_aligned_len == other->Source_0.left_aligned_len,
{
}

/// A function or a method without a detail, or with one that does not start as
/// the type of a function, has no label.
pub proof fn function_without_a_type_has_no_label(
    lsp: RustLsp,
    completion: CompletionItem,
    plan: LabelPlan,
)
    requires
        call_ensures(RustLsp::label_for_completion, (&lsp, &completion), plan),
        completion.kind == Some(CompletionItemKind::Function) || completion.kind == Some(
            CompletionItemKind::Method,
        ),
        completion.detail matches Some(detail) ==> !(detail@.len() >= 3 && detail@[0] == 'f'
            && detail@[1] == 'n' && detail@[2] == '('),
    ensures
        plan is Absent,
{
    if completion.detail is Some {
        lemma_fn_type(completion.detail->0@);
    }
}

/// Types, variants, keywords and values are highlighted by the name of what they
/// are, whatever their detail, and so is a constant without a detail. What is of
/// no kind, or of another that has no use for a detail or has none, has no label.
pub proof fn others_are_highlighted_by_what_they_are(
    lsp: RustLsp,
    completion: CompletionItem,
    plan: LabelPlan,
)
    requires
        call_ensures(RustLsp::label_for_completion, (&lsp, &completion), plan),
    ensures
        completion.kind is None ==> plan is Absent,
        completion.kind matches Some(kind) ==> match kind {
            CompletionItemKind::Struct
            | CompletionItemKind::Interface
            | CompletionItemKind::Enum => plan matches LabelPlan::Name(name) && name@ == "type"@,
            CompletionItemKind::EnumMember => plan matches LabelPlan::Name(name) && name@
                == "variant"@,
            CompletionItemKind::Keyword => plan matches LabelPlan::Name(name) && name@
                == "keyword"@,
            CompletionItemKind::Value => plan matches LabelPlan::Name(name) && name@
                == "constant"@,
            CompletionItemKind::Constant => completion.detail is None ==> (plan matches
                LabelPlan::Name(name) && name@ == "constant"@),
            CompletionItemKind::Field
            | CompletionItemKind::Variable
            | CompletionItemKind::Function
            | CompletionItemKind::Method => completion.detail is None ==> plan is Absent,
            _ => plan is Absent,
        },
{
}

/// The label of a function is filtered by what comes before the first opening
/// parenthesis of `label`, or else by the whole signature, and aligned to the left
/// up to the first `->` of the signature, or else to its end.
pub proof fn signature_is_measured(
    label: &str,
    signature: String,
    request: HighlightRequest,
    name: Seq<char>,
    rest: Seq<char>,
    head: Seq<char>,
    tail: Seq<char>,
)
    requires
        call_ensures(completion::function_request, (label, signature), request),
        label@ == name + rest,
        !name.contains('('),
        rest.len() == 0 || rest[0] == '(',
        signature@ == head + tail,
        forall|k: int|
            0 <= k < head.len() && k + 1 < (head + tail).len() ==> !(#[trigger] (head + tail)[k]
                == '-' && (head + tail)[k + 1] == '>'),
        tail.len() == 0 || (tail.len() >= 2 && tail[0] == '-' && tail[1] == '>'),
    ensures
        request.text@ == signature@,
        request.source@ == "fn "@ + signature@ + " {}"@,
        request.range.start == 3,
        request.range.end == 3 + encode_utf8(signature@).len(),
        request.filter_range.start == 0,
        rest.len() > 0 ==> request.filter_range.end == encode_utf8(name).len(),
        rest.len() == 0 ==> request.filter_range.end == encode_utf8(signature@).len(),
        request.left_aligned_len == encode_utf8(head).len(),
{
    lemma_heads();
    lemma_arrow(head, tail);
    reveal_strlit("(");
    assert("("@ =~= seq!['(']);
    assert forall|k: int| 0 <= k < name.len() && k + 1 <= label@.len() implies #[trigger] label@.subrange(
        k,
        k + 1,
    ) != "("@ by {
        assert(label@.subrange(k, k + 1)[0] == name[k]);
        assert(name.contains(name[k]));
    }
    assert(label@.take(name.len() as int) =~= name);
    if rest.len() == 0 {
        assert(label@ =~= name);
        text_laws::lemma_not_found(label@, "("@);
    } else {
        assert(label@.subrange(name.len() as int, (name.len() + 1) as int) =~= "("@);
        text_laws::lemma_found(label@, "("@, name);
    }
}

/// The highlights come into the label, and all else in it is what was asked for.
pub proof fn label_is_what_was_asked_for(
    request: HighlightRequest,
    runs: Vec<(Range<usize>, HighlightId)>,
    label: CompletionLabel,
)
    requires
        call_ensures(HighlightRequest::label, (request, runs), label),
    ensures
        label.text@ == request.text@,
        label.runs@ == runs@,
        label.filter_range == request.filter_range,
        label.left_aligned_len == request.left_aligned_len,
{
}

/// A plain label gets one more highlight, on exactly what it holds before its last
/// opening parenthesis; on all of it, where it has none. All else in it stays.
pub proof fn name_of_plain_label_is_highlighted(
    plain: CompletionLabel,
    id: HighlightId,
    label: Option<CompletionLabel>,
    name: Seq<char>,
    rest: Seq<char>,
)
    requires
        call_ensures(completion::named_label, (plain, Some(id)), label),
        plain.text@ == name + rest,
        rest.len() > 0 ==> rest[0] == '(' && !rest.drop_first().contains('('),
        rest.len() == 0 ==> !name.contains('('),
    ensures
        label is Some,
        label->0.text@ == plain.text@,
        label->0.filter_range == plain.filter_range,
        label->0.left_aligned_len == plain.left_aligned_len,
        label->0.runs@.len() == plain.runs@.len() + 1,
        label->0.runs@.take(plain.runs@.len() as int) == plain.runs@,
        label->0.runs@.last().0.start == 0,
        label->0.runs@.last().0.end == encode_utf8(name).len(),
        label->0.runs@.last().1 == id,
{
    assert(label->0.runs@.take(plain.runs@.len() as int) =~= label->0.runs@.drop_last());
    let s = plain.text@;
    if rest.len() == 0 {
        assert(s =~= name);
        text::lemma_rfind_char(s, '(');
    } else {
        assert(s =~= name + seq!['('] + rest.drop_first());
        text_laws::lemma_found_last(s, '(', name, rest.drop_first());
    }
}

/// Without a highlight there is no label.
pub proof fn no_highlight_no_label(plain: CompletionLabel, label: Option<CompletionLabel>)
    requires
        call_ensures(completion::named_label, (plain, None), label),
    ensures
        label is None,
{
}

} // verus!
