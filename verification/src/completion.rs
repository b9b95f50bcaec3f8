//! Completions as a language server proposes them, laid out for the list in
//! which the user picks one.
use crate::replace;
use crate::server::RustLsp;
use crate::text;
use core::ops::Range;
use vstd::prelude::*;
use vstd::utf8::*;

verus! {

/// What a completion stands for.
#[derive(Debug, Clone, Copy, PartialEq, Eq, Structural)]
pub enum CompletionItemKind {
    Text,
    Method,
    Function,
    Constructor,
    Field,
    Variable,
    Class,
    Interface,
    Module,
    Property,
    Unit,
    Value,
    Enum,
    Keyword,
    Snippet,
    Color,
    File,
    Reference,
    Folder,
    EnumMember,
    Constant,
    Struct,
    Event,
    Operator,
    TypeParameter,
    Other,
}

/// A completion that the server proposes.
#[derive(Debug, PartialEq, Eq)]
pub struct CompletionItem {
    pub label: String,
    pub kind: Option<CompletionItemKind>,
    pub detail: Option<String>,
}

/// The number that the theme in use gives to a kind of highlight.
#[derive(Debug, Clone, Copy, PartialEq, Eq, Structural)]
pub struct HighlightId(pub u32);

/// A completion as the list shows it. Ranges and lengths count bytes of `text`.
#[derive(Debug, PartialEq, Eq)]
pub struct CompletionLabel {
    pub text: String,
    pub runs: Vec<(Range<usize>, HighlightId)>,
    pub filter_range: Range<usize>,
    pub left_aligned_len: usize,
}

/// A label that lacks its highlights: those of `source`, within `range`, are
/// asked of the language.
#[derive(Debug, PartialEq, Eq)]
pub struct HighlightRequest {
    pub text: String,
    pub source: String,
    pub range: Range<usize>,
    pub filter_range: Range<usize>,
    pub left_aligned_len: usize,
}

/// How the label of a completion comes about.
#[derive(Debug, PartialEq, Eq)]
pub enum LabelPlan {
    /// There is none.
    Absent,
    /// From the highlights of a piece of source; see [`HighlightRequest::label`].
    Source(HighlightRequest),
    /// From the plain label and the highlight of the given name; see
    /// [`named_label`].
    Name(String),
}

/// `request` is for a label that reads `label_text`, which stands in the source
/// between `before` and `after`.
pub open spec fn requests(
    request: HighlightRequest,
    before: Seq<char>,
    label_text: Seq<char>,
    after: Seq<char>,
    filter_end: nat,
    left_aligned_len: nat,
) -> bool {
    &&& request.text@ == label_text
    &&& request.source@ == before + label_text + after
    &&& request.range.start == text::byte_len(before)
    &&& request.range.end == text::byte_len(before) + text::byte_len(label_text)
    &&& request.filter_range.start == 0
    &&& request.filter_range.end == filter_end
    &&& request.left_aligned_len == left_aligned_len
}

/// A declaration of `name` with the type that `detail` gives.
pub open spec fn declaration(name: Seq<char>, detail: Seq<char>) -> Seq<char> {
    name + ": "@ + detail
}

/// `request` is for `name: detail`, read as the field of a struct. Only the
/// name takes part in filtering and in alignment.
pub open spec fn field_request(
    request: HighlightRequest,
    name: Seq<char>,
    detail: Seq<char>,
) -> bool {
    requests(
        request,
        "struct S { "@,
        declaration(name, detail),
        " }"@,
        text::byte_len(name),
        text::byte_len(name),
    )
}

/// `request` is for `name: detail`, read as a variable. Only the name takes
/// part in filtering and in alignment.
pub open spec fn variable_request(
    request: HighlightRequest,
    name: Seq<char>,
    detail: Seq<char>,
) -> bool {
    requests(
        request,
        "let "@,
        declaration(name, detail),
        " = ();"@,
        text::byte_len(name),
        text::byte_len(name),
    )
}

/// Where, in bytes, `pattern` first stands in `s`; `otherwise`, where it does
/// not.
pub open spec fn find_or(s: Seq<char>, pattern: Seq<char>, otherwise: nat) -> nat {
    match text::find_text(s, pattern) {
        Some(k) => text::byte_offset(s, k),
        None => otherwise,
    }
}

/// `request` is for `signature`, read as a function. What `label` holds before
/// its first parenthesis takes part in filtering; what comes before the return
/// type is aligned to the left.
pub open spec fn signature_request(
    request: HighlightRequest,
    label: Seq<char>,
    signature: Seq<char>,
) -> bool {
    requests(
        request,
        "fn "@,
        signature,
        " {}"@,
        find_or(label, "("@, text::byte_len(signature)),
        find_or(signature, "->"@, text::byte_len(signature)),
    )
}

/// `detail` is the type of a function.
pub open spec fn is_fn_type(detail: Seq<char>) -> bool {
    text::occurs_at(detail, "fn("@, 0)
}

/// `signature` is `label` with the parameters and the return type that `detail`
/// gives in place of its first empty argument list.
pub open spec fn is_signature(
    signature: Seq<char>,
    label: Seq<char>,
    detail: Seq<char>,
) -> bool {
    &&& signature == replace::regex_replace("\\(\u{2026}?\\)"@, label, detail.skip(2))
    &&& replace::arguments_replaced(label, detail.skip(2), signature)
}

/// The name of the highlight for a completion of this kind, where it has one.
pub open spec fn highlight_name(kind: CompletionItemKind) -> Option<Seq<char>> {
    match kind {
        CompletionItemKind::Struct
        | CompletionItemKind::Interface
        | CompletionItemKind::Enum => Some("type"@),
        CompletionItemKind::EnumMember => Some("variant"@),
        CompletionItemKind::Keyword => Some("keyword"@),
        CompletionItemKind::Value | CompletionItemKind::Constant => Some("constant"@),
        _ => None,
    }
}

/// `plan` is how the label of a completion of this kind comes about, where the
/// completion has no detail or the kind makes no use of it.
pub open spec fn name_planned(kind: CompletionItemKind, plan: LabelPlan) -> bool {
    match highlight_name(kind) {
        Some(name) => plan matches LabelPlan::Name(n) && n@ == name,
        None => plan is Absent,
    }
}

/// `plan` is how the label of `completion` comes about.
pub open spec fn planned(completion: CompletionItem, plan: LabelPlan) -> bool {
    let label = completion.label@;
    match (completion.kind, completion.detail) {
        (Some(CompletionItemKind::Field), Some(detail)) => plan matches LabelPlan::Source(request)
            && field_request(request, label, detail@),
        (
            Some(CompletionItemKind::Constant | CompletionItemKind::Variable),
            Some(detail),
        ) => plan matches LabelPlan::Source(request) && variable_request(request, label, detail@),
        (
            Some(CompletionItemKind::Function | CompletionItemKind::Method),
            Some(detail),
        ) => if is_fn_type(detail@) {
            plan matches LabelPlan::Source(request) && is_signature(
                request.text@,
                label,
                detail@,
            ) && signature_request(request, label, request.text@)
        } else {
            plan is Absent
        },
        (Some(kind), _) => name_planned(kind, plan),
        (None, _) => plan is Absent,
    }
}

/// The request for a label that reads `label_text`.
fn request(
    before: &str,
    label_text: String,
    after: &str,
    filter_end: usize,
    left_aligned_len: usize,
) -> (request: HighlightRequest)
    ensures
        requests(
            request,
            before@,
            label_text@,
            after@,
            filter_end as nat,
            left_aligned_len as nat,
        ),
{
    let source = text::join(text::join(before, label_text.as_str()).as_str(), after);
    let total: usize = text::len_in_bytes(source.as_str());
    let start: usize = text::len_in_bytes(before);
    let len: usize = text::len_in_bytes(label_text.as_str());
    proof {
        text::lemma_encode_concat(before@ + label_text@, after@);
        text::lemma_encode_concat(before@, label_text@);
        assert(start + len <= total);
    }
    HighlightRequest {
        text: label_text,
        source,
        range: start..start + len,
        filter_range: 0..filter_end,
        left_aligned_len,
    }
}

/// `name: detail`.
fn declare(name: &str, detail: &str) -> (s: String)
    ensures
        s@ == declaration(name@, detail@),
{
    text::join(text::join(name, ": ").as_str(), detail)
}

/// Whether `detail` is the type of a function.
fn starts_as_fn(detail: &str) -> (found: bool)
    ensures
        found == is_fn_type(detail@),
{
    proof {
        reveal_strlit("fn(");
    }
    let n: usize = detail.unicode_len();
    if n < 3 {
        return false;
    }
    let found = detail.get_char(0) == 'f' && detail.get_char(1) == 'n' && detail.get_char(2)
        == '(';
    proof {
        let start = detail@.subrange(0, 3);
        assert(start == "fn("@ ==> start[0] == 'f' && start[1] == 'n' && start[2] == '(');
        if found {
            assert(start =~= "fn("@);
        }
    }
    found
}

/// The request for a function that completes `label` and reads `signature`.
pub fn function_request(label: &str, signature: String) -> (request: HighlightRequest)
    ensures
        signature_request(request, label@, signature@),
{
    let len: usize = text::len_in_bytes(signature.as_str());
    let left_aligned_len: usize = match text::find(signature.as_str(), "->") {
        Some(offset) => offset,
        None => len,
    };
    let filter_end: usize = match text::find(label, "(") {
        Some(offset) => offset,
        None => len,
    };
    self::request("fn ", signature, " {}", filter_end, left_aligned_len)
}

/// The plan for a completion of this kind without regard to its detail.
fn name_plan(kind: CompletionItemKind) -> (plan: LabelPlan)
    ensures
        name_planned(kind, plan),
{
    match kind {
        CompletionItemKind::Struct
        | CompletionItemKind::Interface
        | CompletionItemKind::Enum => LabelPlan::Name(String::from_str("type")),
        CompletionItemKind::EnumMember => LabelPlan::Name(String::from_str("variant")),
        CompletionItemKind::Keyword => LabelPlan::Name(String::from_str("keyword")),
        CompletionItemKind::Value | CompletionItemKind::Constant => LabelPlan::Name(
            String::from_str("constant"),
        ),
        _ => LabelPlan::Absent,
    }
}

impl RustLsp {
    /// How the label of `completion` comes about: what the language is asked to
    /// highlight, and what is made of the answer.
    pub fn label_for_completion(&self, completion: &CompletionItem) -> (plan: LabelPlan)
        ensures
            planned(*completion, plan),
    {
        let kind = match completion.kind {
            Some(kind) => kind,
            None => return LabelPlan::Absent,
        };
        let name = completion.label.as_str();
        match (&completion.detail, kind) {
            (Some(detail), CompletionItemKind::Field) => {
                let end: usize = text::len_in_bytes(name);
                let text = declare(name, detail.as_str());
                LabelPlan::Source(request("struct S { ", text, " }", end, end))
            },
            (Some(detail), CompletionItemKind::Constant | CompletionItemKind::Variable) => {
                let end: usize = text::len_in_bytes(name);
                let text = declare(name, detail.as_str());
                LabelPlan::Source(request("let ", text, " = ();", end, end))
            },
            (Some(detail), CompletionItemKind::Function | CompletionItemKind::Method) => {
                if !starts_as_fn(detail.as_str()) {
                    return LabelPlan::Absent;
                }
                proof {
                    reveal_strlit("fn(");
                }
                let n: usize = detail.as_str().unicode_len();
                let arguments = detail.as_str().substring_char(2, n);
                assert(arguments@ =~= detail@.skip(2));
                let signature = replace::replace("\\(\u{2026}?\\)", name, arguments);
                LabelPlan::Source(function_request(name, signature))
            },
            _ => name_plan(kind),
        }
    }
}

impl HighlightRequest {
    /// The label, once the highlights are known.
    pub fn label(self, runs: Vec<(Range<usize>, HighlightId)>) -> (label: CompletionLabel)
        ensures
            label.text == self.text,
            label.runs == runs,
            label.filter_range == self.filter_range,
            label.left_aligned_len == self.left_aligned_len,
    {
        CompletionLabel {
            text: self.text,
            runs,
            filter_range: self.filter_range,
            left_aligned_len: self.left_aligned_len,
        }
    }
}

/// The length in bytes of what `s` holds before its last opening parenthesis;
/// of all of `s`, where it has none.
pub open spec fn name_len(s: Seq<char>) -> nat {
    match text::rfind_char(s, '(') {
        Some(k) => text::byte_offset(s, k),
        None => text::byte_len(s),
    }
}

/// The label of a completion, from its plain label and the highlight of its
/// kind: the highlight is put on all that comes before the last opening
/// parenthesis. Without a highlight there is no label.
pub fn named_label(plain: CompletionLabel, highlight: Option<HighlightId>) -> (label: Option<
    CompletionLabel,
>)
    ensures
        match highlight {
            Some(id) => label matches Some(l) && l.text == plain.text && l.filter_range
                == plain.filter_range && l.left_aligned_len == plain.left_aligned_len
                && l.runs@.len() == plain.runs@.len() + 1 && l.runs@.drop_last() == plain.runs@
                && l.runs@.last().0.start == 0 && l.runs@.last().0.end == name_len(plain.text@)
                && l.runs@.last().1 == id,
            None => label is None,
        },
{
    let id = match highlight {
        Some(id) => id,
        None => return None,
    };
    let end: usize = match text::rfind(plain.text.as_str(), '(') {
        Some(offset) => offset,
        None => text::len_in_bytes(plain.text.as_str()),
    };
    let mut label = plain;
    label.runs.push((0..end, id));
    assert(label.runs@.drop_last() =~= plain.runs@);
    Some(label)
}

/// The texts that stand before a label in its source take as many bytes as they
/// have characters.
proof fn lemma_source_heads()
    ensures
        text::byte_len("struct S { "@) == 11,
        text::byte_len("let "@) == 4,
        text::byte_len("fn "@) == 3,
{
    reveal_strlit("struct S { ");
    reveal_strlit("let ");
    reveal_strlit("fn ");
    is_ascii_chars_encode_utf8("struct S { "@);
    is_ascii_chars_encode_utf8("let "@);
    is_ascii_chars_encode_utf8("fn "@);
}

/// Where a label is highlighted as part of a source, the range that is asked
/// for is exactly the place of the label's text in that source. It starts at
/// byte 11 for a field, 4 for a constant or a variable and 3 for a function, and
/// splits no character.
pub proof fn highlighted_range_is_text(completion: CompletionItem, request: HighlightRequest)
    requires
        planned(completion, LabelPlan::Source(request)),
    ensures
        request.range.start <= request.range.end <= text::byte_len(request.source@),
        text::is_boundary(request.source@, request.range.start as int),
        text::is_boundary(request.source@, request.range.end as int),
        encode_utf8(request.source@).subrange(
            request.range.start as int,
            request.range.end as int,
        ) == encode_utf8(request.text@),
        request.range.start == match completion.kind->0 {
            CompletionItemKind::Field => 11int,
            CompletionItemKind::Constant | CompletionItemKind::Variable => 4int,
            _ => 3int,
        },
{
    lemma_source_heads();
    let label_text = request.text@;
    let (before, after) = match completion.kind->0 {
        CompletionItemKind::Field => ("struct S { "@, " }"@),
        CompletionItemKind::Constant | CompletionItemKind::Variable => ("let "@, " = ();"@),
        _ => ("fn "@, " {}"@),
    };
    assert(request.source@ == before + label_text + after);
    text::lemma_encode_concat(before + label_text, after);
    text::lemma_encode_concat(before, label_text);
    assert(encode_utf8(request.source@).subrange(
        request.range.start as int,
        request.range.end as int,
    ) =~= encode_utf8(label_text));
    let source = request.source@;
    let start = before.len() as int;
    let end = (before + label_text).len() as int;
    assert(source.take(start) =~= before);
    assert(source.take(end) =~= before + label_text);
    assert(request.range.start == text::byte_offset(source, start));
    assert(request.range.end == text::byte_offset(source, end));
}

/// A text with an empty argument list has a first one.
proof fn lemma_first_empty_arguments(s: Seq<char>, i: int) -> (first: int)
    requires
        replace::empty_arguments_len(s, i) > 0,
    ensures
        replace::first_empty_arguments(s, first),
    decreases i,
{
    if exists|k: int| 0 <= k < i && replace::empty_arguments_len(s, k) > 0 {
        let k = choose|k: int| 0 <= k < i && replace::empty_arguments_len(s, k) > 0;
        lemma_first_empty_arguments(s, k)
    } else {
        i
    }
}

/// A function's signature keeps all that stands before the first parenthesis of
/// its label, and is the label where that has no parenthesis.
pub(crate) proof fn lemma_signature_keeps_name(label: Seq<char>, detail: Seq<char>, signature: Seq<char>)
    requires
        replace::arguments_replaced(label, detail, signature),
    ensures
        match text::find_text(label, "("@) {
            Some(k) => 0 <= k <= label.len() && k <= signature.len() && signature.take(k)
                == label.take(k),
            None => signature == label,
        },
{
    reveal_strlit("(");
    text::lemma_find_text(label, "("@);
    assert forall|i: int| 0 <= i < label.len() && label[i] == '(' implies text::occurs_at(
        label,
        "("@,
        i,
    ) by {
        assert(label.subrange(i, i + 1) =~= "("@);
    }
    if exists|i: int| replace::empty_arguments_len(label, i) > 0 {
        let i = choose|i: int| replace::empty_arguments_len(label, i) > 0;
        let first = lemma_first_empty_arguments(label, i);
        let n = replace::empty_arguments_len(label, first);
        let filling = choose|filling: Seq<char>|
            #[trigger] replace::splice(label, first, n, filling) == signature;
        assert(text::occurs_at(label, "("@, first));
        let k = text::find_text(label, "("@)->0;
        assert(k <= first);
        assert(signature.take(k) =~= label.take(k));
    } else {
        assert forall|i: int| #[trigger] replace::empty_arguments_len(label, i) == 0 by {}
        assert(signature == label);
        if let Some(k) = text::find_text(label, "("@) {
            assert(signature.take(k) =~= label.take(k));
        }
    }
}

/// What a label that is highlighted as part of a source filters by is the start
/// of the completion's own label, which the shown text starts with too. The
/// range and the part aligned to the left lie within the text, and end between
/// two of its characters or where it ends.
pub proof fn filter_range_is_start_of_label(completion: CompletionItem, request: HighlightRequest)
    requires
        planned(completion, LabelPlan::Source(request)),
    ensures
        request.filter_range.start == 0,
        request.filter_range.end <= text::byte_len(request.text@),
        request.filter_range.end <= text::byte_len(completion.label@),
        encode_utf8(request.text@).take(request.filter_range.end as int) == encode_utf8(
            completion.label@,
        ).take(request.filter_range.end as int),
        text::is_boundary(request.text@, request.filter_range.end as int),
        text::is_boundary(completion.label@, request.filter_range.end as int),
        request.left_aligned_len <= text::byte_len(request.text@),
        text::is_boundary(request.text@, request.left_aligned_len as int),
{
    let label = completion.label@;
    let shown = request.text@;
    assert(shown.take(shown.len() as int) =~= shown);
    assert(text::byte_len(shown) == text::byte_offset(shown, shown.len() as int));
    assert(label.take(label.len() as int) =~= label);
    assert(text::byte_len(label) == text::byte_offset(label, label.len() as int));
    let detail = completion.detail->0@;
    match completion.kind->0 {
        CompletionItemKind::Function | CompletionItemKind::Method => {
            lemma_signature_keeps_name(label, detail.skip(2), shown);
            text::lemma_find_text(shown, "->"@);
            if let Some(m) = text::find_text(shown, "->"@) {
                text::lemma_byte_offset_le(shown, m, m);
            }
            if let Some(k) = text::find_text(label, "("@) {
                lemma_common_start(shown, label, k);
                assert(request.filter_range.end == text::byte_offset(shown, k));
            }
        },
        _ => {
            assert(shown =~= label + (": "@ + detail));
            assert(shown.take(label.len() as int) =~= label);
            assert(request.filter_range.end == text::byte_offset(shown, label.len() as int));
            text::lemma_encode_concat(label, ": "@ + detail);
            assert(encode_utf8(shown).take(request.filter_range.end as int) =~= encode_utf8(
                label,
            ).take(request.filter_range.end as int));
        },
    }
}

/// Texts with the same first `k` characters have the same bytes up to there.
proof fn lemma_common_start(a: Seq<char>, b: Seq<char>, k: int)
    requires
        0 <= k <= a.len(),
        k <= b.len(),
        a.take(k) == b.take(k),
    ensures
        text::byte_offset(b, k) <= text::byte_len(a),
        text::byte_offset(b, k) <= text::byte_len(b),
        encode_utf8(a).take(text::byte_offset(b, k) as int) == encode_utf8(b).take(
            text::byte_offset(b, k) as int,
        ),
{
    let n = text::byte_offset(b, k) as int;
    assert(a =~= a.take(k) + a.skip(k));
    assert(b =~= b.take(k) + b.skip(k));
    text::lemma_encode_concat(a.take(k), a.skip(k));
    text::lemma_encode_concat(b.take(k), b.skip(k));
    assert(encode_utf8(a).take(n) =~= encode_utf8(a.take(k)));
    assert(encode_utf8(b).take(n) =~= encode_utf8(b.take(k)));
}

/// The highlight of a label that is made from its plain label never reaches
/// past the text, and splits none of its characters.
pub proof fn named_highlight_lies_in_text(s: Seq<char>)
    ensures
        name_len(s) <= text::byte_len(s),
        text::is_boundary(s, name_len(s) as int),
{
    assert(s.take(s.len() as int) =~= s);
    assert(text::byte_len(s) == text::byte_offset(s, s.len() as int));
    text::lemma_rfind_char(s, '(');
    if let Some(k) = text::rfind_char(s, '(') {
        text::lemma_byte_offset_le(s, k, k);
    }
}

} // verus!
