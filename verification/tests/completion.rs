use std::ops::Range;
use zed_languages::completion::{
    function_request, named_label, CompletionItem, CompletionItemKind, CompletionLabel,
    HighlightId, HighlightRequest, LabelPlan,
};
use zed_languages::server::RustLsp;

const HIGHLIGHT_TYPE: HighlightId = HighlightId(0);
const HIGHLIGHT_KEYWORD: HighlightId = HighlightId(1);
const HIGHLIGHT_FUNCTION: HighlightId = HighlightId(2);
const HIGHLIGHT_FIELD: HighlightId = HighlightId(3);

fn item(kind: CompletionItemKind, label: &str, detail: Option<&str>) -> CompletionItem {
    CompletionItem {
        label: label.to_string(),
        kind: Some(kind),
        detail: detail.map(|detail| detail.to_string()),
    }
}

fn plan(kind: CompletionItemKind, label: &str, detail: Option<&str>) -> LabelPlan {
    RustLsp.label_for_completion(&item(kind, label, detail))
}

fn request(kind: CompletionItemKind, label: &str, detail: &str) -> HighlightRequest {
    match plan(kind, label, Some(detail)) {
        LabelPlan::Source(request) => request,
        plan => panic!("no source: {:?}", plan),
    }
}

/// The label of a completion, with a language that highlights the given ranges
/// of the given source.
fn label(
    kind: CompletionItemKind,
    label: &str,
    detail: &str,
    source: &str,
    range: Range<usize>,
    runs: Vec<(Range<usize>, HighlightId)>,
) -> Option<CompletionLabel> {
    match plan(kind, label, Some(detail)) {
        LabelPlan::Source(request) => {
            assert_eq!(request.source, source);
            assert_eq!(request.range, range);
            assert_eq!(&request.source[request.range.clone()], request.text);
            Some(request.label(runs))
        }
        _ => None,
    }
}

#[test]
fn test_process_rust_completions() {
    let function_runs = || {
        vec![
            (0..5, HIGHLIGHT_FUNCTION),
            (7..10, HIGHLIGHT_KEYWORD),
            (11..17, HIGHLIGHT_TYPE),
            (18..19, HIGHLIGHT_TYPE),
            (25..28, HIGHLIGHT_TYPE),
            (29..30, HIGHLIGHT_TYPE),
        ]
    };

    assert_eq!(
        label(
            CompletionItemKind::Function,
            "hello(…)",
            "fn(&mut Option<T>) -> Vec<T>",
            "fn hello(&mut Option<T>) -> Vec<T> {}",
            3..34,
            function_runs(),
        ),
        Some(CompletionLabel {
            text: "hello(&mut Option<T>) -> Vec<T>".to_string(),
            filter_range: 0..5,
            runs: vec![
                (0..5, HIGHLIGHT_FUNCTION),
                (7..10, HIGHLIGHT_KEYWORD),
                (11..17, HIGHLIGHT_TYPE),
                (18..19, HIGHLIGHT_TYPE),
                (25..28, HIGHLIGHT_TYPE),
                (29..30, HIGHLIGHT_TYPE),
            ],
            left_aligned_len: 22,
        })
    );

    assert_eq!(
        label(
            CompletionItemKind::Field,
            "len",
            "usize",
            "struct S { len: usize }",
            11..21,
            vec![(0..3, HIGHLIGHT_FIELD), (5..10, HIGHLIGHT_TYPE)],
        ),
        Some(CompletionLabel {
            text: "len: usize".to_string(),
            filter_range: 0..3,
            runs: vec![(0..3, HIGHLIGHT_FIELD), (5..10, HIGHLIGHT_TYPE),],
            left_aligned_len: 3,
        })
    );

    assert_eq!(
        label(
            CompletionItemKind::Function,
            "hello(…)",
            "fn(&mut Option<T>) -> Vec<T>",
            "fn hello(&mut Option<T>) -> Vec<T> {}",
            3..34,
            function_runs(),
        ),
        Some(CompletionLabel {
            text: "hello(&mut Option<T>) -> Vec<T>".to_string(),
            filter_range: 0..5,
            runs: vec![
                (0..5, HIGHLIGHT_FUNCTION),
                (7..10, HIGHLIGHT_KEYWORD),
                (11..17, HIGHLIGHT_TYPE),
                (18..19, HIGHLIGHT_TYPE),
                (25..28, HIGHLIGHT_TYPE),
                (29..30, HIGHLIGHT_TYPE),
            ],
            left_aligned_len: 22,
        })
    );
}

#[test]
fn constants_and_variables_are_read_as_variables() {
    let expected = HighlightRequest {
        text: "größe: u8".to_string(),
        source: "let größe: u8 = ();".to_string(),
        range: 4..15,
        filter_range: 0..7,
        left_aligned_len: 7,
    };
    assert_eq!(
        request(CompletionItemKind::Variable, "größe", "u8"),
        expected
    );
    assert_eq!(
        request(CompletionItemKind::Constant, "größe", "u8"),
        expected
    );
}

#[test]
fn only_the_first_empty_argument_list_is_replaced() {
    let signature = |label: &str, detail: &str| {
        request(CompletionItemKind::Method, label, detail).text
    };
    assert_eq!(signature("f()", "fn(u8)"), "f(u8)");
    assert_eq!(signature("f()()", "fn(u8)"), "f(u8)()");
    assert_eq!(signature("(…)()", "fn()"), "()()");
    assert_eq!(signature("f(a)(…)", "fn(u8)"), "f(a)(u8)");
    assert_eq!(signature("f(……)", "fn(u8)"), "f(……)");
    assert_eq!(signature("f", "fn(u8)"), "f");
}

#[test]
fn dollar_signs_in_a_detail_refer_to_the_match() {
    let signature = |detail: &str| request(CompletionItemKind::Function, "f(…)", detail).text;
    assert_eq!(signature("fn($0)"), "f((…))");
    assert_eq!(signature("fn($$)"), "f($)");
    assert_eq!(signature("fn($x)"), "f()");
}

#[test]
fn filter_range_ends_at_the_first_parenthesis_of_the_label() {
    let two = request(CompletionItemKind::Function, "é(a)()", "fn(u8) -> u8");
    assert_eq!(two.text, "é(a)(u8) -> u8");
    assert_eq!(two.filter_range, 0..2);
    assert_eq!(two.left_aligned_len, 10);
    let none = request(CompletionItemKind::Function, "naïve", "fn(u8)");
    assert_eq!(none.text, "naïve");
    assert_eq!(none.filter_range, 0..6);
    assert_eq!(none.left_aligned_len, 6);
}

#[test]
fn function_request_measures_the_signature() {
    assert_eq!(
        function_request("f(…)", "f(u8) -> u8 -> u8".to_string()),
        HighlightRequest {
            text: "f(u8) -> u8 -> u8".to_string(),
            source: "fn f(u8) -> u8 -> u8 {}".to_string(),
            range: 3..20,
            filter_range: 0..1,
            left_aligned_len: 6,
        }
    );
    assert_eq!(
        function_request("", String::new()),
        HighlightRequest {
            text: String::new(),
            source: "fn  {}".to_string(),
            range: 3..3,
            filter_range: 0..0,
            left_aligned_len: 0,
        }
    );
}

#[test]
fn function_without_function_type_has_no_label() {
    assert_eq!(
        plan(CompletionItemKind::Function, "f()", Some("u8")),
        LabelPlan::Absent
    );
    assert_eq!(
        plan(CompletionItemKind::Method, "f()", Some("fn")),
        LabelPlan::Absent
    );
    assert_eq!(
        plan(CompletionItemKind::Method, "f()", Some("xfn()")),
        LabelPlan::Absent
    );
}

#[test]
fn other_kinds_are_highlighted_by_name() {
    let name = |kind| match plan(kind, "x", Some("y")) {
        LabelPlan::Name(name) => Some(name),
        _ => None,
    };
    assert_eq!(name(CompletionItemKind::Struct), Some("type".to_string()));
    assert_eq!(
        name(CompletionItemKind::Interface),
        Some("type".to_string())
    );
    assert_eq!(name(CompletionItemKind::Enum), Some("type".to_string()));
    assert_eq!(
        name(CompletionItemKind::EnumMember),
        Some("variant".to_string())
    );
    assert_eq!(
        name(CompletionItemKind::Keyword),
        Some("keyword".to_string())
    );
    assert_eq!(
        name(CompletionItemKind::Value),
        Some("constant".to_string())
    );
    assert_eq!(name(CompletionItemKind::Module), None);
    assert_eq!(name(CompletionItemKind::Other), None);
}

#[test]
fn without_a_detail_the_kind_alone_decides() {
    assert_eq!(
        plan(CompletionItemKind::Constant, "X", None),
        LabelPlan::Name("constant".to_string())
    );
    assert_eq!(
        plan(CompletionItemKind::Field, "x", None),
        LabelPlan::Absent
    );
    assert_eq!(
        plan(CompletionItemKind::Variable, "x", None),
        LabelPlan::Absent
    );
    assert_eq!(
        plan(CompletionItemKind::Function, "f()", None),
        LabelPlan::Absent
    );
    let unknown = CompletionItem {
        label: "x".to_string(),
        kind: None,
        detail: Some("u8".to_string()),
    };
    assert_eq!(RustLsp.label_for_completion(&unknown), LabelPlan::Absent);
}

fn plain(text: &str) -> CompletionLabel {
    CompletionLabel {
        text: text.to_string(),
        runs: vec![(1..2, HighlightId(9))],
        filter_range: 1..2,
        left_aligned_len: 3,
    }
}

#[test]
fn named_label_highlights_up_to_the_last_parenthesis() {
    let runs = |text: &str| named_label(plain(text), Some(HighlightId(4))).unwrap().runs;
    assert_eq!(
        runs("größe(a)(b)"),
        vec![(1..2, HighlightId(9)), (0..10, HighlightId(4))]
    );
    assert_eq!(
        runs("größe"),
        vec![(1..2, HighlightId(9)), (0..7, HighlightId(4))]
    );
    assert_eq!(
        runs(""),
        vec![(1..2, HighlightId(9)), (0..0, HighlightId(4))]
    );
    let label = named_label(plain("Vec"), Some(HighlightId(4))).unwrap();
    assert_eq!(label.text, "Vec");
    assert_eq!(label.filter_range, 1..2);
    assert_eq!(label.left_aligned_len, 3);
}

#[test]
fn named_label_needs_a_highlight() {
    assert_eq!(named_label(plain("Vec"), None), None);
}

#[test]
fn ranges_split_no_character() {
    let requests = vec![
        request(CompletionItemKind::Field, "größe", "Länge"),
        request(CompletionItemKind::Variable, "größe", "Länge"),
        request(CompletionItemKind::Function, "größe(…)", "fn(Länge) -> Größe"),
        request(CompletionItemKind::Function, "größe", "fn(Länge)"),
    ];
    for request in requests {
        assert!(request.text.is_char_boundary(request.filter_range.end));
        assert!(request.text.is_char_boundary(request.left_aligned_len));
        assert!(request.source.is_char_boundary(request.range.start));
        assert!(request.source.is_char_boundary(request.range.end));
        assert_eq!(&request.text[request.filter_range.clone()], "größe");
        assert_eq!(&request.source[request.range.clone()], request.text);
    }
    let label = named_label(plain("größe(…)"), Some(HighlightId(1))).unwrap();
    assert_eq!(&label.text[label.runs.last().unwrap().0.clone()], "größe");
}
