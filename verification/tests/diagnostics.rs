use zed_languages::diagnostics::{
    Diagnostic, DiagnosticRelatedInformation, PublishDiagnosticsParams,
};
use zed_languages::server::{CLsp, RustLsp};

fn diagnostic(message: &str) -> Diagnostic {
    Diagnostic {
        message: message.to_string(),
        related_information: None,
    }
}

fn params(diagnostics: Vec<Diagnostic>) -> PublishDiagnosticsParams {
    PublishDiagnosticsParams {
        uri: "file:///a".to_string(),
        version: None,
        diagnostics,
    }
}

fn processed(message: &str) -> String {
    let mut params = params(vec![diagnostic(message)]);
    RustLsp.process_diagnostics(&mut params);
    params.diagnostics.remove(0).message
}

#[test]
fn test_process_rust_diagnostics() {
    let mut params = params(vec![
        // no newlines
        diagnostic("use of moved value `a`"),
        // newline at the end of a code span
        diagnostic("consider importing this struct: `use b::c;\n`"),
        // code span starting right after a newline
        diagnostic("cannot borrow `self.d` as mutable\n`self` is a `&` reference"),
    ]);
    RustLsp.process_diagnostics(&mut params);

    assert_eq!(params.diagnostics[0].message, "use of moved value `a`");

    // remove trailing newline from code span
    assert_eq!(
        params.diagnostics[1].message,
        "consider importing this struct: `use b::c;`"
    );

    // do not remove newline before the start of code span
    assert_eq!(
        params.diagnostics[2].message,
        "cannot borrow `self.d` as mutable\n`self` is a `&` reference"
    );
}

#[test]
fn attached_messages_are_processed_too() {
    let information = vec![
        DiagnosticRelatedInformation {
            message: "`x\n`".to_string(),
        },
        DiagnosticRelatedInformation {
            message: "`y`".to_string(),
        },
    ];
    let mut params = PublishDiagnosticsParams {
        uri: "file:///b".to_string(),
        version: Some(7),
        diagnostics: vec![
            Diagnostic {
                message: "see `z\n`".to_string(),
                related_information: Some(information),
            },
            Diagnostic {
                message: String::new(),
                related_information: Some(vec![]),
            },
        ],
    };
    RustLsp.process_diagnostics(&mut params);
    assert_eq!(
        params,
        PublishDiagnosticsParams {
            uri: "file:///b".to_string(),
            version: Some(7),
            diagnostics: vec![
                Diagnostic {
                    message: "see `z`".to_string(),
                    related_information: Some(vec![
                        DiagnosticRelatedInformation {
                            message: "`x`".to_string(),
                        },
                        DiagnosticRelatedInformation {
                            message: "`y`".to_string(),
                        },
                    ]),
                },
                Diagnostic {
                    message: String::new(),
                    related_information: Some(vec![]),
                },
            ],
        }
    );
}

#[test]
fn clangd_diagnostics_stay() {
    let mut changed = params(vec![diagnostic("`a\n`")]);
    CLsp.process_diagnostics(&mut changed);
    assert_eq!(changed, params(vec![diagnostic("`a\n`")]));
}

#[test]
fn span_must_hold_something() {
    assert_eq!(processed("`\n`"), "`\n`");
    assert_eq!(processed("`a\n`"), "`a`");
    assert_eq!(processed("`\n\n`"), "`\n`");
    assert_eq!(processed(""), "");
}

#[test]
fn closing_backtick_must_end_its_line() {
    assert_eq!(processed("`a\n` b"), "`a\n` b");
    assert_eq!(processed("`a\n`\nb"), "`a`\nb");
    assert_eq!(processed("`a\n`\r\nb"), "`a\n`\r\nb");
    assert_eq!(processed("`a\r\n`"), "`a\r`");
}

#[test]
fn only_one_line_break_goes_per_span() {
    assert_eq!(processed("`a\n\n`"), "`a\n`");
    assert_eq!(processed("`a\nb\n`"), "`a\nb`");
}

#[test]
fn spans_are_taken_one_after_the_other() {
    assert_eq!(processed("`a\n`\n`b\n`"), "`a`\n`b`");
    assert_eq!(processed("x `a` y\n`\nz\n`"), "x `a` y`\nz\n`");
    assert_eq!(processed("é `ü\n`\nß"), "é `ü`\nß");
    assert_eq!(processed("``a\n`"), "``a`");
}

#[test]
fn line_break_before_a_span_stays_beside_a_broken_one() {
    assert_eq!(
        processed("one\n`two` three\n`four\n`\nfive"),
        "one\n`two` three\n`four`\nfive"
    );
}
