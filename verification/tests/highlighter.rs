use vim_picomap::highlighter::{
    Change, ChangeHighlighter, Diagnostic, DiagnosticLevel, DiagnosticsHighlighter, Highlighter,
};

#[test]
fn test_diagnostics_highlighter_highlight() {
    let mut highlighter = DiagnosticsHighlighter::default();

    highlighter.sync(
        3,
        vec![
            Diagnostic {
                i: 1,
                text: "foo".to_string(),
                level: DiagnosticLevel::Danger,
            },
            Diagnostic {
                i: 2,
                text: "bar".to_string(),
                level: DiagnosticLevel::Warning,
            },
            Diagnostic {
                i: 5,
                text: "hoge".to_string(),
                level: DiagnosticLevel::Warning,
            },
        ],
    );

    assert_eq!(highlighter.highlight(), vec![0, 2, 1]);
}

#[test]
fn test_change_highlighter_highlight() {
    let mut highlighter = ChangeHighlighter::default();

    highlighter.sync(3, vec![Change { i: 1, len: 2 }]);

    assert_eq!(highlighter.highlight(), vec![0, 1, 1]);
}

#[test]
fn test_change_sync_empty_is_all_zero() {
    let mut highlighter = ChangeHighlighter::default();

    highlighter.sync(4, vec![]);
    assert_eq!(highlighter.highlight(), vec![0, 0, 0, 0]);

    highlighter.sync(0, vec![]);
    assert_eq!(highlighter.highlight(), Vec::<u64>::new());
}

#[test]
fn test_diagnostics_last_one_on_a_line_wins() {
    let mut highlighter = DiagnosticsHighlighter::default();

    highlighter.sync(
        2,
        vec![
            Diagnostic {
                i: 0,
                text: "first".to_string(),
                level: DiagnosticLevel::Danger,
            },
            Diagnostic {
                i: 0,
                text: "second".to_string(),
                level: DiagnosticLevel::Warning,
            },
        ],
    );

    assert_eq!(highlighter.highlight(), vec![1, 0]);
}

#[test]
fn test_diagnostics_out_of_range_dropped() {
    let mut highlighter = DiagnosticsHighlighter::default();

    highlighter.sync(
        2,
        vec![Diagnostic {
            i: 2,
            text: "past the end".to_string(),
            level: DiagnosticLevel::Danger,
        }],
    );

    assert_eq!(highlighter.highlight(), vec![0, 0]);
}

#[test]
fn test_sync_replaces_previous_state() {
    let mut highlighter = ChangeHighlighter::default();

    highlighter.sync(3, vec![Change { i: 0, len: 3 }]);
    assert_eq!(highlighter.highlight(), vec![1, 1, 1]);

    highlighter.sync(2, vec![]);
    assert_eq!(highlighter.highlight(), vec![0, 0]);
}

#[test]
fn test_change_runs_overlap_and_clip() {
    let mut highlighter = ChangeHighlighter::default();

    highlighter.sync(
        5,
        vec![
            Change { i: 1, len: 2 },
            Change { i: 2, len: 10 },
        ],
    );

    assert_eq!(highlighter.highlight(), vec![0, 1, 1, 1, 1]);
}
