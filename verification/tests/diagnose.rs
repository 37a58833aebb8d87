use rusty_rich::diagnose::{diagnosis, report_panel, report_text};
use std::error::Error;

#[test]
fn test_diagnose() {
    let err = std::io::Error::new(std::io::ErrorKind::NotFound, "file not found");
    let message = err.to_string();
    let mut causes = Vec::new();
    let mut source = err.source();
    while let Some(s) = source {
        causes.push(s.to_string());
        source = s.source();
    }
    let text = diagnosis(&message, &causes);
    assert!(text.plain.contains("file not found"));
    assert_eq!(text.plain, "Error: file not found\n");
}

#[test]
fn test_diagnosis_with_cause() {
    let text = diagnosis("outer", &["inner".to_string()]);
    assert_eq!(text.plain, "Error: outer\nCaused by: inner\n");
    assert_eq!(text.spans.len(), 1);
    assert_eq!(text.spans[0].start, 13);
    assert_eq!(text.spans[0].end, text.plain.chars().count());
}

#[test]
fn test_diagnosis_without_cause() {
    let text = diagnosis("boom", &[]);
    assert_eq!(text.plain, "Error: boom\n");
    assert!(text.spans.is_empty());
}

#[test]
fn test_report_text_ends_with_rule() {
    let text = report_text("boom", &[]);
    assert_eq!(text.plain, "Error: boom\n\n───");
}

#[test]
fn test_report_panel_title() {
    let panel = report_panel("boom", &[]);
    assert_eq!(panel.title.as_deref(), Some("Error Report"));
}

#[test]
fn test_diagnosis_whole_chain() {
    let causes = vec!["middle".to_string(), "root".to_string()];
    let text = diagnosis("top", &causes);
    assert_eq!(text.plain, "Error: top\nCaused by: middle\nCaused by: root\n");
    assert_eq!(text.spans.len(), 2);
    assert_eq!(text.spans[0].start, 11);
    assert_eq!(text.spans[0].end, 29);
    assert_eq!(text.spans[1].start, 29);
    assert_eq!(text.spans[1].end, text.plain.chars().count());
}
