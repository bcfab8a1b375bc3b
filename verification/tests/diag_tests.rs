use sqlsurge::diag::Diagnostic;
use sqlsurge::diag::DiagnosticKind;
use sqlsurge::diag::Severity;
use sqlsurge::diag::Span;
use sqlsurge::resolver::levenshtein_distance;

#[test]
fn kinds_have_stable_codes_and_names() {
    assert_eq!(DiagnosticKind::TableNotFound.code(), "E0001");
    assert_eq!(DiagnosticKind::ColumnNotFound.code(), "E0002");
    assert_eq!(DiagnosticKind::TypeMismatch.code(), "E0003");
    assert_eq!(DiagnosticKind::PotentialNullViolation.code(), "E0004");
    assert_eq!(DiagnosticKind::ColumnCountMismatch.code(), "E0005");
    assert_eq!(DiagnosticKind::AmbiguousColumn.code(), "E0006");
    assert_eq!(DiagnosticKind::JoinTypeMismatch.code(), "E0007");
    assert_eq!(DiagnosticKind::ParseError.code(), "E1000");

    assert_eq!(DiagnosticKind::TableNotFound.name(), "table-not-found");
    assert_eq!(DiagnosticKind::AmbiguousColumn.name(), "ambiguous-column");
    assert_eq!(DiagnosticKind::ParseError.name(), "parse-error");
}

#[test]
fn builders_fill_the_fields() {
    let d = Diagnostic::error(DiagnosticKind::TableNotFound, "Table 'x' not found".to_string())
        .with_span(Span::with_location(3, 7, 1))
        .with_help("Check that the table exists in your schema definition".to_string())
        .with_label("here".to_string(), Span::new(0, 1));
    assert_eq!(d.severity, Severity::Error);
    assert_eq!(d.code(), "E0001");
    let span = d.span.unwrap();
    assert_eq!(span.line, 3);
    assert_eq!(span.column, 7);
    assert_eq!(d.help.as_deref(), Some("Check that the table exists in your schema definition"));
    assert_eq!(d.labels.len(), 1);

    let w = Diagnostic::warning(DiagnosticKind::TableNotFound, "w".to_string());
    assert_eq!(w.severity, Severity::Warning);
    assert!(w.span.is_none());
}

#[test]
fn levenshtein_matches_known_distances() {
    assert_eq!(levenshtein_distance("kitten", "sitting"), 3);
    assert_eq!(levenshtein_distance("", "abc"), 3);
    assert_eq!(levenshtein_distance("abc", ""), 3);
    assert_eq!(levenshtein_distance("same", "same"), 0);
    assert_eq!(levenshtein_distance("emial", "email"), 2);
}
