//! Diagnostics: the value type every analysis stage produces.
//!
//! A diagnostic is immutable data, never a control-flow exception.  Each
//! kind carries a stable textual code and a machine name; severity is
//! independent of the kind.

use vstd::prelude::*;

verus! {

/// Source location: byte offset and length, plus 1-indexed line/column.
#[derive(Debug, Clone, Copy, PartialEq, Eq, Structural)]
pub struct Span {
    /// Byte offset from the start of the source.
    pub offset: usize,
    /// Length in bytes.
    pub length: usize,
    /// Line number, 1-indexed (0 when unknown).
    pub line: usize,
    /// Column number, 1-indexed (0 when unknown).
    pub column: usize,
}

impl Span {
    /// A span anchored only by byte offset.
    pub fn new(offset: usize, length: usize) -> (s: Span)
        ensures
            s == (Span { offset, length, line: 0, column: 0 }),
    {
        Span { offset, length, line: 0, column: 0 }
    }

    /// A span anchored by line and column.
    pub fn with_location(line: usize, column: usize, length: usize) -> (s: Span)
        ensures
            s == (Span { offset: 0, length, line, column }),
    {
        Span { offset: 0, length, line, column }
    }
}

/// Severity of a diagnostic.
#[derive(Debug, Clone, Copy, PartialEq, Eq, Structural)]
pub enum Severity {
    Error,
    Warning,
    Info,
}

/// The fixed enumeration of diagnostic kinds.
#[derive(Debug, Clone, Copy, PartialEq, Eq, Structural)]
pub enum DiagnosticKind {
    /// A table, view, CTE or alias is absent from scope or catalog.
    TableNotFound,
    /// A column is absent from the resolved relation(s).
    ColumnNotFound,
    /// Incompatible operand types in a comparison or arithmetic operation.
    TypeMismatch,
    /// Reserved for future NOT NULL violation detection.
    PotentialNullViolation,
    /// An INSERT VALUES row length differs from the effective column count.
    ColumnCountMismatch,
    /// An unqualified column matches two or more in-scope relations.
    AmbiguousColumn,
    /// Incompatible types in a JOIN ON comparison.
    JoinTypeMismatch,
    /// The parser rejected the statement text.
    ParseError,
}

/// The stable textual code of a diagnostic kind.
pub open spec fn spec_kind_code(k: DiagnosticKind) -> Seq<char> {
    match k {
        DiagnosticKind::TableNotFound => "E0001"@,
        DiagnosticKind::ColumnNotFound => "E0002"@,
        DiagnosticKind::TypeMismatch => "E0003"@,
        DiagnosticKind::PotentialNullViolation => "E0004"@,
        DiagnosticKind::ColumnCountMismatch => "E0005"@,
        DiagnosticKind::AmbiguousColumn => "E0006"@,
        DiagnosticKind::JoinTypeMismatch => "E0007"@,
        DiagnosticKind::ParseError => "E1000"@,
    }
}

/// The machine name of a diagnostic kind, used to disable rules externally.
pub open spec fn spec_kind_name(k: DiagnosticKind) -> Seq<char> {
    match k {
        DiagnosticKind::TableNotFound => "table-not-found"@,
        DiagnosticKind::ColumnNotFound => "column-not-found"@,
        DiagnosticKind::TypeMismatch => "type-mismatch"@,
        DiagnosticKind::PotentialNullViolation => "potential-null-violation"@,
        DiagnosticKind::ColumnCountMismatch => "column-count-mismatch"@,
        DiagnosticKind::AmbiguousColumn => "ambiguous-column"@,
        DiagnosticKind::JoinTypeMismatch => "join-type-mismatch"@,
        DiagnosticKind::ParseError => "parse-error"@,
    }
}

impl DiagnosticKind {
    /// The stable error code string, `E0001` through `E0007`, or `E1000`
    /// for parse errors.
    pub fn code(&self) -> (r: &'static str)
        ensures
            r@ == spec_kind_code(*self),
    {
        match self {
            DiagnosticKind::TableNotFound => "E0001",
            DiagnosticKind::ColumnNotFound => "E0002",
            DiagnosticKind::TypeMismatch => "E0003",
            DiagnosticKind::PotentialNullViolation => "E0004",
            DiagnosticKind::ColumnCountMismatch => "E0005",
            DiagnosticKind::AmbiguousColumn => "E0006",
            DiagnosticKind::JoinTypeMismatch => "E0007",
            DiagnosticKind::ParseError => "E1000",
        }
    }

    /// The machine name, consumed by rule-disabling configuration.
    pub fn name(&self) -> (r: &'static str)
        ensures
            r@ == spec_kind_name(*self),
    {
        match self {
            DiagnosticKind::TableNotFound => "table-not-found",
            DiagnosticKind::ColumnNotFound => "column-not-found",
            DiagnosticKind::TypeMismatch => "type-mismatch",
            DiagnosticKind::PotentialNullViolation => "potential-null-violation",
            DiagnosticKind::ColumnCountMismatch => "column-count-mismatch",
            DiagnosticKind::AmbiguousColumn => "ambiguous-column",
            DiagnosticKind::JoinTypeMismatch => "join-type-mismatch",
            DiagnosticKind::ParseError => "parse-error",
        }
    }
}

/// A secondary source annotation attached to a diagnostic.
#[derive(Debug, Clone)]
pub struct Label {
    pub message: String,
    pub span: Span,
}

/// Mathematical model of a [`Label`].
pub struct LabelModel {
    pub message: Seq<char>,
    pub span: Span,
}

impl View for Label {
    type V = LabelModel;

    open spec fn view(&self) -> LabelModel {
        LabelModel { message: self.message@, span: self.span }
    }
}

/// A diagnostic produced by the schema builder or a resolver stage.
#[derive(Debug, Clone)]
pub struct Diagnostic {
    pub kind: DiagnosticKind,
    pub severity: Severity,
    pub message: String,
    pub span: Option<Span>,
    pub help: Option<String>,
    pub labels: Vec<Label>,
}

/// Mathematical model of a [`Diagnostic`].
pub struct DiagModel {
    pub kind: DiagnosticKind,
    pub severity: Severity,
    pub message: Seq<char>,
    pub span: Option<Span>,
    pub help: Option<Seq<char>>,
    pub labels: Seq<LabelModel>,
}

impl View for Diagnostic {
    type V = DiagModel;

    open spec fn view(&self) -> DiagModel {
        DiagModel {
            kind: self.kind,
            severity: self.severity,
            message: self.message@,
            span: self.span,
            help: match self.help {
                Option::Some(h) => Option::Some(h@),
                Option::None => Option::None,
            },
            labels: Seq::new(self.labels@.len(), |i: int| self.labels@[i]@),
        }
    }
}

/// The model of a fresh diagnostic: no span, no help, no labels.
pub open spec fn spec_diag(kind: DiagnosticKind, severity: Severity, message: Seq<char>) -> DiagModel {
    DiagModel {
        kind,
        severity,
        message,
        span: Option::None,
        help: Option::None,
        labels: Seq::empty(),
    }
}

/// The models of a sequence of diagnostics.
pub open spec fn models(s: Seq<Diagnostic>) -> Seq<DiagModel> {
    Seq::new(s.len(), |i: int| s[i]@)
}

impl Diagnostic {
    /// A fresh error-severity diagnostic.
    pub fn error(kind: DiagnosticKind, message: String) -> (d: Diagnostic)
        ensures
            d@ == spec_diag(kind, Severity::Error, message@),
    {
        let d = Diagnostic {
            kind,
            severity: Severity::Error,
            message,
            span: None,
            help: None,
            labels: Vec::new(),
        };
        proof {
            assert(d@.labels =~= Seq::<LabelModel>::empty());
        }
        d
    }

    /// A fresh warning-severity diagnostic.
    pub fn warning(kind: DiagnosticKind, message: String) -> (d: Diagnostic)
        ensures
            d@ == spec_diag(kind, Severity::Warning, message@),
    {
        let d = Diagnostic {
            kind,
            severity: Severity::Warning,
            message,
            span: None,
            help: None,
            labels: Vec::new(),
        };
        proof {
            assert(d@.labels =~= Seq::<LabelModel>::empty());
        }
        d
    }

    /// The same diagnostic anchored at a source span.
    pub fn with_span(self, span: Span) -> (d: Diagnostic)
        ensures
            d@ == (DiagModel { span: Option::Some(span), ..self@ }),
    {
        Diagnostic { span: Some(span), ..self }
    }

    /// The same diagnostic with a help text attached.
    pub fn with_help(self, help: String) -> (d: Diagnostic)
        ensures
            d@ == (DiagModel { help: Option::Some(help@), ..self@ }),
    {
        Diagnostic { help: Some(help), ..self }
    }

    /// The same diagnostic with one more secondary label.
    pub fn with_label(self, message: String, span: Span) -> (d: Diagnostic)
        ensures
            d@ == (DiagModel { labels: self@.labels.push(LabelModel { message: message@, span }), ..self@ }),
    {
        let mut labels = self.labels;
        labels.push(Label { message, span });
        let r = Diagnostic { labels, ..self };
        proof {
            assert(r@.labels =~= self@.labels.push(LabelModel { message: message@, span }));
        }
        r
    }

    /// The stable code string of this diagnostic's kind.
    pub fn code(&self) -> (r: &'static str)
        ensures
            r@ == spec_kind_code(self.kind),
    {
        self.kind.code()
    }
}

} // verus!
