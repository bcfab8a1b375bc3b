//! The analyzer: validates parsed SQL statements against a catalog.
//!
//! Each statement is name-resolved and then type-checked against the
//! resolved scope; the two diagnostic lists are concatenated per
//! statement.  A parse failure of the whole input yields exactly one
//! parse-error diagnostic spanning its first fifty bytes at most, and no
//! statement is analyzed.

use vstd::prelude::*;

verus! {

use crate::ast::Statement;
use crate::catalog::Catalog;
use crate::diag::DiagModel;
use crate::diag::Diagnostic;
use crate::diag::DiagnosticKind;
use crate::diag::Severity;
use crate::diag::Span;
use crate::diag::models;
use crate::resolver::NameResolver;
use crate::resolver::RState;
use crate::resolver::spec_resolve_statement;
use crate::type_resolver::TypeResolver;
use crate::type_resolver::spec_check_statement;

/// What the front end hands the analyzer for one input text: the parsed
/// statements, or the failure message and input length when the parser
/// rejected the whole text.
#[derive(Debug)]
pub enum ParseOutcome {
    Statements(Vec<Statement>),
    Failure { message: String, input_len: usize },
}

/// The empty resolver state every statement starts from.
pub open spec fn empty_rstate() -> RState {
    RState { tables: Seq::empty(), ctes: Seq::empty(), aliases: Seq::empty() }
}

/// The diagnostics of one statement: name resolution first, then type
/// checks against the resolved scope.
pub open spec fn spec_analyze_stmt(c: Catalog, stmt: Statement) -> Seq<DiagModel> {
    let (st1, d1) = spec_resolve_statement(c, empty_rstate(), stmt);
    d1 + spec_check_statement(c, st1.tables, stmt)
}

/// The diagnostics of a list of statements, in order.
pub open spec fn spec_analyze_stmts(c: Catalog, stmts: Seq<Statement>) -> Seq<DiagModel>
    decreases stmts,
{
    if stmts.len() == 0 {
        Seq::empty()
    } else {
        spec_analyze_stmt(c, stmts[0]) + spec_analyze_stmts(c, stmts.drop_first())
    }
}

/// The single diagnostic of a whole-text parse failure.
pub open spec fn spec_parse_failure_diag(message: Seq<char>, input_len: int) -> DiagModel {
    DiagModel {
        kind: DiagnosticKind::ParseError,
        severity: Severity::Error,
        message: "Parse error: "@ + message,
        span: Option::Some(
            Span {
                offset: 0,
                length: if input_len < 50 {
                    input_len as usize
                } else {
                    50
                },
                line: 0,
                column: 0,
            },
        ),
        help: Option::None,
        labels: Seq::empty(),
    }
}

/// The diagnostics the analyzer produces for one parse outcome.
pub open spec fn spec_analyze(c: Catalog, p: ParseOutcome) -> Seq<DiagModel> {
    match p {
        ParseOutcome::Statements(stmts) => spec_analyze_stmts(c, stmts@),
        ParseOutcome::Failure { message, input_len } => seq![
            spec_parse_failure_diag(message@, input_len as int),
        ],
    }
}

/// Analyzing the same parse outcome against the same catalog twice yields
/// identical diagnostic lists: the result is a function of the catalog
/// and the statements alone.
pub proof fn lemma_analyze_deterministic(
    c: Catalog,
    p: ParseOutcome,
    r1: Seq<DiagModel>,
    r2: Seq<DiagModel>,
)
    requires
        r1 == spec_analyze(c, p),
        r2 == spec_analyze(c, p),
    ensures
        r1 == r2,
{
}

/// The SQL analyzer: validates statements against a schema catalog.  The
/// instance is reusable; each call analyzes afresh.
pub struct Analyzer<'a> {
    pub catalog: &'a Catalog,
    pub diagnostics: Vec<Diagnostic>,
}

impl<'a> Analyzer<'a> {
    /// A fresh analyzer over the given catalog.
    pub fn new(catalog: &'a Catalog) -> (r: Analyzer<'a>)
        ensures
            r.catalog == catalog,
            r.diagnostics@.len() == 0,
    {
        Analyzer { catalog, diagnostics: Vec::new() }
    }

    /// Analyze one parse outcome and return the ordered diagnostics,
    /// clearing anything left from a prior call.
    pub fn analyze(&mut self, parse: &ParseOutcome) -> (r: Vec<Diagnostic>)
        ensures
            final(self).catalog == old(self).catalog,
            final(self).diagnostics@.len() == 0,
            models(r@) == spec_analyze(*old(self).catalog, *parse),
    {
        self.diagnostics = Vec::new();
        let mut out: Vec<Diagnostic> = Vec::new();
        proof {
            assert(models(out@) =~= Seq::<DiagModel>::empty());
        }
        match parse {
            ParseOutcome::Failure { message, input_len } => {
                let mut msg = String::from_str("Parse error: ");
                msg.append(message.as_str());
                let length: usize = if *input_len < 50 {
                    *input_len
                } else {
                    50
                };
                let d = Diagnostic::error(DiagnosticKind::ParseError, msg).with_span(
                    Span::new(0, length),
                );
                out.push(d);
                proof {
                    assert(models(out@) =~= spec_analyze(*old(self).catalog, *parse));
                }
                out
            }
            ParseOutcome::Statements(stmts) => {
                let n = stmts.len();
                let mut i: usize = 0;
                proof {
                    assert(stmts@.skip(0) =~= stmts@);
                }
                while i < n
                    invariant
                        n == stmts@.len(),
                        i <= n,
                        self.catalog == old(self).catalog,
                        models(out@) + spec_analyze_stmts(
                            *old(self).catalog,
                            stmts@.skip(i as int),
                        ) == spec_analyze_stmts(*old(self).catalog, stmts@),
                    decreases n - i,
                {
                    proof {
                        assert(stmts@.skip(i as int)[0] == stmts@[i as int]);
                        assert(stmts@.skip(i as int).drop_first() =~= stmts@.skip(i + 1));
                    }
                    let stmt = &stmts[i];
                    let mut resolver = NameResolver::new(self.catalog);
                    proof {
                        assert(resolver.st() == empty_rstate());
                    }
                    resolver.resolve_statement(stmt);
                    let mut type_resolver = TypeResolver::new(self.catalog);
                    type_resolver.inherit_scope(&resolver);
                    type_resolver.check_statement(stmt);
                    let ghost before = models(out@);
                    let mut nd = resolver.into_diagnostics();
                    let ghost ndm = models(nd@);
                    out.append(&mut nd);
                    proof {
                        assert(models(out@) =~= before + ndm);
                    }
                    let mut td = type_resolver.into_diagnostics();
                    let ghost tdm = models(td@);
                    out.append(&mut td);
                    proof {
                        assert(models(out@) =~= before + ndm + tdm);
                        assert(ndm + tdm =~= spec_analyze_stmt(
                            *old(self).catalog,
                            stmts@[i as int],
                        ));
                        assert(models(out@) + spec_analyze_stmts(
                            *old(self).catalog,
                            stmts@.skip(i + 1),
                        ) =~= spec_analyze_stmts(*old(self).catalog, stmts@));
                    }
                    i += 1;
                }
                proof {
                    assert(stmts@.skip(n as int) =~= Seq::<Statement>::empty());
                    assert(models(out@) + Seq::<DiagModel>::empty() =~= models(out@));
                }
                out
            }
        }
    }
}

} // verus!
