//! The type resolver: infers expression types from the name resolver's
//! scope and flags incompatible comparisons and arithmetic.
//!
//! Inference is best-effort and partial: literals map directly (numeric
//! literals count as integers, strings as text), column references take
//! the owning table's declared type, and relations whose internal types
//! are not tracked — views, CTEs, derived tables — infer as unknown, as
//! does a column name matching more than one relation.  Only comparisons
//! where neither direction permits better than an explicit cast are
//! flagged; a comparison at the top level of a JOIN ON condition is
//! reported as a join mismatch rather than a plain one.

use vstd::prelude::*;

verus! {

use crate::ast::BinOp;
use crate::ast::Expr;
use crate::ast::Join;
use crate::ast::JoinConstraint;
use crate::ast::JoinKind;
use crate::ast::Query;
use crate::ast::Select;
use crate::ast::SelectItem;
use crate::ast::SetExpr;
use crate::ast::Statement;
use crate::ast::TableWithJoins;
use crate::catalog::Catalog;
use crate::catalog::spec_get_column;
use crate::catalog::spec_get_table;
use crate::diag::DiagModel;
use crate::diag::Diagnostic;
use crate::diag::DiagnosticKind;
use crate::diag::Severity;
use crate::diag::Span;
use crate::diag::models;
use crate::resolver::NameResolver;
use crate::resolver::spec_contains_exact;
use crate::scope::Scope;
use crate::scope::ScopeEntryModel;
use crate::strutil::str_eq;
use crate::types::SqlType;
use crate::types::TypeCompatibility;
use crate::types::spec_compat;
use crate::types::spec_display_name;
use crate::types::spec_is_numeric;

/// The outcome of expression type inference.
#[derive(Debug)]
pub enum ExpressionType {
    /// The type was inferred.
    Known(SqlType),
    /// The type is unknown; no check applies to it.
    Unknown,
}

/// The type of a literal: numeric literals count as integers, strings as
/// text, booleans as boolean; NULL and anything else are unknown.
pub open spec fn spec_infer_literal(l: crate::ast::Lit) -> ExpressionType {
    match l {
        crate::ast::Lit::Number(_) => ExpressionType::Known(SqlType::Integer),
        crate::ast::Lit::Str(_) => ExpressionType::Known(SqlType::Text),
        crate::ast::Lit::Bool(_) => ExpressionType::Known(SqlType::Boolean),
        crate::ast::Lit::Null => ExpressionType::Unknown,
        crate::ast::Lit::Other => ExpressionType::Unknown,
    }
}

/// The type of an unqualified column reference: scanning the scope in
/// order, a match in a derived table or view is unknown; a match in a
/// second base table is unknown (ambiguous); a match in exactly one base
/// table takes that column's declared type.
pub open spec fn spec_infer_unqual(
    c: Catalog,
    tables: Seq<ScopeEntryModel>,
    name: Seq<char>,
    found: Option<SqlType>,
) -> ExpressionType
    decreases tables.len(),
{
    if tables.len() == 0 {
        match found {
            Option::Some(t) => ExpressionType::Known(t),
            Option::None => ExpressionType::Unknown,
        }
    } else {
        let re = tables[0].re;
        match re.derived_columns {
            Option::Some(dc) => {
                if spec_contains_exact(dc, name) {
                    ExpressionType::Unknown
                } else {
                    spec_infer_unqual(c, tables.drop_first(), name, found)
                }
            }
            Option::None => match re.view_columns {
                Option::Some(vc) => {
                    if spec_contains_exact(vc, name) {
                        ExpressionType::Unknown
                    } else {
                        spec_infer_unqual(c, tables.drop_first(), name, found)
                    }
                }
                Option::None => match spec_get_table(c, re.table) {
                    Option::Some(td) => match spec_get_column(td, name) {
                        Option::Some(cd) => {
                            if found is Some {
                                ExpressionType::Unknown
                            } else {
                                spec_infer_unqual(
                                    c,
                                    tables.drop_first(),
                                    name,
                                    Option::Some(cd.data_type),
                                )
                            }
                        }
                        Option::None => spec_infer_unqual(c, tables.drop_first(), name, found),
                    },
                    Option::None => spec_infer_unqual(c, tables.drop_first(), name, found),
                },
            },
        }
    }
}

/// The type of a qualified column reference `table.column`: unknown for
/// views and derived tables; the declared type for a base table column.
pub open spec fn spec_infer_qual(
    c: Catalog,
    tables: Seq<ScopeEntryModel>,
    tname: Seq<char>,
    cname: Seq<char>,
) -> ExpressionType {
    let ti = crate::seqx::find_idx(tables, crate::scope::scope_name_pred(tname));
    if ti == -1 {
        ExpressionType::Unknown
    } else {
        let re = tables[ti].re;
        if re.derived_columns is Some || re.view_columns is Some {
            ExpressionType::Unknown
        } else {
            match spec_get_table(c, re.table) {
                Option::Some(td) => match spec_get_column(td, cname) {
                    Option::Some(cd) => ExpressionType::Known(cd.data_type),
                    Option::None => ExpressionType::Unknown,
                },
                Option::None => ExpressionType::Unknown,
            }
        }
    }
}

/// Whether a binary operator is a comparison.
pub open spec fn spec_is_comparison(op: BinOp) -> bool {
    match op {
        BinOp::Eq | BinOp::NotEq | BinOp::Lt | BinOp::LtEq | BinOp::Gt | BinOp::GtEq => true,
        _ => false,
    }
}

/// Whether a binary operator is arithmetic.
pub open spec fn spec_is_arithmetic(op: BinOp) -> bool {
    match op {
        BinOp::Plus | BinOp::Minus | BinOp::Multiply | BinOp::Divide | BinOp::Modulo => true,
        _ => false,
    }
}

/// The inferred type of an expression.
pub open spec fn spec_infer_expr(c: Catalog, tables: Seq<ScopeEntryModel>, e: Expr) -> ExpressionType
    decreases e,
{
    match e {
        Expr::Literal(l) => spec_infer_literal(l),
        Expr::Ident(id) => spec_infer_unqual(c, tables, id.value@, Option::None),
        Expr::CompoundIdent(ids) => {
            if ids@.len() == 2 {
                spec_infer_qual(c, tables, ids@[0].value@, ids@[1].value@)
            } else {
                ExpressionType::Unknown
            }
        }
        Expr::Nested(inner) => spec_infer_expr(c, tables, *inner),
        Expr::Binary { left, op, right, left_span, right_span } => {
            let lt = spec_infer_expr(c, tables, *left);
            let rt = spec_infer_expr(c, tables, *right);
            match (lt, rt) {
                (ExpressionType::Known(l), ExpressionType::Known(r)) => {
                    if spec_is_arithmetic(op) {
                        if spec_is_numeric(l) && spec_is_numeric(r) {
                            ExpressionType::Known(l)
                        } else {
                            ExpressionType::Unknown
                        }
                    } else if spec_is_comparison(op) {
                        ExpressionType::Known(SqlType::Boolean)
                    } else if op == BinOp::And || op == BinOp::Or {
                        ExpressionType::Known(SqlType::Boolean)
                    } else {
                        ExpressionType::Unknown
                    }
                }
                _ => ExpressionType::Unknown,
            }
        }
        _ => ExpressionType::Unknown,
    }
}

/// The diagnostics of one binary operation: an incompatible comparison
/// (no implicit cast in either direction) is a type mismatch; arithmetic
/// flags each non-numeric operand.
pub open spec fn spec_check_binary(
    c: Catalog,
    tables: Seq<ScopeEntryModel>,
    left: Expr,
    op: BinOp,
    right: Expr,
    left_span: Span,
    right_span: Span,
) -> Seq<DiagModel> {
    let lt = spec_infer_expr(c, tables, left);
    let rt = spec_infer_expr(c, tables, right);
    match (lt, rt) {
        (ExpressionType::Known(l), ExpressionType::Known(r)) => {
            if spec_is_comparison(op) {
                if spec_compat(l, r) == TypeCompatibility::ExplicitCast && spec_compat(r, l)
                    == TypeCompatibility::ExplicitCast {
                    seq![
                        DiagModel {
                            kind: DiagnosticKind::TypeMismatch,
                            severity: Severity::Error,
                            message: "Type mismatch: cannot compare "@ + spec_display_name(l)
                                + " with "@ + spec_display_name(r),
                            span: Option::Some(left_span),
                            help: Option::Some(
                                "Types are not implicitly compatible. Consider using explicit CAST."@,
                            ),
                            labels: Seq::empty(),
                        },
                    ]
                } else {
                    Seq::empty()
                }
            } else if spec_is_arithmetic(op) {
                let dl: Seq<DiagModel> = if !spec_is_numeric(l) {
                    seq![
                        DiagModel {
                            kind: DiagnosticKind::TypeMismatch,
                            severity: Severity::Error,
                            message: "Arithmetic operation requires numeric types, but got "@
                                + spec_display_name(l),
                            span: Option::Some(left_span),
                            help: Option::None,
                            labels: Seq::empty(),
                        },
                    ]
                } else {
                    Seq::empty()
                };
                let dr: Seq<DiagModel> = if !spec_is_numeric(r) {
                    seq![
                        DiagModel {
                            kind: DiagnosticKind::TypeMismatch,
                            severity: Severity::Error,
                            message: "Arithmetic operation requires numeric types, but got "@
                                + spec_display_name(r),
                            span: Option::Some(right_span),
                            help: Option::None,
                            labels: Seq::empty(),
                        },
                    ]
                } else {
                    Seq::empty()
                };
                dl + dr
            } else {
                Seq::empty()
            }
        }
        _ => Seq::empty(),
    }
}

/// The diagnostics of an expression checked recursively: binary
/// operations are checked and descended; parenthesized, unary, IN-list,
/// BETWEEN and CASE forms are descended; other forms are left alone.
pub open spec fn spec_check_expr(c: Catalog, tables: Seq<ScopeEntryModel>, e: Expr) -> Seq<
    DiagModel,
>
    decreases e,
{
    match e {
        Expr::Binary { left, op, right, left_span, right_span } => spec_check_binary(
            c,
            tables,
            *left,
            op,
            *right,
            left_span,
            right_span,
        ) + spec_check_expr(c, tables, *left) + spec_check_expr(c, tables, *right),
        Expr::Nested(inner) => spec_check_expr(c, tables, *inner),
        Expr::Unary(inner) => spec_check_expr(c, tables, *inner),
        Expr::InList { expr, list } => spec_check_expr(c, tables, *expr) + spec_check_expr_list(
            c,
            tables,
            list@,
        ),
        Expr::Between { expr, low, high } => spec_check_expr(c, tables, *expr) + spec_check_expr(
            c,
            tables,
            *low,
        ) + spec_check_expr(c, tables, *high),
        Expr::Case { operand, conditions, results, else_result } => {
            let d1: Seq<DiagModel> = match operand {
                Option::Some(op) => spec_check_expr(c, tables, *op),
                Option::None => Seq::empty(),
            };
            let d2 = spec_check_expr_list(c, tables, conditions@);
            let d3 = spec_check_expr_list(c, tables, results@);
            let d4: Seq<DiagModel> = match else_result {
                Option::Some(er) => spec_check_expr(c, tables, *er),
                Option::None => Seq::empty(),
            };
            d1 + d2 + d3 + d4
        }
        _ => Seq::empty(),
    }
}

/// The diagnostics of a list of expressions, in order.
pub open spec fn spec_check_expr_list(c: Catalog, tables: Seq<ScopeEntryModel>, es: Seq<Expr>) -> Seq<
    DiagModel,
>
    decreases es,
{
    if es.len() == 0 {
        Seq::empty()
    } else {
        spec_check_expr(c, tables, es[0]) + spec_check_expr_list(c, tables, es.drop_first())
    }
}

/// The diagnostics of a JOIN ON expression: a comparison at any level of
/// the ON tree whose operands are incompatible in both directions is a
/// join type mismatch; the search descends comparisons, other binary
/// operators, and parentheses.
pub open spec fn spec_check_join_on(c: Catalog, tables: Seq<ScopeEntryModel>, e: Expr) -> Seq<
    DiagModel,
>
    decreases e,
{
    match e {
        Expr::Binary { left, op, right, left_span, right_span } => {
            if spec_is_comparison(op) {
                let lt = spec_infer_expr(c, tables, *left);
                let rt = spec_infer_expr(c, tables, *right);
                let head: Seq<DiagModel> = match (lt, rt) {
                    (ExpressionType::Known(l), ExpressionType::Known(r)) => {
                        if spec_compat(l, r) == TypeCompatibility::ExplicitCast && spec_compat(
                            r,
                            l,
                        ) == TypeCompatibility::ExplicitCast {
                            seq![
                                DiagModel {
                                    kind: DiagnosticKind::JoinTypeMismatch,
                                    severity: Severity::Error,
                                    message: "JOIN condition type mismatch: "@ + spec_display_name(
                                        l,
                                    ) + " vs "@ + spec_display_name(r),
                                    span: Option::Some(left_span),
                                    help: Option::Some(
                                        "JOIN condition should compare compatible types. Consider using explicit CAST."@,
                                    ),
                                    labels: Seq::empty(),
                                },
                            ]
                        } else {
                            Seq::empty()
                        }
                    }
                    _ => Seq::empty(),
                };
                head + spec_check_join_on(c, tables, *left) + spec_check_join_on(c, tables, *right)
            } else {
                spec_check_join_on(c, tables, *left) + spec_check_join_on(c, tables, *right)
            }
        }
        Expr::Nested(inner) => spec_check_join_on(c, tables, *inner),
        _ => Seq::empty(),
    }
}

/// The diagnostics of one join: only inner and outer joins with an ON
/// condition are checked.
pub open spec fn spec_check_join(c: Catalog, tables: Seq<ScopeEntryModel>, j: Join) -> Seq<
    DiagModel,
>
    decreases j,
{
    match j.kind {
        JoinKind::Inner | JoinKind::LeftOuter | JoinKind::RightOuter | JoinKind::FullOuter => {
            match j.constraint {
                JoinConstraint::On(e) => spec_check_join_on(c, tables, e),
                _ => Seq::empty(),
            }
        }
        _ => Seq::empty(),
    }
}

/// The diagnostics of the joins of one FROM item, in order.
pub open spec fn spec_check_joins(c: Catalog, tables: Seq<ScopeEntryModel>, js: Seq<Join>) -> Seq<
    DiagModel,
>
    decreases js,
{
    if js.len() == 0 {
        Seq::empty()
    } else {
        spec_check_join(c, tables, js[0]) + spec_check_joins(c, tables, js.drop_first())
    }
}

/// The diagnostics of the join conditions of a FROM clause, in order.
pub open spec fn spec_check_from(
    c: Catalog,
    tables: Seq<ScopeEntryModel>,
    twjs: Seq<TableWithJoins>,
) -> Seq<DiagModel>
    decreases twjs,
{
    if twjs.len() == 0 {
        Seq::empty()
    } else {
        spec_check_joins(c, tables, twjs[0].joins@) + spec_check_from(
            c,
            tables,
            twjs.drop_first(),
        )
    }
}

/// The diagnostics of the projection items, in order: expressions are
/// checked; wildcards are not.
pub open spec fn spec_check_items(
    c: Catalog,
    tables: Seq<ScopeEntryModel>,
    items: Seq<SelectItem>,
) -> Seq<DiagModel>
    decreases items,
{
    if items.len() == 0 {
        Seq::empty()
    } else {
        let head: Seq<DiagModel> = match items[0] {
            SelectItem::Expr(e) => spec_check_expr(c, tables, e),
            SelectItem::ExprWithAlias { expr, alias } => spec_check_expr(c, tables, expr),
            _ => Seq::empty(),
        };
        head + spec_check_items(c, tables, items.drop_first())
    }
}

/// The diagnostics of a SELECT: join conditions, then the projection,
/// then the WHERE clause.
pub open spec fn spec_check_select(c: Catalog, tables: Seq<ScopeEntryModel>, sel: Select) -> Seq<
    DiagModel,
>
    decreases sel,
{
    let d1 = spec_check_from(c, tables, sel.from@);
    let d2 = spec_check_items(c, tables, sel.projection@);
    let d3: Seq<DiagModel> = match sel.selection {
        Option::Some(e) => spec_check_expr(c, tables, e),
        Option::None => Seq::empty(),
    };
    d1 + d2 + d3
}

/// The diagnostics of a query: only a plain SELECT body is checked.
pub open spec fn spec_check_query(c: Catalog, tables: Seq<ScopeEntryModel>, q: Query) -> Seq<
    DiagModel,
>
    decreases q,
{
    match q.body {
        SetExpr::Select(sel) => spec_check_select(c, tables, *sel),
        _ => Seq::empty(),
    }
}

/// The diagnostics of one statement: queries are checked; an UPDATE's
/// WHERE clause and a DELETE's WHERE clause are checked; INSERT and
/// UPDATE value-versus-column type checking produces no diagnostics.
pub open spec fn spec_check_statement(c: Catalog, tables: Seq<ScopeEntryModel>, stmt: Statement) -> Seq<
    DiagModel,
>
    decreases stmt,
{
    match stmt {
        Statement::Query(q) => spec_check_query(c, tables, *q),
        Statement::Update(up) => match up.selection {
            Option::Some(e) => spec_check_expr(c, tables, e),
            Option::None => Seq::empty(),
        },
        Statement::Delete(del) => match del.selection {
            Option::Some(e) => spec_check_expr(c, tables, e),
            Option::None => Seq::empty(),
        },
        _ => Seq::empty(),
    }
}

/// The type resolver for one statement: it inherits the name resolver's
/// scope and collects its own diagnostics.
pub struct TypeResolver<'a> {
    pub catalog: &'a Catalog,
    pub tables: Scope,
    pub diagnostics: Vec<Diagnostic>,
}

impl<'a> TypeResolver<'a> {
    /// A fresh type resolver over the given catalog, with empty scope.
    pub fn new(catalog: &'a Catalog) -> (r: TypeResolver<'a>)
        ensures
            r.catalog == catalog,
            r.tables@ =~= Seq::<ScopeEntryModel>::empty(),
            r.diagnostics@.len() == 0,
    {
        TypeResolver { catalog, tables: Scope::new(), diagnostics: Vec::new() }
    }

    /// Copy the resolved relation scope from a name resolver, so type
    /// inference observes the identical scope without re-deriving it.
    pub fn inherit_scope(&mut self, resolver: &NameResolver)
        ensures
            final(self).catalog == old(self).catalog,
            final(self).tables@ == resolver.tables@,
            final(self).diagnostics == old(self).diagnostics,
    {
        self.tables = resolver.tables.clone();
    }

    /// Consume the resolver and return the collected diagnostics.
    pub fn into_diagnostics(self) -> (r: Vec<Diagnostic>)
        ensures
            r == self.diagnostics,
    {
        self.diagnostics
    }

    /// Infer the type of an expression against the inherited scope.
    fn infer_expr_type(&self, e: &Expr) -> (r: ExpressionType)
        ensures
            r == spec_infer_expr(*self.catalog, self.tables@, *e),
        decreases *e,
    {
        match e {
            Expr::Literal(l) => {
                match l {
                    crate::ast::Lit::Number(_) => ExpressionType::Known(SqlType::Integer),
                    crate::ast::Lit::Str(_) => ExpressionType::Known(SqlType::Text),
                    crate::ast::Lit::Bool(_) => ExpressionType::Known(SqlType::Boolean),
                    crate::ast::Lit::Null => ExpressionType::Unknown,
                    crate::ast::Lit::Other => ExpressionType::Unknown,
                }
            }
            Expr::Ident(id) => self.infer_unqual(id.value.as_str()),
            Expr::CompoundIdent(ids) => {
                if ids.len() == 2 {
                    self.infer_qual(ids[0].value.as_str(), ids[1].value.as_str())
                } else {
                    ExpressionType::Unknown
                }
            }
            Expr::Nested(inner) => self.infer_expr_type(&**inner),
            Expr::Binary { left, op, right, left_span, right_span } => {
                let lt = self.infer_expr_type(&**left);
                let rt = self.infer_expr_type(&**right);
                match (lt, rt) {
                    (ExpressionType::Known(l), ExpressionType::Known(r)) => {
                        if is_arithmetic(*op) {
                            if l.is_numeric_family() && r.is_numeric_family() {
                                ExpressionType::Known(l)
                            } else {
                                ExpressionType::Unknown
                            }
                        } else if is_comparison(*op) {
                            ExpressionType::Known(SqlType::Boolean)
                        } else if matches!(op, BinOp::And) || matches!(op, BinOp::Or) {
                            ExpressionType::Known(SqlType::Boolean)
                        } else {
                            ExpressionType::Unknown
                        }
                    }
                    _ => ExpressionType::Unknown,
                }
            }
            _ => ExpressionType::Unknown,
        }
    }

    fn infer_unqual(&self, name: &str) -> (r: ExpressionType)
        ensures
            r == spec_infer_unqual(*self.catalog, self.tables@, name@, Option::None),
    {
        let n = self.tables.entries.len();
        let mut found: Option<SqlType> = None;
        let mut i: usize = 0;
        proof {
            assert(self.tables@.skip(0) =~= self.tables@);
        }
        while i < n
            invariant
                n == self.tables.entries@.len(),
                i <= n,
                spec_infer_unqual(*self.catalog, self.tables@.skip(i as int), name@, found)
                    == spec_infer_unqual(*self.catalog, self.tables@, name@, Option::None),
            decreases n - i,
        {
            proof {
                assert(self.tables@.skip(i as int)[0] == self.tables@[i as int]);
                assert(self.tables@.skip(i as int).drop_first() =~= self.tables@.skip(i + 1));
            }
            let re = &self.tables.entries[i].re;
            if let Some(dc) = &re.derived_columns {
                if contains_exact_str(dc, name) {
                    return ExpressionType::Unknown;
                }
            } else if let Some(vc) = &re.view_columns {
                if contains_exact_str(vc, name) {
                    return ExpressionType::Unknown;
                }
            } else {
                match self.catalog.get_table(&re.table) {
                    Some(td) => {
                        match td.get_column(name) {
                            Some(cd) => {
                                if found.is_some() {
                                    return ExpressionType::Unknown;
                                }
                                found = Some(cd.data_type.clone());
                            }
                            None => {}
                        }
                    }
                    None => {}
                }
            }
            i += 1;
        }
        proof {
            assert(self.tables@.skip(n as int) =~= Seq::<ScopeEntryModel>::empty());
        }
        match found {
            Some(t) => ExpressionType::Known(t),
            None => ExpressionType::Unknown,
        }
    }

    fn infer_qual(&self, tname: &str, cname: &str) -> (r: ExpressionType)
        ensures
            r == spec_infer_qual(*self.catalog, self.tables@, tname@, cname@),
    {
        match self.tables.get(tname) {
            Some(re) => {
                if re.derived_columns.is_some() || re.view_columns.is_some() {
                    return ExpressionType::Unknown;
                }
                match self.catalog.get_table(&re.table) {
                    Some(td) => {
                        match td.get_column(cname) {
                            Some(cd) => ExpressionType::Known(cd.data_type.clone()),
                            None => ExpressionType::Unknown,
                        }
                    }
                    None => ExpressionType::Unknown,
                }
            }
            None => ExpressionType::Unknown,
        }
    }

    /// Check one binary operation and record its diagnostics.
    fn check_binary_op(&mut self, left: &Expr, op: BinOp, right: &Expr, left_span: Span, right_span: Span)
        ensures
            final(self).catalog == old(self).catalog,
            final(self).tables == old(self).tables,
            models(final(self).diagnostics@) == models(old(self).diagnostics@) + spec_check_binary(
                *old(self).catalog,
                old(self).tables@,
                *left,
                op,
                *right,
                left_span,
                right_span,
            ),
    {
        let ghost expected = spec_check_binary(
            *old(self).catalog,
            old(self).tables@,
            *left,
            op,
            *right,
            left_span,
            right_span,
        );
        let lt = self.infer_expr_type(left);
        let rt = self.infer_expr_type(right);
        match (lt, rt) {
            (ExpressionType::Known(l), ExpressionType::Known(r)) => {
                if is_comparison(op) {
                    let lr = l.is_compatible_with(&r);
                    let rl = r.is_compatible_with(&l);
                    if matches!(lr, TypeCompatibility::ExplicitCast) && matches!(
                        rl,
                        TypeCompatibility::ExplicitCast,
                    ) {
                        let ln = l.display_name();
                        let rn = r.display_name();
                        let msg = mk_compare_msg(ln.as_str(), rn.as_str());
                        let d = Diagnostic::error(DiagnosticKind::TypeMismatch, msg).with_span(
                            left_span,
                        ).with_help(
                            String::from_str(
                                "Types are not implicitly compatible. Consider using explicit CAST.",
                            ),
                        );
                        proof {
                            assert(expected =~= seq![d@]);
                        }
                        self.diagnostics.push(d);
                        proof {
                            assert(models(self.diagnostics@) =~= models(old(self).diagnostics@)
                                + expected);
                        }
                    } else {
                        proof {
                            assert(expected =~= Seq::<DiagModel>::empty());
                            assert(models(self.diagnostics@) =~= models(old(self).diagnostics@)
                                + expected);
                        }
                    }
                } else if is_arithmetic(op) {
                    if !l.is_numeric_family() {
                        let ln = l.display_name();
                        let msg = mk_arith_msg(ln.as_str());
                        let d = Diagnostic::error(DiagnosticKind::TypeMismatch, msg).with_span(
                            left_span,
                        );
                        self.diagnostics.push(d);
                    }
                    if !r.is_numeric_family() {
                        let rn = r.display_name();
                        let msg = mk_arith_msg(rn.as_str());
                        let d = Diagnostic::error(DiagnosticKind::TypeMismatch, msg).with_span(
                            right_span,
                        );
                        self.diagnostics.push(d);
                    }
                    proof {
                        assert(models(self.diagnostics@) =~= models(old(self).diagnostics@)
                            + expected);
                    }
                } else {
                    proof {
                        assert(expected =~= Seq::<DiagModel>::empty());
                        assert(models(self.diagnostics@) =~= models(old(self).diagnostics@)
                            + expected);
                    }
                }
            }
            _ => {
                proof {
                    assert(expected =~= Seq::<DiagModel>::empty());
                    assert(models(self.diagnostics@) =~= models(old(self).diagnostics@)
                        + expected);
                }
            }
        }
    }

    /// Check an expression recursively.
    fn check_expr_recursive(&mut self, e: &Expr)
        ensures
            final(self).catalog == old(self).catalog,
            final(self).tables == old(self).tables,
            models(final(self).diagnostics@) == models(old(self).diagnostics@) + spec_check_expr(
                *old(self).catalog,
                old(self).tables@,
                *e,
            ),
        decreases *e,
    {
        let ghost expected = spec_check_expr(*old(self).catalog, old(self).tables@, *e);
        match e {
            Expr::Binary { left, op, right, left_span, right_span } => {
                self.check_binary_op(&**left, *op, &**right, *left_span, *right_span);
                self.check_expr_recursive(&**left);
                self.check_expr_recursive(&**right);
                proof {
                    assert(models(self.diagnostics@) =~= models(old(self).diagnostics@)
                        + expected);
                }
            }
            Expr::Nested(inner) => {
                self.check_expr_recursive(&**inner);
            }
            Expr::Unary(inner) => {
                self.check_expr_recursive(&**inner);
            }
            Expr::InList { expr, list } => {
                self.check_expr_recursive(&**expr);
                self.check_expr_vec(list);
                proof {
                    assert(models(self.diagnostics@) =~= models(old(self).diagnostics@)
                        + expected);
                }
            }
            Expr::Between { expr, low, high } => {
                self.check_expr_recursive(&**expr);
                self.check_expr_recursive(&**low);
                self.check_expr_recursive(&**high);
                proof {
                    assert(models(self.diagnostics@) =~= models(old(self).diagnostics@)
                        + expected);
                }
            }
            Expr::Case { operand, conditions, results, else_result } => {
                match operand {
                    Some(op) => {
                        self.check_expr_recursive(&**op);
                    }
                    None => {}
                }
                self.check_expr_vec(conditions);
                self.check_expr_vec(results);
                match else_result {
                    Some(er) => {
                        self.check_expr_recursive(&**er);
                    }
                    None => {}
                }
                proof {
                    assert(models(self.diagnostics@) =~= models(old(self).diagnostics@)
                        + expected);
                }
            }
            _ => {
                proof {
                    assert(models(self.diagnostics@) + Seq::<DiagModel>::empty() =~= models(
                        self.diagnostics@,
                    ));
                }
            }
        }
    }

    fn check_expr_vec(&mut self, es: &Vec<Expr>)
        ensures
            final(self).catalog == old(self).catalog,
            final(self).tables == old(self).tables,
            models(final(self).diagnostics@) == models(old(self).diagnostics@)
                + spec_check_expr_list(*old(self).catalog, old(self).tables@, es@),
        decreases es@,
    {
        let n = es.len();
        let mut i: usize = 0;
        proof {
            assert(es@.skip(0) =~= es@);
        }
        while i < n
            invariant
                n == es@.len(),
                i <= n,
                self.catalog == old(self).catalog,
                self.tables == old(self).tables,
                models(self.diagnostics@) + spec_check_expr_list(
                    *old(self).catalog,
                    old(self).tables@,
                    es@.skip(i as int),
                ) == models(old(self).diagnostics@) + spec_check_expr_list(
                    *old(self).catalog,
                    old(self).tables@,
                    es@,
                ),
            decreases n - i,
        {
            proof {
                assert(es@.skip(i as int)[0] == es@[i as int]);
                assert(es@.skip(i as int).drop_first() =~= es@.skip(i + 1));
            }
            self.check_expr_recursive(&es[i]);
            proof {
                assert(models(self.diagnostics@) + spec_check_expr_list(
                    *old(self).catalog,
                    old(self).tables@,
                    es@.skip(i + 1),
                ) =~= models(old(self).diagnostics@) + spec_check_expr_list(
                    *old(self).catalog,
                    old(self).tables@,
                    es@,
                ));
            }
            i += 1;
        }
        proof {
            assert(es@.skip(n as int) =~= Seq::<Expr>::empty());
            assert(models(self.diagnostics@) + Seq::<DiagModel>::empty() =~= models(
                self.diagnostics@,
            ));
        }
    }

    /// Check a JOIN ON expression, reporting incompatible comparisons as
    /// join type mismatches.
    fn check_join_on_expr(&mut self, e: &Expr)
        ensures
            final(self).catalog == old(self).catalog,
            final(self).tables == old(self).tables,
            models(final(self).diagnostics@) == models(old(self).diagnostics@)
                + spec_check_join_on(*old(self).catalog, old(self).tables@, *e),
        decreases *e,
    {
        let ghost expected = spec_check_join_on(*old(self).catalog, old(self).tables@, *e);
        match e {
            Expr::Binary { left, op, right, left_span, right_span } => {
                if is_comparison(*op) {
                    let lt = self.infer_expr_type(&**left);
                    let rt = self.infer_expr_type(&**right);
                    match (lt, rt) {
                        (ExpressionType::Known(l), ExpressionType::Known(r)) => {
                            let lr = l.is_compatible_with(&r);
                            let rl = r.is_compatible_with(&l);
                            if matches!(lr, TypeCompatibility::ExplicitCast) && matches!(
                                rl,
                                TypeCompatibility::ExplicitCast,
                            ) {
                                let ln = l.display_name();
                                let rn = r.display_name();
                                let msg = mk_join_msg(ln.as_str(), rn.as_str());
                                let d = Diagnostic::error(
                                    DiagnosticKind::JoinTypeMismatch,
                                    msg,
                                ).with_span(*left_span).with_help(
                                    String::from_str(
                                        "JOIN condition should compare compatible types. Consider using explicit CAST.",
                                    ),
                                );
                                self.diagnostics.push(d);
                            }
                        }
                        _ => {}
                    }
                    self.check_join_on_expr(&**left);
                    self.check_join_on_expr(&**right);
                    proof {
                        assert(models(self.diagnostics@) =~= models(old(self).diagnostics@)
                            + expected);
                    }
                } else {
                    self.check_join_on_expr(&**left);
                    self.check_join_on_expr(&**right);
                    proof {
                        assert(models(self.diagnostics@) =~= models(old(self).diagnostics@)
                            + expected);
                    }
                }
            }
            Expr::Nested(inner) => {
                self.check_join_on_expr(&**inner);
            }
            _ => {
                proof {
                    assert(models(self.diagnostics@) + Seq::<DiagModel>::empty() =~= models(
                        self.diagnostics@,
                    ));
                }
            }
        }
    }

    /// Check one join's condition.
    fn check_join_condition(&mut self, join: &Join)
        ensures
            final(self).catalog == old(self).catalog,
            final(self).tables == old(self).tables,
            models(final(self).diagnostics@) == models(old(self).diagnostics@) + spec_check_join(
                *old(self).catalog,
                old(self).tables@,
                *join,
            ),
        decreases *join,
    {
        match join.kind {
            JoinKind::Inner | JoinKind::LeftOuter | JoinKind::RightOuter | JoinKind::FullOuter => {
                match &join.constraint {
                    JoinConstraint::On(e) => {
                        self.check_join_on_expr(e);
                    }
                    _ => {
                        proof {
                            assert(models(self.diagnostics@) + Seq::<DiagModel>::empty() =~= models(
                                self.diagnostics@,
                            ));
                        }
                    }
                }
            }
            _ => {
                proof {
                    assert(models(self.diagnostics@) + Seq::<DiagModel>::empty() =~= models(
                        self.diagnostics@,
                    ));
                }
            }
        }
    }

    /// Check types in a SELECT: join conditions, the projection, and the
    /// WHERE clause.
    fn check_select(&mut self, select: &Select)
        ensures
            final(self).catalog == old(self).catalog,
            final(self).tables == old(self).tables,
            models(final(self).diagnostics@) == models(old(self).diagnostics@) + spec_check_select(
                *old(self).catalog,
                old(self).tables@,
                *select,
            ),
        decreases *select,
    {
        let ghost expected = spec_check_select(*old(self).catalog, old(self).tables@, *select);
        let from = &select.from;
        let n = from.len();
        let mut i: usize = 0;
        proof {
            assert(from@.skip(0) =~= from@);
        }
        while i < n
            invariant
                n == from@.len(),
                i <= n,
                self.catalog == old(self).catalog,
                self.tables == old(self).tables,
                models(self.diagnostics@) + spec_check_from(
                    *old(self).catalog,
                    old(self).tables@,
                    from@.skip(i as int),
                ) == models(old(self).diagnostics@) + spec_check_from(
                    *old(self).catalog,
                    old(self).tables@,
                    from@,
                ),
            decreases n - i,
        {
            proof {
                assert(from@.skip(i as int)[0] == from@[i as int]);
                assert(from@.skip(i as int).drop_first() =~= from@.skip(i + 1));
            }
            let joins = &from[i].joins;
            let m = joins.len();
            let mut k: usize = 0;
            proof {
                assert(joins@.skip(0) =~= joins@);
            }
            while k < m
                invariant
                    m == joins@.len(),
                    k <= m,
                    self.catalog == old(self).catalog,
                    self.tables == old(self).tables,
                    models(self.diagnostics@) + spec_check_joins(
                        *old(self).catalog,
                        old(self).tables@,
                        joins@.skip(k as int),
                    ) + spec_check_from(
                        *old(self).catalog,
                        old(self).tables@,
                        from@.skip(i + 1),
                    ) == models(old(self).diagnostics@) + spec_check_from(
                        *old(self).catalog,
                        old(self).tables@,
                        from@,
                    ),
                decreases m - k,
            {
                proof {
                    assert(joins@.skip(k as int)[0] == joins@[k as int]);
                    assert(joins@.skip(k as int).drop_first() =~= joins@.skip(k + 1));
                }
                self.check_join_condition(&joins[k]);
                proof {
                    assert(models(self.diagnostics@) + spec_check_joins(
                        *old(self).catalog,
                        old(self).tables@,
                        joins@.skip(k + 1),
                    ) + spec_check_from(
                        *old(self).catalog,
                        old(self).tables@,
                        from@.skip(i + 1),
                    ) =~= models(old(self).diagnostics@) + spec_check_from(
                        *old(self).catalog,
                        old(self).tables@,
                        from@,
                    ));
                }
                k += 1;
            }
            proof {
                assert(joins@.skip(m as int) =~= Seq::<Join>::empty());
                assert(models(self.diagnostics@) + Seq::<DiagModel>::empty() + spec_check_from(
                    *old(self).catalog,
                    old(self).tables@,
                    from@.skip(i + 1),
                ) =~= models(self.diagnostics@) + spec_check_from(
                    *old(self).catalog,
                    old(self).tables@,
                    from@.skip(i + 1),
                ));
            }
            i += 1;
        }
        proof {
            assert(from@.skip(n as int) =~= Seq::<TableWithJoins>::empty());
        }
        let ghost dfrom = spec_check_from(*old(self).catalog, old(self).tables@, from@);
        let items = &select.projection;
        let m2 = items.len();
        let mut k2: usize = 0;
        proof {
            assert(items@.skip(0) =~= items@);
            assert(models(self.diagnostics@) =~= models(old(self).diagnostics@) + dfrom);
        }
        while k2 < m2
            invariant
                m2 == items@.len(),
                k2 <= m2,
                self.catalog == old(self).catalog,
                self.tables == old(self).tables,
                models(self.diagnostics@) + spec_check_items(
                    *old(self).catalog,
                    old(self).tables@,
                    items@.skip(k2 as int),
                ) == models(old(self).diagnostics@) + dfrom + spec_check_items(
                    *old(self).catalog,
                    old(self).tables@,
                    items@,
                ),
            decreases m2 - k2,
        {
            proof {
                assert(items@.skip(k2 as int)[0] == items@[k2 as int]);
                assert(items@.skip(k2 as int).drop_first() =~= items@.skip(k2 + 1));
            }
            match &items[k2] {
                SelectItem::Expr(e) => {
                    self.check_expr_recursive(e);
                }
                SelectItem::ExprWithAlias { expr, alias } => {
                    self.check_expr_recursive(expr);
                }
                _ => {}
            }
            proof {
                assert(models(self.diagnostics@) + spec_check_items(
                    *old(self).catalog,
                    old(self).tables@,
                    items@.skip(k2 + 1),
                ) =~= models(old(self).diagnostics@) + dfrom + spec_check_items(
                    *old(self).catalog,
                    old(self).tables@,
                    items@,
                ));
            }
            k2 += 1;
        }
        proof {
            assert(items@.skip(m2 as int) =~= Seq::<SelectItem>::empty());
        }
        match &select.selection {
            Some(e) => {
                self.check_expr_recursive(e);
            }
            None => {}
        }
        proof {
            assert(models(self.diagnostics@) =~= models(old(self).diagnostics@) + expected);
        }
    }

    /// Check types in one statement.
    pub fn check_statement(&mut self, stmt: &Statement)
        ensures
            final(self).catalog == old(self).catalog,
            final(self).tables == old(self).tables,
            models(final(self).diagnostics@) == models(old(self).diagnostics@)
                + spec_check_statement(*old(self).catalog, old(self).tables@, *stmt),
        decreases *stmt,
    {
        match stmt {
            Statement::Query(q) => {
                match &q.body {
                    SetExpr::Select(sel) => {
                        self.check_select(&**sel);
                    }
                    _ => {
                        proof {
                            assert(models(self.diagnostics@) + Seq::<DiagModel>::empty() =~= models(
                                self.diagnostics@,
                            ));
                        }
                    }
                }
            }
            Statement::Update(up) => {
                match &up.selection {
                    Some(e) => {
                        self.check_expr_recursive(e);
                    }
                    None => {
                        proof {
                            assert(models(self.diagnostics@) + Seq::<DiagModel>::empty() =~= models(
                                self.diagnostics@,
                            ));
                        }
                    }
                }
            }
            Statement::Delete(del) => {
                match &del.selection {
                    Some(e) => {
                        self.check_expr_recursive(e);
                    }
                    None => {
                        proof {
                            assert(models(self.diagnostics@) + Seq::<DiagModel>::empty() =~= models(
                                self.diagnostics@,
                            ));
                        }
                    }
                }
            }
            _ => {
                proof {
                    assert(models(self.diagnostics@) + Seq::<DiagModel>::empty() =~= models(
                        self.diagnostics@,
                    ));
                }
            }
        }
    }
}

/// Whether an operator is a comparison.
fn is_comparison(op: BinOp) -> (r: bool)
    ensures
        r == spec_is_comparison(op),
{
    match op {
        BinOp::Eq | BinOp::NotEq | BinOp::Lt | BinOp::LtEq | BinOp::Gt | BinOp::GtEq => true,
        _ => false,
    }
}

/// Whether an operator is arithmetic.
fn is_arithmetic(op: BinOp) -> (r: bool)
    ensures
        r == spec_is_arithmetic(op),
{
    match op {
        BinOp::Plus | BinOp::Minus | BinOp::Multiply | BinOp::Divide | BinOp::Modulo => true,
        _ => false,
    }
}

fn contains_exact_str(cols: &Vec<String>, name: &str) -> (r: bool)
    ensures
        r == spec_contains_exact(crate::catalog::str_views(cols@), name@),
{
    let n = cols.len();
    let mut i: usize = 0;
    while i < n
        invariant
            n == cols@.len(),
            i <= n,
            forall|j: int| 0 <= j < i ==> #[trigger] crate::catalog::str_views(cols@)[j] != name@,
        decreases n - i,
    {
        if str_eq(cols[i].as_str(), name) {
            proof {
                assert(crate::catalog::str_views(cols@)[i as int] == name@);
            }
            return true;
        }
        i += 1;
    }
    false
}

fn mk_compare_msg(l: &str, r: &str) -> (s: String)
    ensures
        s@ == "Type mismatch: cannot compare "@ + l@ + " with "@ + r@,
{
    let mut s = String::from_str("Type mismatch: cannot compare ");
    s.append(l);
    s.append(" with ");
    s.append(r);
    proof {
        assert(s@ =~= "Type mismatch: cannot compare "@ + l@ + " with "@ + r@);
    }
    s
}

fn mk_join_msg(l: &str, r: &str) -> (s: String)
    ensures
        s@ == "JOIN condition type mismatch: "@ + l@ + " vs "@ + r@,
{
    let mut s = String::from_str("JOIN condition type mismatch: ");
    s.append(l);
    s.append(" vs ");
    s.append(r);
    proof {
        assert(s@ =~= "JOIN condition type mismatch: "@ + l@ + " vs "@ + r@);
    }
    s
}

fn mk_arith_msg(t: &str) -> (s: String)
    ensures
        s@ == "Arithmetic operation requires numeric types, but got "@ + t@,
{
    let mut s = String::from_str("Arithmetic operation requires numeric types, but got ");
    s.append(t);
    s
}

} // verus!
