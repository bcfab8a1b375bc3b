//! Laws the analyses obey, stated and proved against the specifications
//! the executable functions are verified to meet.

use vstd::prelude::*;

verus! {

use crate::ast::Expr;
use crate::ast::Ident;
use crate::ast::Query;
use crate::ast::TableAlias;
use crate::ast::TableFactor;
use crate::catalog::Catalog;
use crate::catalog::QNameModel;
use crate::diag::DiagModel;
use crate::diag::DiagnosticKind;
use crate::resolver::RState;
use crate::resolver::spec_found_in;
use crate::resolver::spec_insert_rows_diags;
use crate::resolver::spec_rel_contains;
use crate::resolver::spec_resolve_column;
use crate::resolver::spec_resolve_ctes;
use crate::resolver::spec_resolve_expr_list;
use crate::resolver::spec_resolve_query;
use crate::resolver::spec_resolve_table_factor;
use crate::scope::CteEntryModel;
use crate::scope::ScopeEntryModel;
use crate::scope::TableRefModel;
use crate::scope::scope_name_pred;
use crate::scope::spec_scope_upsert;
use crate::seqx::find_idx;
use crate::seqx::lemma_find_idx;
use crate::seqx::lemma_find_idx_push;
use crate::seqx::lemma_find_idx_update;

/// The relation a name denotes in a scope, if any.
pub open spec fn spec_scope_lookup(tables: Seq<ScopeEntryModel>, n: Seq<char>) -> Option<
    TableRefModel,
> {
    let i = find_idx(tables, scope_name_pred(n));
    if i == -1 {
        Option::None
    } else {
        Option::Some(tables[i].re)
    }
}

/// Registering a relation under one name leaves every other name
/// denoting exactly what it did before.
pub proof fn lemma_scope_upsert_frame(
    tables: Seq<ScopeEntryModel>,
    name: Seq<char>,
    re: TableRefModel,
    n: Seq<char>,
)
    requires
        n != name,
    ensures
        spec_scope_lookup(spec_scope_upsert(tables, name, re), n) == spec_scope_lookup(tables, n),
{
    let entry = ScopeEntryModel { name, re };
    let i = find_idx(tables, scope_name_pred(name));
    lemma_find_idx(tables, scope_name_pred(name));
    lemma_find_idx(tables, scope_name_pred(n));
    if i == -1 {
        lemma_find_idx_push(tables, scope_name_pred(n), entry);
    } else {
        lemma_find_idx_update(tables, scope_name_pred(n), i, entry);
        lemma_find_idx(tables.update(i, entry), scope_name_pred(n));
    }
}

/// Scope isolation for derived tables: after a non-LATERAL derived table
/// in FROM resolves, no relation that was visible only inside the
/// subquery is resolvable from the enclosing scope — every name other
/// than the derived table's own alias denotes exactly what it did before.
pub proof fn lemma_derived_scope_isolation(
    c: Catalog,
    st: RState,
    subquery: Box<Query>,
    alias: Option<TableAlias>,
    n: Seq<char>,
)
    requires
        match alias {
            Option::Some(a) => n != a.name.value@,
            Option::None => true,
        },
    ensures
        ({
            let tf = TableFactor::Derived { lateral: false, subquery, alias };
            spec_scope_lookup(spec_resolve_table_factor(c, st, tf).0, n) == spec_scope_lookup(
                st.tables,
                n,
            )
        }),
{
    match alias {
        Option::Some(a) => {
            let tf = TableFactor::Derived { lateral: false, subquery, alias };
            let (t2, d) = spec_resolve_table_factor(c, st, tf);
            let columns: Seq<Seq<char>> = if a.columns@.len() > 0 {
                Seq::new(a.columns@.len(), |i: int| a.columns@[i].value@)
            } else {
                crate::resolver::spec_infer_cte_columns(subquery.body)
            };
            let re = TableRefModel {
                table: QNameModel { schema: Option::None, name: a.name.value@ },
                view_columns: Option::None,
                derived_columns: Option::Some(columns),
            };
            assert(t2 == spec_scope_upsert(st.tables, a.name.value@, re));
            lemma_scope_upsert_frame(st.tables, a.name.value@, re, n);
        }
        Option::None => {}
    }
}

/// Scope isolation for CTE bodies: the CTEs a query's WITH clause
/// registers are visible to that query and its descendants only — after
/// the query resolves, the CTEs in effect are exactly those of the
/// surrounding context; and registering the WITH clause's CTEs never
/// touches the relation scope.
pub proof fn lemma_cte_isolation(c: Catalog, st: RState, q: Query)
    ensures
        spec_resolve_query(c, st, q).0.ctes == st.ctes,
        spec_resolve_query(c, st, q).0.aliases == st.aliases,
{
}

/// A relation matching the column somewhere in scope puts at least one
/// name in the ambiguity scan's result.
proof fn lemma_found_in_one(
    c: Catalog,
    ctes: Seq<CteEntryModel>,
    tables: Seq<ScopeEntryModel>,
    col: Seq<char>,
    r: int,
)
    requires
        0 <= r < tables.len(),
        spec_rel_contains(c, ctes, tables[r].re, col),
    ensures
        spec_found_in(c, ctes, tables, col).len() >= 1,
    decreases tables.len(),
{
    if r > 0 {
        assert(tables.drop_first()[r - 1] == tables[r]);
        lemma_found_in_one(c, ctes, tables.drop_first(), col, r - 1);
    }
}

/// Two relations matching the column put at least two names in the
/// ambiguity scan's result.
proof fn lemma_found_in_two(
    c: Catalog,
    ctes: Seq<CteEntryModel>,
    tables: Seq<ScopeEntryModel>,
    col: Seq<char>,
    r1: int,
    r2: int,
)
    requires
        0 <= r1 < r2 < tables.len(),
        spec_rel_contains(c, ctes, tables[r1].re, col),
        spec_rel_contains(c, ctes, tables[r2].re, col),
    ensures
        spec_found_in(c, ctes, tables, col).len() >= 2,
    decreases tables.len(),
{
    if r1 == 0 {
        assert(tables.drop_first()[r2 - 1] == tables[r2]);
        lemma_found_in_one(c, ctes, tables.drop_first(), col, r2 - 1);
    } else {
        assert(tables.drop_first()[r1 - 1] == tables[r1]);
        assert(tables.drop_first()[r2 - 1] == tables[r2]);
        lemma_found_in_two(c, ctes, tables.drop_first(), col, r1 - 1, r2 - 1);
    }
}

/// Ambiguity symmetry, first half: when two relations in scope both
/// contain a column, an unqualified reference to it yields exactly one
/// diagnostic, and that diagnostic is an ambiguous-column error.
pub proof fn lemma_ambiguous_reference_reported(
    c: Catalog,
    st: RState,
    col: Ident,
    r1: int,
    r2: int,
)
    requires
        0 <= r1 < r2 < st.tables.len(),
        spec_rel_contains(c, st.ctes, st.tables[r1].re, col.value@),
        spec_rel_contains(c, st.ctes, st.tables[r2].re, col.value@),
    ensures
        spec_resolve_column(c, st, Option::None, col).len() == 1,
        spec_resolve_column(c, st, Option::None, col)[0].kind == DiagnosticKind::AmbiguousColumn,
{
    lemma_found_in_two(c, st.ctes, st.tables, col.value@, r1, r2);
}

/// Ambiguity symmetry, second half: qualifying the same column with the
/// alias of either containing relation yields no diagnostic at all.
pub proof fn lemma_qualified_reference_resolves(c: Catalog, st: RState, tid: Ident, col: Ident, r: int)
    requires
        0 <= r < st.tables.len(),
        tid.value@ == st.tables[r].name,
        find_idx(st.tables, scope_name_pred(tid.value@)) == r,
        spec_rel_contains(c, st.ctes, st.tables[r].re, col.value@),
    ensures
        spec_resolve_column(c, st, Option::Some(tid), col) == Seq::<DiagModel>::empty(),
{
}

/// The number of INSERT VALUES rows whose length differs from the
/// effective column count.
pub open spec fn count_mismatched_rows(rows: Seq<Vec<Expr>>, expected: int) -> int
    decreases rows,
{
    if rows.len() == 0 {
        0
    } else {
        (if rows[0]@.len() != expected {
            1int
        } else {
            0int
        }) + count_mismatched_rows(rows.drop_first(), expected)
    }
}

/// A list of literal expressions resolves without diagnostics.
proof fn lemma_literals_resolve_clean(c: Catalog, st: RState, es: Seq<Expr>)
    requires
        forall|k: int| 0 <= k < es.len() ==> (#[trigger] es[k]) is Literal,
    ensures
        spec_resolve_expr_list(c, st, es) == Seq::<DiagModel>::empty(),
    decreases es,
{
    if es.len() > 0 {
        assert(es[0] is Literal);
        assert forall|k: int|
            0 <= k < es.drop_first().len() implies (#[trigger] es.drop_first()[k]) is Literal by {
            assert(es.drop_first()[k] == es[k + 1]);
        }
        lemma_literals_resolve_clean(c, st, es.drop_first());
        assert(crate::resolver::spec_resolve_expr(c, st, es[0]) =~= Seq::<DiagModel>::empty());
        assert(spec_resolve_expr_list(c, st, es) =~= Seq::<DiagModel>::empty());
    }
}

/// INSERT arity: for VALUES rows of literal values, the resolver yields
/// one count-mismatch diagnostic per row whose length differs from the
/// effective column count — the column list length, or the table's column
/// count when no list is given — and nothing else; in particular it
/// yields no diagnostic exactly when every row has the effective length.
pub proof fn lemma_insert_arity(
    c: Catalog,
    st: RState,
    expected: int,
    has_cols: bool,
    q: QNameModel,
    rows: Seq<Vec<Expr>>,
)
    requires
        forall|r: int, k: int|
            0 <= r < rows.len() && 0 <= k < rows[r]@.len() ==> (#[trigger] rows[r]@[k]) is Literal,
    ensures
        spec_insert_rows_diags(c, st, expected, has_cols, q, rows).len() == count_mismatched_rows(
            rows,
            expected,
        ),
        forall|i: int|
            0 <= i < spec_insert_rows_diags(c, st, expected, has_cols, q, rows).len() ==> (
            #[trigger] spec_insert_rows_diags(c, st, expected, has_cols, q, rows)[i]).kind
                == DiagnosticKind::ColumnCountMismatch,
        (spec_insert_rows_diags(c, st, expected, has_cols, q, rows).len() == 0 <==> forall|r: int|
            0 <= r < rows.len() ==> (#[trigger] rows[r])@.len() == expected),
    decreases rows,
{
    if rows.len() > 0 {
        assert forall|k: int| 0 <= k < rows[0]@.len() implies (#[trigger] rows[0]@[k])
            is Literal by {
            assert(rows[0] == rows[0]);
        }
        lemma_literals_resolve_clean(c, st, rows[0]@);
        assert forall|r: int, k: int|
            0 <= r < rows.drop_first().len() && 0 <= k < rows.drop_first()[r]@.len() implies (
        #[trigger] rows.drop_first()[r]@[k]) is Literal by {
            assert(rows.drop_first()[r] == rows[r + 1]);
        }
        lemma_insert_arity(c, st, expected, has_cols, q, rows.drop_first());
        assert forall|r: int| 0 <= r < rows.len() && (spec_insert_rows_diags(
            c,
            st,
            expected,
            has_cols,
            q,
            rows,
        ).len() == 0) implies (#[trigger] rows[r])@.len() == expected by {
            if r > 0 {
                assert(rows.drop_first()[r - 1] == rows[r]);
            }
        }
    }
}

} // verus!
