//! The schema builder: turns data-definition statements into a catalog,
//! tolerating unsupported syntax.
//!
//! CREATE TABLE, CREATE VIEW, CREATE TYPE ... AS ENUM and a subset of
//! ALTER TABLE are processed; anything else is ignored.  Only
//! statement-level semantic problems become diagnostics: an ALTER TABLE
//! naming an unknown table records a warning and is skipped.

use vstd::prelude::*;

verus! {

use crate::ast::AlterTable;
use crate::ast::AlterTableOperation;
use crate::ast::ColumnOption;
use crate::ast::ColumnOptionSpec;
use crate::ast::ColumnSpec;
use crate::ast::CreateTable;
use crate::ast::CreateType;
use crate::ast::CreateView;
use crate::ast::DefaultExpr;
use crate::ast::Ident;
use crate::ast::SelectItem;
use crate::ast::SetExpr;
use crate::ast::Statement;
use crate::ast::TableConstraintSpec;
use crate::ast::TableFactor;
use crate::ast::TableWithJoins;
use crate::ast::TypeRepresentation;
use crate::catalog::Catalog;
use crate::catalog::CkModel;
use crate::catalog::ColModel;
use crate::catalog::ColumnDef;
use crate::catalog::CheckConstraintDef;
use crate::catalog::DVModel;
use crate::catalog::DefaultValue;
use crate::catalog::EnumModel;
use crate::catalog::EnumTypeDef;
use crate::catalog::FkModel;
use crate::catalog::ForeignKeyDef;
use crate::catalog::PkModel;
use crate::catalog::PrimaryKeyDef;
use crate::catalog::QNameModel;
use crate::catalog::QualifiedName;
use crate::catalog::TableDef;
use crate::catalog::TableModel;
use crate::catalog::UniqueConstraintDef;
use crate::catalog::UqModel;
use crate::catalog::ViewDef;
use crate::catalog::ViewModel;
use crate::catalog::col_m_exact_pred;
use crate::catalog::col_models;
use crate::catalog::lemma_mark_pk_models;
use crate::catalog::opt_str_view;
use crate::catalog::spec_add_table_rel;
use crate::catalog::spec_add_view_rel;
use crate::catalog::spec_get_table;
use crate::catalog::spec_get_view;
use crate::catalog::spec_mark_pk_m;
use crate::catalog::spec_qname_render;
use crate::catalog::spec_schema_idx;
use crate::catalog::spec_schema_of;
use crate::catalog::spec_upsert_col_m;
use crate::catalog::spec_upsert_enum;
use crate::catalog::spec_upsert_table_m;
use crate::catalog::str_views;
use crate::catalog::table_m_name_pred;
use crate::catalog::table_models;
use crate::diag::DiagModel;
use crate::diag::Diagnostic;
use crate::diag::DiagnosticKind;
use crate::diag::Severity;
use crate::diag::models;
use crate::dialect::SqlDialect;
use crate::resolver::spec_idents_qname;
use crate::resolver::spec_object_qname;
use crate::resolver::idents_to_qualified;
use crate::resolver::object_name_to_qualified;
use crate::scope::clone_strings;
use crate::seqx::find_idx;
use crate::seqx::lemma_find_idx_at;
use crate::strutil::lower_codes;
use crate::strutil::spec_contains_codes;
use crate::strutil::str_eq;

/// The default-value descriptor an expression yields: the NULL literal
/// maps to a null default; other literals keep their text; a function
/// call whose lowered name mentions `now` or `current_timestamp` is the
/// current timestamp, one mentioning `nextval` is a sequence value, and
/// any other call or expression keeps its rendering.
pub open spec fn spec_default_from(de: DefaultExpr) -> DVModel {
    match de {
        DefaultExpr::Null => DVModel::Null,
        DefaultExpr::Value(text) => DVModel::Literal(text@),
        DefaultExpr::FunctionCall { name, display } => {
            let low = lower_codes(name@);
            if spec_contains_codes(low, lower_codes("now"@)) || spec_contains_codes(
                low,
                lower_codes("current_timestamp"@),
            ) {
                DVModel::CurrentTimestamp
            } else if spec_contains_codes(low, lower_codes("nextval"@)) {
                DVModel::NextVal(display@)
            } else {
                DVModel::Expression(display@)
            }
        }
        DefaultExpr::Other(text) => DVModel::Expression(text@),
    }
}

/// Convert a default expression to a default-value descriptor.
pub fn expr_to_default(de: &DefaultExpr) -> (r: DefaultValue)
    ensures
        r@ == spec_default_from(*de),
{
    match de {
        DefaultExpr::Null => DefaultValue::Null,
        DefaultExpr::Value(text) => DefaultValue::Literal(text.clone()),
        DefaultExpr::FunctionCall { name, display } => {
            let low = crate::strutil::lower_codes_of(name.as_str());
            let now_pat = crate::strutil::lower_codes_of("now");
            let cts_pat = crate::strutil::lower_codes_of("current_timestamp");
            let nv_pat = crate::strutil::lower_codes_of("nextval");
            if crate::strutil::contains_codes(&low, &now_pat) || crate::strutil::contains_codes(
                &low,
                &cts_pat,
            ) {
                DefaultValue::CurrentTimestamp
            } else if crate::strutil::contains_codes(&low, &nv_pat) {
                DefaultValue::NextVal(display.clone())
            } else {
                DefaultValue::Expression(display.clone())
            }
        }
        DefaultExpr::Other(text) => DefaultValue::Expression(text.clone()),
    }
}

/// A fresh column model from a column description: nullable, no default,
/// no key, no identity.
pub open spec fn spec_fresh_col(cs: ColumnSpec) -> ColModel {
    ColModel {
        name: cs.name.value@,
        data_type: cs.data_type,
        nullable: true,
        default: Option::None,
        is_primary_key: false,
        identity: Option::None,
    }
}

/// One column option applied to a column model, possibly appending a
/// check constraint.
pub open spec fn spec_apply_column_option(
    col: ColModel,
    checks: Seq<CkModel>,
    opt: ColumnOptionSpec,
) -> (ColModel, Seq<CkModel>) {
    match opt.option {
        ColumnOption::Null => ((ColModel { nullable: true, ..col }), checks),
        ColumnOption::NotNull => ((ColModel { nullable: false, ..col }), checks),
        ColumnOption::Default(de) => (
            (ColModel { default: Option::Some(spec_default_from(de)), ..col }),
            checks,
        ),
        ColumnOption::Unique { is_primary } => {
            if is_primary {
                ((ColModel { is_primary_key: true, nullable: false, ..col }), checks)
            } else {
                (col, checks)
            }
        }
        ColumnOption::Check(expr) => (
            col,
            checks.push(CkModel { name: opt_str_view(opt.name), expression: expr@ }),
        ),
        ColumnOption::Generated { kind, has_expr } => {
            if !has_expr {
                match kind {
                    Option::Some(k) => (
                        (ColModel { identity: Option::Some(k), nullable: false, ..col }),
                        checks,
                    ),
                    Option::None => (col, checks),
                }
            } else {
                (col, checks)
            }
        }
        ColumnOption::Other => (col, checks),
    }
}

/// All options of a column applied in order.
pub open spec fn spec_apply_options(
    col: ColModel,
    checks: Seq<CkModel>,
    opts: Seq<ColumnOptionSpec>,
) -> (ColModel, Seq<CkModel>)
    decreases opts,
{
    if opts.len() == 0 {
        (col, checks)
    } else {
        let (c1, k1) = spec_apply_column_option(col, checks, opts[0]);
        spec_apply_options(c1, k1, opts.drop_first())
    }
}

/// The column models and check constraints after processing the column
/// descriptions of a CREATE TABLE, in order.
pub open spec fn spec_add_columns(
    cols: Seq<ColModel>,
    checks: Seq<CkModel>,
    specs: Seq<ColumnSpec>,
) -> (Seq<ColModel>, Seq<CkModel>)
    decreases specs,
{
    if specs.len() == 0 {
        (cols, checks)
    } else {
        let (c, k) = spec_apply_options(spec_fresh_col(specs[0]), checks, specs[0].options@);
        spec_add_columns(spec_upsert_col_m(cols, c), k, specs.drop_first())
    }
}

/// One table-level constraint applied to a table model: a primary key
/// marks its columns NOT NULL; others append to their lists.
pub open spec fn spec_apply_constraint(tm: TableModel, tc: TableConstraintSpec) -> TableModel {
    match tc {
        TableConstraintSpec::PrimaryKey { name, columns } => {
            let pk = PkModel { name: opt_str_view(name), columns: str_views(columns@) };
            TableModel {
                columns: spec_mark_pk_m(tm.columns, str_views(columns@)),
                primary_key: Option::Some(pk),
                ..tm
            }
        }
        TableConstraintSpec::ForeignKey { name, columns, foreign_table, referred_columns } => {
            let fk = FkModel {
                name: opt_str_view(name),
                columns: str_views(columns@),
                references_table: spec_object_qname(foreign_table),
                references_columns: str_views(referred_columns@),
            };
            TableModel { foreign_keys: tm.foreign_keys.push(fk), ..tm }
        }
        TableConstraintSpec::Unique { name, columns } => {
            let uq = UqModel { name: opt_str_view(name), columns: str_views(columns@) };
            TableModel { unique_constraints: tm.unique_constraints.push(uq), ..tm }
        }
        TableConstraintSpec::Check { name, expression } => {
            let ck = CkModel { name: opt_str_view(name), expression: expression@ };
            TableModel { check_constraints: tm.check_constraints.push(ck), ..tm }
        }
        TableConstraintSpec::Other => tm,
    }
}

/// All table-level constraints applied in order.
pub open spec fn spec_apply_constraints(tm: TableModel, tcs: Seq<TableConstraintSpec>) -> TableModel
    decreases tcs,
{
    if tcs.len() == 0 {
        tm
    } else {
        spec_apply_constraints(spec_apply_constraint(tm, tcs[0]), tcs.drop_first())
    }
}

/// The table a CREATE TABLE statement defines.
pub open spec fn spec_table_from_create(ct: CreateTable) -> TableModel {
    let (cols, checks) = spec_add_columns(Seq::empty(), Seq::empty(), ct.columns@);
    let tm = TableModel {
        name: spec_object_qname(ct.name),
        columns: cols,
        primary_key: Option::None,
        foreign_keys: Seq::empty(),
        unique_constraints: Seq::empty(),
        check_constraints: checks,
    };
    spec_apply_constraints(tm, ct.constraints@)
}

/// The column names of a table, in declaration order.
pub open spec fn spec_table_col_names(t: TableDef) -> Seq<Seq<char>> {
    Seq::new(t.columns@.len(), |i: int| t.columns@[i].name@)
}

/// The columns a wildcard expands to for one FROM relation: the catalog
/// table's columns, else the view's exposed columns, else nothing.
pub open spec fn spec_expand_factor(c: Catalog, tf: TableFactor) -> Seq<Seq<char>> {
    match tf {
        TableFactor::Table { name, alias, has_args } => {
            let q = spec_object_qname(name);
            match spec_get_table(c, q) {
                Option::Some(t) => spec_table_col_names(t),
                Option::None => match spec_get_view(c, q) {
                    Option::Some(v) => str_views(v.columns@),
                    Option::None => Seq::empty(),
                },
            }
        }
        _ => Seq::empty(),
    }
}

/// The columns a bare wildcard contributes: the expansion of each FROM
/// relation in order.
pub open spec fn spec_expand_from(c: Catalog, twjs: Seq<TableWithJoins>) -> Seq<Seq<char>>
    decreases twjs,
{
    if twjs.len() == 0 {
        Seq::empty()
    } else {
        spec_expand_factor(c, twjs[0].relation) + spec_expand_from(c, twjs.drop_first())
    }
}

/// The view columns contributed by projection items, with `acc_len`
/// output columns already inferred: identifiers and aliases contribute
/// their names, wildcards expand against the catalog, and any other
/// expression takes the positional placeholder `?column?N` with N the
/// one-based output position.
pub open spec fn spec_view_cols_items(
    c: Catalog,
    from: Seq<TableWithJoins>,
    items: Seq<SelectItem>,
    acc_len: int,
) -> Seq<Seq<char>>
    decreases items,
{
    if items.len() == 0 {
        Seq::empty()
    } else {
        let head: Seq<Seq<char>> = match items[0] {
            SelectItem::Expr(e) => match e {
                crate::ast::Expr::Ident(id) => seq![id.value@],
                crate::ast::Expr::CompoundIdent(ids) => if ids@.len() > 0 {
                    seq![ids@.last().value@]
                } else {
                    Seq::empty()
                },
                _ => seq![
                    "?column?"@ + crate::strutil::spec_digits((acc_len + 1) as nat),
                ],
            },
            SelectItem::ExprWithAlias { expr, alias } => seq![alias.value@],
            SelectItem::Wildcard => spec_expand_from(c, from),
            SelectItem::QualifiedWildcard(ids) => {
                let q = spec_idents_qname(ids@);
                match spec_get_table(c, q) {
                    Option::Some(t) => spec_table_col_names(t),
                    Option::None => Seq::empty(),
                }
            }
        };
        head + spec_view_cols_items(c, from, items.drop_first(), acc_len + head.len())
    }
}

/// The column names a CREATE VIEW exposes: the explicit list when given,
/// else the inference over the defining SELECT's projection.
pub open spec fn spec_create_view_cols(c: Catalog, cv: CreateView) -> Seq<Seq<char>> {
    if cv.columns@.len() > 0 {
        Seq::new(cv.columns@.len(), |i: int| cv.columns@[i].value@)
    } else {
        match cv.query.body {
            SetExpr::Select(sel) => spec_view_cols_items(c, sel.from@, sel.projection@, 0),
            _ => Seq::empty(),
        }
    }
}

/// One ALTER TABLE operation applied to the tables of the resolved
/// schema, the target table looked up by its original name each time.
pub open spec fn spec_alter_op(
    tables: Seq<TableModel>,
    tname: Seq<char>,
    op: AlterTableOperation,
) -> Seq<TableModel> {
    let ti = find_idx(tables, table_m_name_pred(tname));
    match op {
        AlterTableOperation::AddColumn(cs) => {
            if ti == -1 {
                tables
            } else {
                let tm = tables[ti];
                let (col, checks) = spec_apply_options(
                    spec_fresh_col(cs),
                    tm.check_constraints,
                    cs.options@,
                );
                tables.update(
                    ti,
                    (TableModel {
                        columns: spec_upsert_col_m(tm.columns, col),
                        check_constraints: checks,
                        ..tm
                    }),
                )
            }
        }
        AlterTableOperation::DropColumn(id) => {
            if ti == -1 {
                tables
            } else {
                let tm = tables[ti];
                let ci = find_idx(tm.columns, col_m_exact_pred(id.value@));
                if ci == -1 {
                    tables
                } else {
                    tables.update(ti, (TableModel { columns: tm.columns.remove(ci), ..tm }))
                }
            }
        }
        AlterTableOperation::RenameColumn { old_name, new_name } => {
            if ti == -1 {
                tables
            } else {
                let tm = tables[ti];
                let ci = find_idx(tm.columns, col_m_exact_pred(old_name.value@));
                if ci == -1 {
                    tables
                } else {
                    let renamed = ColModel { name: new_name.value@, ..tm.columns[ci] };
                    tables.update(
                        ti,
                        (TableModel {
                            columns: spec_upsert_col_m(tm.columns.remove(ci), renamed),
                            ..tm
                        }),
                    )
                }
            }
        }
        AlterTableOperation::RenameTable(new_name) => {
            if ti == -1 {
                tables
            } else {
                let renamed = TableModel { name: spec_object_qname(new_name), ..tables[ti] };
                spec_upsert_table_m(tables.remove(ti), renamed)
            }
        }
        AlterTableOperation::AddConstraint(tc) => {
            if ti == -1 {
                tables
            } else {
                tables.update(ti, spec_apply_constraint(tables[ti], tc))
            }
        }
        AlterTableOperation::Other => tables,
    }
}

/// All ALTER TABLE operations applied in order.
pub open spec fn spec_alter_ops(
    tables: Seq<TableModel>,
    tname: Seq<char>,
    ops: Seq<AlterTableOperation>,
) -> Seq<TableModel>
    decreases ops,
{
    if ops.len() == 0 {
        tables
    } else {
        spec_alter_ops(spec_alter_op(tables, tname, ops[0]), tname, ops.drop_first())
    }
}

/// The warning recorded when ALTER TABLE names an unknown table.
pub open spec fn spec_alter_warning(q: QNameModel) -> DiagModel {
    DiagModel {
        kind: DiagnosticKind::TableNotFound,
        severity: Severity::Warning,
        message: "ALTER TABLE references table '"@ + spec_qname_render(q)
            + "' which was not found in schema"@,
        span: Option::None,
        help: Option::Some("Ensure the CREATE TABLE statement appears before ALTER TABLE"@),
        labels: Seq::empty(),
    }
}

/// Some diagnostic in the list has error severity.
pub open spec fn spec_any_error(ds: Seq<DiagModel>) -> bool {
    exists|i: int| 0 <= i < ds.len() && (#[trigger] ds[i]).severity == Severity::Error
}

fn clone_opt_string(o: &Option<String>) -> (r: Option<String>)
    ensures
        r == *o,
{
    match o {
        Some(s) => Some(s.clone()),
        None => None,
    }
}

/// Apply a column's options in order, appending any check constraints.
fn apply_options(col: ColumnDef, checks: &mut Vec<CheckConstraintDef>, opts: &Vec<ColumnOptionSpec>) -> (r: ColumnDef)
    ensures
        ({
            let (cm, km) = spec_apply_options(
                col@,
                crate::catalog::ck_models(old(checks)@),
                opts@,
            );
            r@ == cm && crate::catalog::ck_models(final(checks)@) == km
        }),
{
    let ghost checks0 = crate::catalog::ck_models(checks@);
    let n = opts.len();
    let mut cur = col;
    let mut i: usize = 0;
    proof {
        assert(opts@.skip(0) =~= opts@);
    }
    while i < n
        invariant
            n == opts@.len(),
            i <= n,
            spec_apply_options(cur@, crate::catalog::ck_models(checks@), opts@.skip(i as int))
                == spec_apply_options(col@, checks0, opts@),
        decreases n - i,
    {
        proof {
            assert(opts@.skip(i as int)[0] == opts@[i as int]);
            assert(opts@.skip(i as int).drop_first() =~= opts@.skip(i + 1));
        }
        let ghost pre_checks = crate::catalog::ck_models(checks@);
        let opt = &opts[i];
        match &opt.option {
            ColumnOption::Null => {
                cur.nullable = true;
            }
            ColumnOption::NotNull => {
                cur.nullable = false;
            }
            ColumnOption::Default(de) => {
                cur.default = Some(expr_to_default(de));
            }
            ColumnOption::Unique { is_primary } => {
                if *is_primary {
                    cur.is_primary_key = true;
                    cur.nullable = false;
                }
            }
            ColumnOption::Check(expr) => {
                let ck = CheckConstraintDef {
                    name: clone_opt_string(&opt.name),
                    expression: expr.clone(),
                };
                checks.push(ck);
                proof {
                    assert(crate::catalog::ck_models(checks@) =~= pre_checks.push(
                        CkModel { name: opt_str_view(opt.name), expression: expr@ },
                    ));
                }
            }
            ColumnOption::Generated { kind, has_expr } => {
                if !*has_expr {
                    match kind {
                        Some(k) => {
                            cur.identity = Some(*k);
                            cur.nullable = false;
                        }
                        None => {}
                    }
                }
            }
            ColumnOption::Other => {}
        }
        i += 1;
    }
    proof {
        assert(opts@.skip(n as int) =~= Seq::<ColumnOptionSpec>::empty());
    }
    cur
}

/// Insert a column: replace the column of exactly this name in place,
/// else append.
fn upsert_col(cols: &mut Vec<ColumnDef>, c: ColumnDef)
    ensures
        col_models(final(cols)@) == spec_upsert_col_m(col_models(old(cols)@), c@),
{
    let ghost p = col_m_exact_pred(c.name@);
    let n = cols.len();
    let mut i: usize = 0;
    while i < n
        invariant
            n == cols@.len(),
            *cols == *old(cols),
            i <= n,
            forall|j: int| 0 <= j < i ==> !p(col_models(cols@)[j]),
        decreases n - i,
    {
        if str_eq(cols[i].name.as_str(), c.name.as_str()) {
            proof {
                assert(p(col_models(cols@)[i as int]));
                lemma_find_idx_at(col_models(cols@), p, i as int);
            }
            let _ = cols.remove(i);
            cols.insert(i, c);
            proof {
                assert(col_models(final(cols)@) =~= col_models(old(cols)@).update(i as int, c@));
            }
            return ;
        }
        proof {
            assert(!p(col_models(cols@)[i as int]));
        }
        i += 1;
    }
    proof {
        lemma_find_idx_at(col_models(cols@), p, n as int);
    }
    cols.push(c);
    proof {
        assert(col_models(final(cols)@) =~= col_models(old(cols)@).push(c@));
    }
}

/// Apply one table-level constraint to a table.
fn apply_constraint(table: &mut TableDef, tc: &TableConstraintSpec)
    ensures
        final(table)@ == spec_apply_constraint(old(table)@, *tc),
{
    match tc {
        TableConstraintSpec::PrimaryKey { name, columns } => {
            let names = clone_strings(columns);
            table.mark_primary_key_columns(&names);
            proof {
                lemma_mark_pk_models(old(table).columns@, str_views(names@));
            }
            table.primary_key = Some(
                PrimaryKeyDef { name: clone_opt_string(name), columns: names },
            );
        }
        TableConstraintSpec::ForeignKey { name, columns, foreign_table, referred_columns } => {
            let fk = ForeignKeyDef {
                name: clone_opt_string(name),
                columns: clone_strings(columns),
                references_table: object_name_to_qualified(foreign_table),
                references_columns: clone_strings(referred_columns),
            };
            let ghost pre = crate::catalog::fk_models(table.foreign_keys@);
            let ghost fkm = fk@;
            table.foreign_keys.push(fk);
            proof {
                assert(crate::catalog::fk_models(table.foreign_keys@) =~= pre.push(fkm));
            }
        }
        TableConstraintSpec::Unique { name, columns } => {
            let uq = UniqueConstraintDef {
                name: clone_opt_string(name),
                columns: clone_strings(columns),
            };
            let ghost pre = crate::catalog::uq_models(table.unique_constraints@);
            let ghost uqm = uq@;
            table.unique_constraints.push(uq);
            proof {
                assert(crate::catalog::uq_models(table.unique_constraints@) =~= pre.push(uqm));
            }
        }
        TableConstraintSpec::Check { name, expression } => {
            let ck = CheckConstraintDef {
                name: clone_opt_string(name),
                expression: expression.clone(),
            };
            let ghost pre = crate::catalog::ck_models(table.check_constraints@);
            let ghost ckm = ck@;
            table.check_constraints.push(ck);
            proof {
                assert(crate::catalog::ck_models(table.check_constraints@) =~= pre.push(ckm));
            }
        }
        TableConstraintSpec::Other => {}
    }
}

/// Build the table a CREATE TABLE statement defines.
pub fn table_from_create(ct: &CreateTable) -> (t: TableDef)
    ensures
        t@ == spec_table_from_create(*ct),
{
    let mut cols: Vec<ColumnDef> = Vec::new();
    let mut checks: Vec<CheckConstraintDef> = Vec::new();
    let n = ct.columns.len();
    let mut i: usize = 0;
    proof {
        assert(ct.columns@.skip(0) =~= ct.columns@);
        assert(col_models(cols@) =~= Seq::<ColModel>::empty());
        assert(crate::catalog::ck_models(checks@) =~= Seq::<CkModel>::empty());
    }
    while i < n
        invariant
            n == ct.columns@.len(),
            i <= n,
            spec_add_columns(
                col_models(cols@),
                crate::catalog::ck_models(checks@),
                ct.columns@.skip(i as int),
            ) == spec_add_columns(Seq::empty(), Seq::empty(), ct.columns@),
        decreases n - i,
    {
        proof {
            assert(ct.columns@.skip(i as int)[0] == ct.columns@[i as int]);
            assert(ct.columns@.skip(i as int).drop_first() =~= ct.columns@.skip(i + 1));
        }
        let cs = &ct.columns[i];
        let col0 = ColumnDef::new(cs.name.value.clone(), cs.data_type.clone());
        proof {
            assert(col0@ == spec_fresh_col(ct.columns@[i as int]));
        }
        let col = apply_options(col0, &mut checks, &cs.options);
        upsert_col(&mut cols, col);
        i += 1;
    }
    proof {
        assert(ct.columns@.skip(n as int) =~= Seq::<ColumnSpec>::empty());
    }
    let ghost cm = col_models(cols@);
    let ghost km = crate::catalog::ck_models(checks@);
    let mut table = TableDef::new(object_name_to_qualified(&ct.name));
    table.columns = cols;
    table.check_constraints = checks;
    let ghost tm1 = table@;
    proof {
        let (sc, sk) = spec_add_columns(Seq::empty(), Seq::empty(), ct.columns@);
        assert(cm == sc && km == sk);
        assert(crate::catalog::fk_models(table.foreign_keys@) =~= Seq::<FkModel>::empty());
        assert(crate::catalog::uq_models(table.unique_constraints@) =~= Seq::<UqModel>::empty());
        assert(tm1 == (TableModel {
            name: spec_object_qname(ct.name),
            columns: sc,
            primary_key: Option::None,
            foreign_keys: Seq::empty(),
            unique_constraints: Seq::empty(),
            check_constraints: sk,
        }));
    }
    let m = ct.constraints.len();
    let mut k: usize = 0;
    proof {
        assert(ct.constraints@.skip(0) =~= ct.constraints@);
    }
    while k < m
        invariant
            m == ct.constraints@.len(),
            k <= m,
            spec_apply_constraints(table@, ct.constraints@.skip(k as int))
                == spec_apply_constraints(tm1, ct.constraints@),
        decreases m - k,
    {
        proof {
            assert(ct.constraints@.skip(k as int)[0] == ct.constraints@[k as int]);
            assert(ct.constraints@.skip(k as int).drop_first() =~= ct.constraints@.skip(k + 1));
        }
        apply_constraint(&mut table, &ct.constraints[k]);
        k += 1;
    }
    proof {
        assert(ct.constraints@.skip(m as int) =~= Seq::<TableConstraintSpec>::empty());
    }
    table
}

/// Append the wildcard expansion of one FROM relation: the catalog
/// table's columns, else the view's exposed columns.
fn expand_wildcard_columns(c: &Catalog, factor: &TableFactor, out: &mut Vec<String>)
    ensures
        str_views(final(out)@) == str_views(old(out)@) + spec_expand_factor(*c, *factor),
{
    match factor {
        TableFactor::Table { name, alias, has_args } => {
            let table_name = object_name_to_qualified(name);
            match c.get_table(&table_name) {
                Some(t) => {
                    let ghost pre = str_views(out@);
                    let n = t.columns.len();
                    let mut i: usize = 0;
                    while i < n
                        invariant
                            n == t.columns@.len(),
                            i <= n,
                            str_views(out@) =~= pre + spec_table_col_names(*t).take(i as int),
                        decreases n - i,
                    {
                        let ghost prev = str_views(out@);
                        out.push(t.columns[i].name.clone());
                        proof {
                            assert(str_views(out@) =~= prev.push(t.columns@[i as int].name@));
                            assert(prev.push(t.columns@[i as int].name@) =~= pre
                                + spec_table_col_names(*t).take(i + 1));
                        }
                        i += 1;
                    }
                    proof {
                        assert(spec_table_col_names(*t).take(n as int) =~= spec_table_col_names(
                            *t,
                        ));
                        assert(str_views(out@) =~= str_views(old(out)@) + spec_expand_factor(
                            *c,
                            *factor,
                        ));
                    }
                }
                None => {
                    match c.get_view(&table_name) {
                        Some(v) => {
                            let ghost pre = str_views(out@);
                            let n = v.columns.len();
                            let mut i: usize = 0;
                            while i < n
                                invariant
                                    n == v.columns@.len(),
                                    i <= n,
                                    str_views(out@) =~= pre + str_views(v.columns@).take(i as int),
                                decreases n - i,
                            {
                                let ghost prev = str_views(out@);
                                out.push(v.columns[i].clone());
                                proof {
                                    assert(str_views(out@) =~= prev.push(v.columns@[i as int]@));
                                    assert(prev.push(v.columns@[i as int]@) =~= pre + str_views(
                                        v.columns@,
                                    ).take(i + 1));
                                }
                                i += 1;
                            }
                            proof {
                                assert(str_views(v.columns@).take(n as int) =~= str_views(
                                    v.columns@,
                                ));
                                assert(str_views(out@) =~= str_views(old(out)@)
                                    + spec_expand_factor(*c, *factor));
                            }
                        }
                        None => {
                            proof {
                                assert(str_views(out@) =~= str_views(old(out)@)
                                    + spec_expand_factor(*c, *factor));
                            }
                        }
                    }
                }
            }
        }
        _ => {
            proof {
                assert(str_views(out@) =~= str_views(old(out)@) + spec_expand_factor(*c, *factor));
            }
        }
    }
}

/// Infer the column names a SELECT body exposes for a view definition,
/// expanding wildcards against the catalog.
fn infer_view_columns(c: &Catalog, se: &SetExpr) -> (r: Vec<String>)
    ensures
        str_views(r@) == match *se {
            SetExpr::Select(sel) => spec_view_cols_items(*c, sel.from@, sel.projection@, 0),
            _ => Seq::<Seq<char>>::empty(),
        },
{
    match se {
        SetExpr::Select(sel) => {
            let items = &sel.projection;
            let n = items.len();
            let mut r: Vec<String> = Vec::new();
            let mut i: usize = 0;
            proof {
                assert(items@.skip(0) =~= items@);
                assert(str_views(r@) =~= Seq::<Seq<char>>::empty());
            }
            while i < n
                invariant
                    n == items@.len(),
                    i <= n,
                    str_views(r@) + spec_view_cols_items(
                        *c,
                        sel.from@,
                        items@.skip(i as int),
                        r@.len() as int,
                    ) == spec_view_cols_items(*c, sel.from@, items@, 0),
                decreases n - i,
            {
                proof {
                    assert(items@.skip(i as int)[0] == items@[i as int]);
                    assert(items@.skip(i as int).drop_first() =~= items@.skip(i + 1));
                }
                let ghost pre = str_views(r@);
                match &items[i] {
                    SelectItem::Expr(e) => {
                        match e {
                            crate::ast::Expr::Ident(id) => {
                                r.push(id.value.clone());
                            }
                            crate::ast::Expr::CompoundIdent(ids) => {
                                if ids.len() > 0 {
                                    r.push(ids[ids.len() - 1].value.clone());
                                    proof {
                                        assert(ids@[ids@.len() - 1] == ids@.last());
                                    }
                                }
                            }
                            _ => {
                                let ghost before = r@;
                                r.push(String::new());
                                let num = crate::strutil::u64_to_string(r.len() as u64);
                                let mut placeholder = String::from_str("?column?");
                                placeholder.append(num.as_str());
                                let last = r.len() - 1;
                                r[last] = placeholder;
                                proof {
                                    assert(r@ =~= before.push(r@[last as int]));
                                }
                            }
                        }
                    }
                    SelectItem::ExprWithAlias { expr, alias } => {
                        r.push(alias.value.clone());
                    }
                    SelectItem::Wildcard => {
                        let m = sel.from.len();
                        let mut k: usize = 0;
                        proof {
                            assert(sel.from@.skip(0) =~= sel.from@);
                        }
                        while k < m
                            invariant
                                m == sel.from@.len(),
                                k <= m,
                                str_views(r@) + spec_expand_from(*c, sel.from@.skip(k as int))
                                    =~= pre + spec_expand_from(*c, sel.from@),
                            decreases m - k,
                        {
                            proof {
                                assert(sel.from@.skip(k as int)[0] == sel.from@[k as int]);
                                assert(sel.from@.skip(k as int).drop_first() =~= sel.from@.skip(
                                    k + 1,
                                ));
                            }
                            expand_wildcard_columns(c, &sel.from[k].relation, &mut r);
                            k += 1;
                        }
                        proof {
                            assert(sel.from@.skip(m as int) =~= Seq::<TableWithJoins>::empty());
                            assert(str_views(r@) =~= pre + spec_expand_from(*c, sel.from@));
                        }
                    }
                    SelectItem::QualifiedWildcard(ids) => {
                        let table_name = idents_to_qualified(ids);
                        match c.get_table(&table_name) {
                            Some(t) => {
                                let tm = t.columns.len();
                                let mut k: usize = 0;
                                while k < tm
                                    invariant
                                        tm == t.columns@.len(),
                                        k <= tm,
                                        str_views(r@) =~= pre + spec_table_col_names(*t).take(
                                            k as int,
                                        ),
                                    decreases tm - k,
                                {
                                    let ghost prev2 = str_views(r@);
                                    r.push(t.columns[k].name.clone());
                                    proof {
                                        assert(str_views(r@) =~= prev2.push(
                                            t.columns@[k as int].name@,
                                        ));
                                        assert(prev2.push(t.columns@[k as int].name@) =~= pre
                                            + spec_table_col_names(*t).take(k + 1));
                                    }
                                    k += 1;
                                }
                                proof {
                                    assert(spec_table_col_names(*t).take(tm as int)
                                        =~= spec_table_col_names(*t));
                                }
                            }
                            None => {}
                        }
                    }
                }
                proof {
                    assert(str_views(r@) + spec_view_cols_items(
                        *c,
                        sel.from@,
                        items@.skip(i + 1),
                        r@.len() as int,
                    ) =~= spec_view_cols_items(*c, sel.from@, items@, 0));
                }
                i += 1;
            }
            proof {
                assert(items@.skip(n as int) =~= Seq::<SelectItem>::empty());
                assert(str_views(r@) + Seq::<Seq<char>>::empty() =~= str_views(r@));
            }
            r
        }
        _ => {
            let r: Vec<String> = Vec::new();
            proof {
                assert(str_views(r@) =~= Seq::<Seq<char>>::empty());
            }
            r
        }
    }
}

fn find_table_idx(tables: &Vec<TableDef>, name: &String) -> (r: Option<usize>)
    ensures
        ({
            let ti = find_idx(table_models(tables@), table_m_name_pred(name@));
            match r {
                Option::Some(i) => ti == i as int && (i as int) < tables@.len(),
                Option::None => ti == -1,
            }
        }),
{
    let ghost p = table_m_name_pred(name@);
    let n = tables.len();
    let mut i: usize = 0;
    while i < n
        invariant
            n == tables@.len(),
            i <= n,
            forall|j: int| 0 <= j < i ==> !p(table_models(tables@)[j]),
        decreases n - i,
    {
        if str_eq(tables[i].name.name.as_str(), name.as_str()) {
            proof {
                assert(p(table_models(tables@)[i as int]));
                lemma_find_idx_at(table_models(tables@), p, i as int);
            }
            return Some(i);
        }
        proof {
            assert(!p(table_models(tables@)[i as int]));
        }
        i += 1;
    }
    proof {
        lemma_find_idx_at(table_models(tables@), p, n as int);
    }
    None
}

/// Apply one ALTER TABLE operation to the tables of the resolved schema.
fn alter_apply_op(tables: &mut Vec<TableDef>, tname: &String, op: &AlterTableOperation)
    ensures
        table_models(final(tables)@) == spec_alter_op(table_models(old(tables)@), tname@, *op),
{
    let ti = match find_table_idx(tables, tname) {
        Some(ti) => ti,
        None => {
            return ;
        }
    };
    match op {
        AlterTableOperation::AddColumn(cs) => {
            let mut t = tables.remove(ti);
            let col0 = ColumnDef::new(cs.name.value.clone(), cs.data_type.clone());
            proof {
                assert(col0@ == spec_fresh_col(*cs));
            }
            let col = apply_options(col0, &mut t.check_constraints, &cs.options);
            upsert_col(&mut t.columns, col);
            tables.insert(ti, t);
            proof {
                assert(table_models(final(tables)@) =~= spec_alter_op(
                    table_models(old(tables)@),
                    tname@,
                    *op,
                ));
            }
        }
        AlterTableOperation::DropColumn(id) => {
            let mut t = tables.remove(ti);
            proof {
                crate::catalog::lemma_col_idx_models(t.columns@, id.value@);
            }
            let _ = t.remove_column_exact(id.value.as_str());
            tables.insert(ti, t);
            proof {
                let olds = table_models(old(tables)@);
                let tm = olds[ti as int];
                let ci = find_idx(tm.columns, col_m_exact_pred(id.value@));
                if ci == -1 {
                    assert(table_models(final(tables)@) =~= olds);
                } else {
                    crate::seqx::lemma_find_idx(tm.columns, col_m_exact_pred(id.value@));
                    crate::catalog::lemma_col_models_remove(
                        old(tables)@[ti as int].columns@,
                        ci,
                    );
                    assert(col_models(t.columns@) == tm.columns.remove(ci));
                    assert(table_models(final(tables)@) =~= olds.update(
                        ti as int,
                        (TableModel { columns: tm.columns.remove(ci), ..tm }),
                    ));
                }
            }
        }
        AlterTableOperation::RenameColumn { old_name, new_name } => {
            let mut t = tables.remove(ti);
            proof {
                crate::catalog::lemma_col_idx_models(t.columns@, old_name.value@);
            }
            match t.remove_column_exact(old_name.value.as_str()) {
                Some(c) => {
                    let mut c = c;
                    c.name = new_name.value.clone();
                    upsert_col(&mut t.columns, c);
                }
                None => {}
            }
            tables.insert(ti, t);
            proof {
                let olds = table_models(old(tables)@);
                let tm = olds[ti as int];
                let ci = find_idx(tm.columns, col_m_exact_pred(old_name.value@));
                if ci == -1 {
                    assert(table_models(final(tables)@) =~= olds);
                } else {
                    crate::seqx::lemma_find_idx(tm.columns, col_m_exact_pred(old_name.value@));
                    crate::catalog::lemma_col_models_remove(
                        old(tables)@[ti as int].columns@,
                        ci,
                    );
                    let renamed = ColModel { name: new_name.value@, ..tm.columns[ci] };
                    assert(table_models(final(tables)@) =~= olds.update(
                        ti as int,
                        (TableModel {
                            columns: spec_upsert_col_m(tm.columns.remove(ci), renamed),
                            ..tm
                        }),
                    ));
                }
            }
        }
        AlterTableOperation::RenameTable(new_name) => {
            let mut t = tables.remove(ti);
            t.name = object_name_to_qualified(new_name);
            let ghost removed = table_models(old(tables)@).remove(ti as int);
            let ghost tv = t;
            proof {
                assert(table_models(tables@) =~= removed);
            }
            crate::catalog::upsert_table(tables, t);
            proof {
                crate::catalog::lemma_upsert_table_models(old(tables)@.remove(ti as int), tv);
                assert(table_models(old(tables)@.remove(ti as int)) =~= removed);
                assert(table_models(final(tables)@) == spec_upsert_table_m(removed, tv@));
                assert(table_models(final(tables)@) =~= spec_alter_op(
                    table_models(old(tables)@),
                    tname@,
                    *op,
                ));
            }
        }
        AlterTableOperation::AddConstraint(tc) => {
            let mut t = tables.remove(ti);
            apply_constraint(&mut t, tc);
            tables.insert(ti, t);
            proof {
                assert(table_models(final(tables)@) =~= spec_alter_op(
                    table_models(old(tables)@),
                    tname@,
                    *op,
                ));
            }
        }
        AlterTableOperation::Other => {
            proof {
                assert(table_models(final(tables)@) =~= spec_alter_op(
                    table_models(old(tables)@),
                    tname@,
                    *op,
                ));
            }
        }
    }
}

/// The schema builder: accumulates a catalog and warning diagnostics
/// while processing data-definition statements.
pub struct SchemaBuilder {
    pub catalog: Catalog,
    pub diagnostics: Vec<Diagnostic>,
}

impl SchemaBuilder {
    /// A fresh builder over a PostgreSQL-style catalog with default
    /// schema `public`.
    pub fn new() -> (r: SchemaBuilder)
        ensures
            r.catalog.default_schema@ == "public"@,
            r.catalog.schemas@.len() == 1,
            r.catalog.schemas@[0].name@ == "public"@,
            r.catalog.schemas@[0].tables@ =~= Seq::<TableDef>::empty(),
            r.catalog.schemas@[0].views@ =~= Seq::<ViewDef>::empty(),
            r.catalog.enums@ =~= Seq::<EnumTypeDef>::empty(),
            r.diagnostics@.len() == 0,
    {
        SchemaBuilder { catalog: Catalog::new(), diagnostics: Vec::new() }
    }

    /// A fresh builder whose catalog takes the dialect's default schema
    /// name.
    pub fn with_dialect(dialect: SqlDialect) -> (r: SchemaBuilder)
        ensures
            dialect == SqlDialect::PostgreSQL ==> r.catalog.default_schema@ == "public"@,
            dialect == SqlDialect::MySQL ==> r.catalog.default_schema@ == ""@,
            r.catalog.schemas@.len() == 1,
            r.catalog.schemas@[0].name == r.catalog.default_schema,
            r.catalog.schemas@[0].tables@ =~= Seq::<TableDef>::empty(),
            r.catalog.schemas@[0].views@ =~= Seq::<ViewDef>::empty(),
            r.catalog.enums@ =~= Seq::<EnumTypeDef>::empty(),
            r.diagnostics@.len() == 0,
    {
        let name = String::from_str(dialect.default_schema());
        SchemaBuilder { catalog: Catalog::with_default_schema(name), diagnostics: Vec::new() }
    }

    /// Process one statement: CREATE TABLE, CREATE VIEW, CREATE TYPE and
    /// ALTER TABLE shape the catalog; anything else is ignored.
    pub fn process_statement(&mut self, stmt: &Statement)
        ensures
            match *stmt {
                Statement::CreateTable(ct) => spec_create_table_post(
                    old(self).catalog,
                    final(self).catalog,
                    ct,
                ) && final(self).diagnostics == old(self).diagnostics,
                Statement::CreateView(cv) => spec_create_view_post(
                    old(self).catalog,
                    final(self).catalog,
                    cv,
                ) && final(self).diagnostics == old(self).diagnostics,
                Statement::CreateType(ct) => spec_create_type_post(
                    old(self).catalog,
                    final(self).catalog,
                    ct,
                ) && final(self).diagnostics == old(self).diagnostics,
                Statement::AlterTable(at) => spec_process_alter_post(*old(self), *final(self), at),
                _ => *final(self) == *old(self),
            },
    {
        match stmt {
            Statement::CreateTable(ct) => {
                self.process_create_table(ct);
            }
            Statement::CreateView(cv) => {
                self.process_create_view(cv);
            }
            Statement::CreateType(ct) => {
                self.process_create_type(ct);
            }
            Statement::AlterTable(at) => {
                self.process_alter_table(at);
            }
            _ => {}
        }
    }

    /// Process a CREATE TABLE statement.
    pub fn process_create_table(&mut self, ct: &CreateTable)
        ensures
            spec_create_table_post(old(self).catalog, final(self).catalog, *ct),
            final(self).diagnostics == old(self).diagnostics,
    {
        let table = table_from_create(ct);
        let ghost witness = table;
        self.catalog.add_table(table);
        proof {
            assert(witness@ == spec_table_from_create(*ct) && spec_add_table_rel(
                old(self).catalog,
                final(self).catalog,
                witness,
            ));
        }
    }

    /// Process a CREATE VIEW statement.
    pub fn process_create_view(&mut self, cv: &CreateView)
        ensures
            spec_create_view_post(old(self).catalog, final(self).catalog, *cv),
            final(self).diagnostics == old(self).diagnostics,
    {
        let columns: Vec<String> = if cv.columns.len() > 0 {
            crate::resolver::ident_values(&cv.columns)
        } else {
            infer_view_columns(&self.catalog, &cv.query.body)
        };
        let view = ViewDef {
            name: object_name_to_qualified(&cv.name),
            columns,
            materialized: cv.materialized,
        };
        let ghost witness = view;
        self.catalog.add_view(view);
        proof {
            assert(witness@ == (ViewModel {
                name: spec_object_qname(cv.name),
                columns: spec_create_view_cols(old(self).catalog, *cv),
                materialized: cv.materialized,
            }) && spec_add_view_rel(old(self).catalog, final(self).catalog, witness));
        }
    }

    /// Process a CREATE TYPE statement: only enum representations are
    /// recorded.
    pub fn process_create_type(&mut self, ct: &CreateType)
        ensures
            spec_create_type_post(old(self).catalog, final(self).catalog, *ct),
            final(self).diagnostics == old(self).diagnostics,
    {
        match &ct.representation {
            TypeRepresentation::Enum(labels) => {
                let qualified = object_name_to_qualified(&ct.name);
                let enum_def = EnumTypeDef { name: qualified.name, values: clone_strings(labels) };
                let ghost witness = enum_def;
                self.catalog.add_enum(enum_def);
                proof {
                    assert(witness@ == (EnumModel {
                        name: spec_object_qname(ct.name).name,
                        values: str_views(labels@),
                    }) && final(self).catalog.enums@ == spec_upsert_enum(
                        old(self).catalog.enums@,
                        witness,
                    ));
                }
            }
            TypeRepresentation::Other => {}
        }
    }

    /// Process an ALTER TABLE statement: on an unknown table, record a
    /// warning and skip; else apply the supported operations in order.
    pub fn process_alter_table(&mut self, at: &AlterTable)
        ensures
            spec_process_alter_post(*old(self), *final(self), *at),
    {
        let table_name = object_name_to_qualified(&at.name);
        if !self.catalog.table_exists(&table_name) {
            let rendered = table_name.render();
            let msg = crate::resolver::concat3(
                "ALTER TABLE references table '",
                rendered.as_str(),
                "' which was not found in schema",
            );
            let d = Diagnostic::warning(DiagnosticKind::TableNotFound, msg).with_help(
                String::from_str("Ensure the CREATE TABLE statement appears before ALTER TABLE"),
            );
            proof {
                assert(d@ == spec_alter_warning(spec_object_qname(at.name)));
            }
            self.diagnostics.push(d);
            proof {
                assert(models(self.diagnostics@) =~= models(old(self).diagnostics@).push(
                    spec_alter_warning(spec_object_qname(at.name)),
                ));
            }
            return ;
        }
        let si = {
            let key: &String = match &table_name.schema {
                Some(s) => s,
                None => &self.catalog.default_schema,
            };
            match self.catalog.find_schema(key) {
                Some(si) => si,
                None => {
                    proof {
                        assert(false);
                    }
                    0
                }
            }
        };
        let mut schema = self.catalog.schemas.remove(si);
        let ghost tables0 = table_models(schema.tables@);
        let n = at.operations.len();
        let mut i: usize = 0;
        proof {
            assert(at.operations@.skip(0) =~= at.operations@);
        }
        while i < n
            invariant
                n == at.operations@.len(),
                i <= n,
                schema.name == old(self).catalog.schemas@[si as int].name,
                schema.views == old(self).catalog.schemas@[si as int].views,
                spec_alter_ops(
                    table_models(schema.tables@),
                    table_name.name@,
                    at.operations@.skip(i as int),
                ) == spec_alter_ops(tables0, table_name.name@, at.operations@),
            decreases n - i,
        {
            proof {
                assert(at.operations@.skip(i as int)[0] == at.operations@[i as int]);
                assert(at.operations@.skip(i as int).drop_first() =~= at.operations@.skip(i + 1));
            }
            alter_apply_op(&mut schema.tables, &table_name.name, &at.operations[i]);
            i += 1;
        }
        proof {
            assert(at.operations@.skip(n as int) =~= Seq::<AlterTableOperation>::empty());
        }
        self.catalog.schemas.insert(si, schema);
        proof {
            assert(forall|j: int|
                0 <= j < old(self).catalog.schemas@.len() && j != si
                    ==> self.catalog.schemas@[j] == old(self).catalog.schemas@[j]);
        }
    }

    /// Whether any collected diagnostic has error severity.
    pub fn has_errors(&self) -> (r: bool)
        ensures
            r == spec_any_error(models(self.diagnostics@)),
    {
        let n = self.diagnostics.len();
        let mut i: usize = 0;
        while i < n
            invariant
                n == self.diagnostics@.len(),
                i <= n,
                forall|j: int|
                    0 <= j < i ==> (#[trigger] models(self.diagnostics@)[j]).severity
                        != Severity::Error,
            decreases n - i,
        {
            if matches!(self.diagnostics[i].severity, Severity::Error) {
                proof {
                    assert(models(self.diagnostics@)[i as int].severity == Severity::Error);
                }
                return true;
            }
            i += 1;
        }
        false
    }

    /// Consume the builder and return the catalog and the accumulated
    /// diagnostics.
    pub fn build(self) -> (r: (Catalog, Vec<Diagnostic>))
        ensures
            r.0 == self.catalog,
            r.1 == self.diagnostics,
    {
        (self.catalog, self.diagnostics)
    }
}

impl Default for SchemaBuilder {
    /// The same builder `new` gives: a PostgreSQL-style catalog with
    /// default schema `public`, and no diagnostics.
    fn default() -> (r: SchemaBuilder)
        ensures
            r.catalog.default_schema@ == "public"@,
            r.catalog.schemas@.len() == 1,
            r.catalog.schemas@[0].name@ == "public"@,
            r.catalog.schemas@[0].tables@ =~= Seq::<TableDef>::empty(),
            r.catalog.schemas@[0].views@ =~= Seq::<ViewDef>::empty(),
            r.catalog.enums@ =~= Seq::<EnumTypeDef>::empty(),
            r.diagnostics@.len() == 0,
    {
        SchemaBuilder::new()
    }
}

/// What processing an ALTER TABLE does to the builder: a warning on an
/// unknown table, else the operation fold on the resolved schema.
pub open spec fn spec_process_alter_post(
    pre: SchemaBuilder,
    post: SchemaBuilder,
    at: AlterTable,
) -> bool {
    let q = spec_object_qname(at.name);
    if spec_get_table(pre.catalog, q) is None {
        &&& post.catalog == pre.catalog
        &&& models(post.diagnostics@) == models(pre.diagnostics@).push(spec_alter_warning(q))
    } else {
        &&& post.diagnostics == pre.diagnostics
        &&& spec_alter_table_post(pre.catalog, post.catalog, at)
    }
}

/// What processing a CREATE TABLE does to the catalog.
pub open spec fn spec_create_table_post(pre: Catalog, post: Catalog, ct: CreateTable) -> bool {
    exists|t: TableDef|
        #![auto]
        t@ == spec_table_from_create(ct) && spec_add_table_rel(pre, post, t)
}

/// What processing a CREATE VIEW does to the catalog.
pub open spec fn spec_create_view_post(pre: Catalog, post: Catalog, cv: CreateView) -> bool {
    exists|v: ViewDef|
        #![auto]
        v@ == (ViewModel {
            name: spec_object_qname(cv.name),
            columns: spec_create_view_cols(pre, cv),
            materialized: cv.materialized,
        }) && spec_add_view_rel(pre, post, v)
}

/// What processing a CREATE TYPE does to the catalog: an enum type is
/// registered; other representations are ignored.
pub open spec fn spec_create_type_post(pre: Catalog, post: Catalog, ct: CreateType) -> bool {
    match ct.representation {
        TypeRepresentation::Enum(labels) => exists|e: EnumTypeDef|
            #![auto]
            e@ == (EnumModel {
                name: spec_object_qname(ct.name).name,
                values: str_views(labels@),
            }) && post.schemas == pre.schemas && post.default_schema == pre.default_schema
                && post.enums@ == spec_upsert_enum(pre.enums@, e),
        TypeRepresentation::Other => post == pre,
    }
}

/// What processing an ALTER TABLE on an existing table does to the
/// catalog: the operations fold over the resolved schema's tables, and
/// nothing else changes.
pub open spec fn spec_alter_table_post(pre: Catalog, post: Catalog, at: AlterTable) -> bool {
    let q = spec_object_qname(at.name);
    let sn = spec_schema_of(pre, q);
    let si = spec_schema_idx(pre.schemas@, sn);
    &&& post.default_schema == pre.default_schema
    &&& post.enums == pre.enums
    &&& 0 <= si < pre.schemas@.len()
    &&& post.schemas@.len() == pre.schemas@.len()
    &&& forall|j: int|
        0 <= j < pre.schemas@.len() && j != si ==> post.schemas@[j] == pre.schemas@[j]
    &&& post.schemas@[si].name == pre.schemas@[si].name
    &&& post.schemas@[si].views == pre.schemas@[si].views
    &&& table_models(post.schemas@[si].tables@) == spec_alter_ops(
        table_models(pre.schemas@[si].tables@),
        q.name,
        at.operations@,
    )
}

} // verus!
