use sqlsurge::analyzer::Analyzer;
use sqlsurge::analyzer::ParseOutcome;
use sqlsurge::ast::AssignTarget;
use sqlsurge::ast::Assignment;
use sqlsurge::ast::BinOp;
use sqlsurge::ast::Cte;
use sqlsurge::ast::Delete;
use sqlsurge::ast::Expr;
use sqlsurge::ast::Ident;
use sqlsurge::ast::Insert;
use sqlsurge::ast::Join;
use sqlsurge::ast::JoinConstraint;
use sqlsurge::ast::JoinKind;
use sqlsurge::ast::Lit;
use sqlsurge::ast::ObjectName;
use sqlsurge::ast::Query;
use sqlsurge::ast::Select;
use sqlsurge::ast::SelectItem;
use sqlsurge::ast::SetExpr;
use sqlsurge::ast::Statement;
use sqlsurge::ast::TableAlias;
use sqlsurge::ast::TableFactor;
use sqlsurge::ast::TableWithJoins;
use sqlsurge::ast::Update;
use sqlsurge::ast::With;
use sqlsurge::catalog::Catalog;
use sqlsurge::catalog::ColumnDef;
use sqlsurge::catalog::QualifiedName;
use sqlsurge::catalog::TableDef;
use sqlsurge::diag::Diagnostic;
use sqlsurge::diag::DiagnosticKind;
use sqlsurge::diag::Span;
use sqlsurge::types::SqlType;

fn sp() -> Span {
    Span::new(0, 0)
}

fn id(s: &str) -> Ident {
    Ident { value: s.to_string(), span: sp() }
}

fn obj(name: &str) -> ObjectName {
    ObjectName(vec![id(name)])
}

fn col(name: &str) -> Expr {
    Expr::Ident(id(name))
}

fn qcol(table: &str, column: &str) -> Expr {
    Expr::CompoundIdent(vec![id(table), id(column)])
}

fn num(s: &str) -> Expr {
    Expr::Literal(Lit::Number(s.to_string()))
}

fn strlit(s: &str) -> Expr {
    Expr::Literal(Lit::Str(s.to_string()))
}

fn binop(l: Expr, op: BinOp, r: Expr) -> Expr {
    Expr::Binary { left: Box::new(l), op, right: Box::new(r), left_span: sp(), right_span: sp() }
}

fn table(name: &str) -> TableFactor {
    TableFactor::Table { name: obj(name), alias: None, has_args: false }
}

fn table_as(name: &str, alias: &str) -> TableFactor {
    TableFactor::Table {
        name: obj(name),
        alias: Some(TableAlias { name: id(alias), columns: vec![] }),
        has_args: false,
    }
}

fn from_one(f: TableFactor) -> Vec<TableWithJoins> {
    vec![TableWithJoins { relation: f, joins: vec![] }]
}

fn proj(exprs: Vec<Expr>) -> Vec<SelectItem> {
    exprs.into_iter().map(SelectItem::Expr).collect()
}

fn plain_query(projection: Vec<SelectItem>, from: Vec<TableWithJoins>, selection: Option<Expr>) -> Query {
    Query {
        with: None,
        body: SetExpr::Select(Box::new(Select {
            projection,
            from,
            selection,
            group_by: vec![],
            having: None,
        })),
        order_by: vec![],
    }
}

fn select_stmt(projection: Vec<SelectItem>, from: Vec<TableWithJoins>, selection: Option<Expr>) -> Statement {
    Statement::Query(Box::new(plain_query(projection, from, selection)))
}

fn column(name: &str, ty: SqlType, nullable: bool) -> ColumnDef {
    if nullable {
        ColumnDef::new(name.to_string(), ty)
    } else {
        ColumnDef::new(name.to_string(), ty).not_null()
    }
}

fn setup_catalog() -> Catalog {
    let mut catalog = Catalog::new();
    let mut users = TableDef::new(QualifiedName::new("users".to_string()));
    users.upsert_column(column("id", SqlType::Integer, true));
    users.upsert_column(column("name", SqlType::Text, false));
    users.upsert_column(column("email", SqlType::Text, true));
    catalog.add_table(users);
    let mut orders = TableDef::new(QualifiedName::new("orders".to_string()));
    orders.upsert_column(column("id", SqlType::Integer, true));
    orders.upsert_column(column("user_id", SqlType::Integer, false));
    orders.upsert_column(column(
        "total",
        SqlType::Decimal { precision: Some(10), scale: Some(2) },
        true,
    ));
    catalog.add_table(orders);
    catalog
}

fn analyze(catalog: &Catalog, stmt: Statement) -> Vec<Diagnostic> {
    let mut analyzer = Analyzer::new(catalog);
    analyzer.analyze(&ParseOutcome::Statements(vec![stmt]))
}

fn users_join_orders(on: Expr) -> Vec<TableWithJoins> {
    vec![TableWithJoins {
        relation: table("users"),
        joins: vec![Join {
            relation: table("orders"),
            kind: JoinKind::Inner,
            constraint: JoinConstraint::On(on),
        }],
    }]
}

fn catalog_with_view() -> Catalog {
    let mut catalog = setup_catalog();
    catalog.add_view(sqlsurge::catalog::ViewDef {
        name: QualifiedName::new("active_users".to_string()),
        columns: vec!["id".to_string(), "name".to_string()],
        materialized: false,
    });
    catalog
}

#[test]
fn test_view_definition_and_query() {
    let catalog = catalog_with_view();
    let diagnostics = analyze(
        &catalog,
        select_stmt(proj(vec![col("id"), col("name")]), from_one(table("active_users")), None),
    );
    assert!(diagnostics.is_empty(), "Valid query on a view should have no errors: {:?}", diagnostics);
}

#[test]
fn test_view_column_not_found() {
    let catalog = catalog_with_view();
    let diagnostics = analyze(
        &catalog,
        select_stmt(proj(vec![col("email")]), from_one(table("active_users")), None),
    );
    assert_eq!(diagnostics.len(), 1);
    assert_eq!(diagnostics[0].kind, DiagnosticKind::ColumnNotFound);
    assert!(diagnostics[0].message.contains("email"));
}

#[test]
fn test_view_with_alias() {
    let catalog = catalog_with_view();
    let diagnostics = analyze(
        &catalog,
        select_stmt(
            proj(vec![qcol("v", "id"), qcol("v", "name")]),
            from_one(table_as("active_users", "v")),
            None,
        ),
    );
    assert!(diagnostics.is_empty(), "Valid query on an aliased view should have no errors: {:?}", diagnostics);
}

#[test]
fn table_names_are_qualified_and_ordered() {
    let catalog = catalog_with_view();
    let names: Vec<String> = catalog.table_names().iter().map(|q| q.render()).collect();
    assert_eq!(names, vec!["public.users", "public.orders"]);
    let all: Vec<String> = catalog.table_or_view_names().iter().map(|q| q.render()).collect();
    assert_eq!(all, vec!["public.users", "public.orders", "public.active_users"]);
}

#[test]
fn test_valid_select() {
    let catalog = setup_catalog();
    let diagnostics = analyze(&catalog, select_stmt(proj(vec![col("id"), col("name")]), from_one(table("users")), None));
    assert!(diagnostics.is_empty(), "Expected no errors: {:?}", diagnostics);
}

#[test]
fn test_table_not_found() {
    let catalog = setup_catalog();
    let diagnostics = analyze(
        &catalog,
        select_stmt(vec![SelectItem::Wildcard], from_one(table("nonexistent")), None),
    );
    assert_eq!(diagnostics.len(), 1, "exactly one diagnostic: {:?}", diagnostics);
    assert_eq!(diagnostics[0].kind, DiagnosticKind::TableNotFound);
    assert!(diagnostics[0].message.contains("nonexistent"));
}

#[test]
fn test_column_not_found() {
    let catalog = setup_catalog();
    let diagnostics = analyze(
        &catalog,
        select_stmt(proj(vec![col("nonexistent_column")]), from_one(table("users")), None),
    );
    assert_eq!(diagnostics.len(), 1);
    assert_eq!(diagnostics[0].kind, DiagnosticKind::ColumnNotFound);
}

#[test]
fn test_column_not_found_qualified() {
    let catalog = setup_catalog();
    let diagnostics = analyze(
        &catalog,
        select_stmt(proj(vec![qcol("u", "nonexistent")]), from_one(table_as("users", "u")), None),
    );
    assert_eq!(diagnostics.len(), 1);
    assert_eq!(diagnostics[0].kind, DiagnosticKind::ColumnNotFound);
    assert!(diagnostics[0].message.contains("nonexistent"));
}

#[test]
fn test_table_alias_not_found() {
    let catalog = setup_catalog();
    let diagnostics = analyze(
        &catalog,
        select_stmt(proj(vec![qcol("x", "id")]), from_one(table_as("users", "u")), None),
    );
    assert_eq!(diagnostics.len(), 1);
    assert_eq!(diagnostics[0].kind, DiagnosticKind::TableNotFound);
    assert!(diagnostics[0].message.contains("'x'"));
}

#[test]
fn test_ambiguous_column() {
    let catalog = setup_catalog();
    let on = binop(qcol("users", "id"), BinOp::Eq, qcol("orders", "user_id"));
    let diagnostics = analyze(&catalog, select_stmt(proj(vec![col("id")]), users_join_orders(on), None));
    assert_eq!(diagnostics.len(), 1);
    assert_eq!(diagnostics[0].kind, DiagnosticKind::AmbiguousColumn);
    assert!(diagnostics[0].message.contains("ambiguous"));
    assert!(diagnostics[0].message.contains("users"));
    assert!(diagnostics[0].message.contains("orders"));
}

#[test]
fn test_ambiguous_column_resolved_with_qualifier() {
    let catalog = setup_catalog();
    let on = binop(qcol("users", "id"), BinOp::Eq, qcol("orders", "user_id"));
    let diagnostics = analyze(
        &catalog,
        select_stmt(proj(vec![qcol("users", "id")]), users_join_orders(on), None),
    );
    assert!(diagnostics.is_empty(), "Expected no errors when column is qualified: {:?}", diagnostics);
}

#[test]
fn test_parse_error() {
    let catalog = setup_catalog();
    let mut analyzer = Analyzer::new(&catalog);
    let diagnostics = analyzer.analyze(&ParseOutcome::Failure {
        message: "Expected an SQL statement".to_string(),
        input_len: 17,
    });
    assert!(!diagnostics.is_empty());
    assert_eq!(diagnostics[0].kind, DiagnosticKind::ParseError);
    assert!(diagnostics[0].message.contains("Parse error:"));
    assert_eq!(diagnostics[0].span.unwrap().length, 17);
}

#[test]
fn test_join_condition_column_not_found() {
    let catalog = setup_catalog();
    let on = binop(qcol("o", "customer_id"), BinOp::Eq, qcol("u", "id"));
    let from = vec![TableWithJoins {
        relation: table_as("users", "u"),
        joins: vec![Join {
            relation: table_as("orders", "o"),
            kind: JoinKind::Inner,
            constraint: JoinConstraint::On(on),
        }],
    }];
    let diagnostics = analyze(&catalog, select_stmt(proj(vec![qcol("u", "id")]), from, None));
    assert_eq!(diagnostics.len(), 1);
    assert_eq!(diagnostics[0].kind, DiagnosticKind::ColumnNotFound);
    assert!(diagnostics[0].message.contains("customer_id"));
}

#[test]
fn test_valid_join() {
    let catalog = setup_catalog();
    let on = binop(qcol("o", "user_id"), BinOp::Eq, qcol("u", "id"));
    let from = vec![TableWithJoins {
        relation: table_as("users", "u"),
        joins: vec![Join {
            relation: table_as("orders", "o"),
            kind: JoinKind::Inner,
            constraint: JoinConstraint::On(on),
        }],
    }];
    let diagnostics = analyze(
        &catalog,
        select_stmt(proj(vec![qcol("u", "id"), qcol("u", "name"), qcol("o", "total")]), from, None),
    );
    assert!(diagnostics.is_empty(), "Expected no errors for valid JOIN: {:?}", diagnostics);
}

#[test]
fn test_insert_valid() {
    let catalog = setup_catalog();
    let stmt = Statement::Insert(Insert {
        table_name: obj("users"),
        columns: vec![id("id"), id("name"), id("email")],
        source: Some(Box::new(Query {
            with: None,
            body: SetExpr::Values(vec![vec![num("1"), strlit("test"), strlit("a@b.com")]]),
            order_by: vec![],
        })),
    });
    let diagnostics = analyze(&catalog, stmt);
    assert!(diagnostics.is_empty(), "Valid INSERT should have no errors: {:?}", diagnostics);
}

#[test]
fn test_insert_table_not_found() {
    let catalog = setup_catalog();
    let stmt = Statement::Insert(Insert {
        table_name: obj("nonexistent"),
        columns: vec![id("id")],
        source: Some(Box::new(Query {
            with: None,
            body: SetExpr::Values(vec![vec![num("1")]]),
            order_by: vec![],
        })),
    });
    let diagnostics = analyze(&catalog, stmt);
    assert_eq!(diagnostics.len(), 1);
    assert_eq!(diagnostics[0].kind, DiagnosticKind::TableNotFound);
}

#[test]
fn test_insert_column_not_found() {
    let catalog = setup_catalog();
    let stmt = Statement::Insert(Insert {
        table_name: obj("users"),
        columns: vec![id("id"), id("username")],
        source: Some(Box::new(Query {
            with: None,
            body: SetExpr::Values(vec![vec![num("1"), strlit("test")]]),
            order_by: vec![],
        })),
    });
    let diagnostics = analyze(&catalog, stmt);
    assert_eq!(diagnostics.len(), 1);
    assert_eq!(diagnostics[0].kind, DiagnosticKind::ColumnNotFound);
    assert!(diagnostics[0].message.contains("username"));
}

#[test]
fn test_insert_column_count_mismatch() {
    let catalog = setup_catalog();
    let stmt = Statement::Insert(Insert {
        table_name: obj("users"),
        columns: vec![id("id"), id("name")],
        source: Some(Box::new(Query {
            with: None,
            body: SetExpr::Values(vec![vec![num("1"), strlit("test"), strlit("extra")]]),
            order_by: vec![],
        })),
    });
    let diagnostics = analyze(&catalog, stmt);
    assert_eq!(diagnostics.len(), 1);
    assert_eq!(diagnostics[0].kind, DiagnosticKind::ColumnCountMismatch);
}

#[test]
fn test_insert_column_count_mismatch_fewer_values() {
    let catalog = setup_catalog();
    let stmt = Statement::Insert(Insert {
        table_name: obj("users"),
        columns: vec![id("id"), id("name"), id("email")],
        source: Some(Box::new(Query {
            with: None,
            body: SetExpr::Values(vec![vec![num("1"), strlit("test")]]),
            order_by: vec![],
        })),
    });
    let diagnostics = analyze(&catalog, stmt);
    assert_eq!(diagnostics.len(), 1);
    assert_eq!(diagnostics[0].kind, DiagnosticKind::ColumnCountMismatch);
}

#[test]
fn insert_without_column_list_counts_all_table_columns() {
    let catalog = setup_catalog();
    let stmt = Statement::Insert(Insert {
        table_name: obj("users"),
        columns: vec![],
        source: Some(Box::new(Query {
            with: None,
            body: SetExpr::Values(vec![vec![num("1"), strlit("a")]]),
            order_by: vec![],
        })),
    });
    let diagnostics = analyze(&catalog, stmt);
    assert_eq!(diagnostics.len(), 1);
    assert_eq!(diagnostics[0].kind, DiagnosticKind::ColumnCountMismatch);
    assert!(diagnostics[0].message.contains("2 value(s)"));
    assert!(diagnostics[0].message.contains("3 column(s)"));
}

fn update_stmt(assignments: Vec<Assignment>, selection: Option<Expr>) -> Statement {
    Statement::Update(Update {
        table: TableWithJoins { relation: table("users"), joins: vec![] },
        assignments,
        from: None,
        selection,
    })
}

#[test]
fn test_update_valid() {
    let catalog = setup_catalog();
    let stmt = update_stmt(
        vec![Assignment { target: AssignTarget::Column(vec![id("name")]), value: strlit("new") }],
        Some(binop(col("id"), BinOp::Eq, num("1"))),
    );
    let diagnostics = analyze(&catalog, stmt);
    assert!(diagnostics.is_empty(), "Valid UPDATE should have no errors: {:?}", diagnostics);
}

#[test]
fn test_update_table_not_found() {
    let catalog = setup_catalog();
    let stmt = Statement::Update(Update {
        table: TableWithJoins { relation: table("nonexistent"), joins: vec![] },
        assignments: vec![Assignment {
            target: AssignTarget::Column(vec![id("name")]),
            value: strlit("new"),
        }],
        from: None,
        selection: None,
    });
    let diagnostics = analyze(&catalog, stmt);
    assert_eq!(diagnostics.len(), 1);
    assert_eq!(diagnostics[0].kind, DiagnosticKind::TableNotFound);
}

#[test]
fn test_update_set_column_not_found() {
    let catalog = setup_catalog();
    let stmt = update_stmt(
        vec![Assignment { target: AssignTarget::Column(vec![id("username")]), value: strlit("new") }],
        Some(binop(col("id"), BinOp::Eq, num("1"))),
    );
    let diagnostics = analyze(&catalog, stmt);
    assert_eq!(diagnostics.len(), 1);
    assert_eq!(diagnostics[0].kind, DiagnosticKind::ColumnNotFound);
    assert!(diagnostics[0].message.contains("username"));
}

#[test]
fn test_update_where_column_not_found() {
    let catalog = setup_catalog();
    let stmt = update_stmt(
        vec![Assignment { target: AssignTarget::Column(vec![id("name")]), value: strlit("new") }],
        Some(binop(col("user_id"), BinOp::Eq, num("1"))),
    );
    let diagnostics = analyze(&catalog, stmt);
    assert_eq!(diagnostics.len(), 1);
    assert_eq!(diagnostics[0].kind, DiagnosticKind::ColumnNotFound);
    assert!(diagnostics[0].message.contains("user_id"));
}

#[test]
fn test_delete_valid() {
    let catalog = setup_catalog();
    let stmt = Statement::Delete(Delete {
        from: from_one(table("users")),
        using: vec![],
        selection: Some(binop(col("id"), BinOp::Eq, num("1"))),
    });
    let diagnostics = analyze(&catalog, stmt);
    assert!(diagnostics.is_empty(), "Valid DELETE should have no errors: {:?}", diagnostics);
}

#[test]
fn test_delete_table_not_found() {
    let catalog = setup_catalog();
    let stmt = Statement::Delete(Delete {
        from: from_one(table("nonexistent")),
        using: vec![],
        selection: Some(binop(col("id"), BinOp::Eq, num("1"))),
    });
    let diagnostics = analyze(&catalog, stmt);
    assert!(!diagnostics.is_empty());
    assert_eq!(diagnostics[0].kind, DiagnosticKind::TableNotFound);
}

#[test]
fn test_delete_where_column_not_found() {
    let catalog = setup_catalog();
    let stmt = Statement::Delete(Delete {
        from: from_one(table("users")),
        using: vec![],
        selection: Some(binop(col("user_id"), BinOp::Eq, num("1"))),
    });
    let diagnostics = analyze(&catalog, stmt);
    assert_eq!(diagnostics.len(), 1);
    assert_eq!(diagnostics[0].kind, DiagnosticKind::ColumnNotFound);
    assert!(diagnostics[0].message.contains("user_id"));
}

#[test]
fn test_subquery_in_where_valid() {
    let catalog = setup_catalog();
    let inner = plain_query(proj(vec![col("user_id")]), from_one(table("orders")), None);
    let where_expr = Expr::Other(vec![col("id"), Expr::Subquery(Box::new(inner))]);
    let diagnostics = analyze(
        &catalog,
        select_stmt(proj(vec![col("id")]), from_one(table("users")), Some(where_expr)),
    );
    assert!(diagnostics.is_empty(), "Valid subquery should have no errors: {:?}", diagnostics);
}

#[test]
fn test_correlated_subquery_valid() {
    let catalog = setup_catalog();
    let inner = plain_query(
        proj(vec![num("1")]),
        from_one(table_as("orders", "o")),
        Some(binop(qcol("o", "user_id"), BinOp::Eq, qcol("u", "id"))),
    );
    let where_expr = Expr::Other(vec![Expr::Subquery(Box::new(inner))]);
    let diagnostics = analyze(
        &catalog,
        select_stmt(
            proj(vec![qcol("u", "id"), qcol("u", "name")]),
            from_one(table_as("users", "u")),
            Some(where_expr),
        ),
    );
    assert!(diagnostics.is_empty(), "Valid correlated subquery should have no errors: {:?}", diagnostics);
}

#[test]
fn test_subquery_column_not_found() {
    let catalog = setup_catalog();
    let inner = plain_query(proj(vec![col("nonexistent")]), from_one(table("orders")), None);
    let where_expr = Expr::Other(vec![col("id"), Expr::Subquery(Box::new(inner))]);
    let diagnostics = analyze(
        &catalog,
        select_stmt(proj(vec![col("id")]), from_one(table("users")), Some(where_expr)),
    );
    assert_eq!(diagnostics.len(), 1);
    assert_eq!(diagnostics[0].kind, DiagnosticKind::ColumnNotFound);
    assert!(diagnostics[0].message.contains("nonexistent"));
}

#[test]
fn test_cte_valid() {
    let catalog = setup_catalog();
    let cte_query = plain_query(proj(vec![col("id"), col("name")]), from_one(table("users")), None);
    let stmt = Statement::Query(Box::new(Query {
        with: Some(With {
            recursive: false,
            ctes: vec![Cte { name: id("active_users"), columns: vec![], query: Box::new(cte_query) }],
        }),
        body: SetExpr::Select(Box::new(Select {
            projection: proj(vec![col("id"), col("name")]),
            from: from_one(table("active_users")),
            selection: None,
            group_by: vec![],
            having: None,
        })),
        order_by: vec![],
    }));
    let diagnostics = analyze(&catalog, stmt);
    assert!(diagnostics.is_empty(), "Valid CTE should have no errors: {:?}", diagnostics);
}

#[test]
fn test_cte_column_not_found() {
    let catalog = setup_catalog();
    let cte_query = plain_query(proj(vec![col("id")]), from_one(table("users")), None);
    let stmt = Statement::Query(Box::new(Query {
        with: Some(With {
            recursive: false,
            ctes: vec![Cte { name: id("active_users"), columns: vec![], query: Box::new(cte_query) }],
        }),
        body: SetExpr::Select(Box::new(Select {
            projection: proj(vec![col("id"), col("name")]),
            from: from_one(table("active_users")),
            selection: None,
            group_by: vec![],
            having: None,
        })),
        order_by: vec![],
    }));
    let diagnostics = analyze(&catalog, stmt);
    assert_eq!(diagnostics.len(), 1);
    assert_eq!(diagnostics[0].kind, DiagnosticKind::ColumnNotFound);
    assert!(diagnostics[0].message.contains("name"));
}

#[test]
fn recursive_cte_can_reference_itself() {
    let catalog = setup_catalog();
    let base = plain_query(proj(vec![col("id")]), from_one(table("counts")), None);
    let stmt = Statement::Query(Box::new(Query {
        with: Some(With {
            recursive: true,
            ctes: vec![Cte { name: id("counts"), columns: vec![id("id")], query: Box::new(base) }],
        }),
        body: SetExpr::Select(Box::new(Select {
            projection: proj(vec![col("id")]),
            from: from_one(table("counts")),
            selection: None,
            group_by: vec![],
            having: None,
        })),
        order_by: vec![],
    }));
    let diagnostics = analyze(&catalog, stmt);
    assert!(diagnostics.is_empty(), "Recursive CTE self-reference should resolve: {:?}", diagnostics);
}

#[test]
fn order_by_may_use_select_aliases() {
    let catalog = setup_catalog();
    let stmt = Statement::Query(Box::new(Query {
        with: None,
        body: SetExpr::Select(Box::new(Select {
            projection: vec![SelectItem::ExprWithAlias { expr: col("id"), alias: id("x") }],
            from: from_one(table("users")),
            selection: None,
            group_by: vec![],
            having: None,
        })),
        order_by: vec![col("x")],
    }));
    let diagnostics = analyze(&catalog, stmt);
    assert!(diagnostics.is_empty(), "ORDER BY alias should resolve: {:?}", diagnostics);
}

#[test]
fn select_star_without_from_is_reported() {
    let catalog = setup_catalog();
    let diagnostics = analyze(&catalog, select_stmt(vec![SelectItem::Wildcard], vec![], None));
    assert_eq!(diagnostics.len(), 1);
    assert_eq!(diagnostics[0].kind, DiagnosticKind::TableNotFound);
    assert!(diagnostics[0].message.contains("SELECT *"));
}

#[test]
fn non_lateral_derived_table_cannot_see_outer_scope() {
    let catalog = setup_catalog();
    let inner = plain_query(
        proj(vec![qcol("u", "id")]),
        from_one(table("orders")),
        None,
    );
    let from = vec![
        TableWithJoins { relation: table_as("users", "u"), joins: vec![] },
        TableWithJoins {
            relation: TableFactor::Derived {
                lateral: false,
                subquery: Box::new(inner),
                alias: Some(TableAlias { name: id("d"), columns: vec![] }),
            },
            joins: vec![],
        },
    ];
    let diagnostics = analyze(&catalog, select_stmt(proj(vec![qcol("u", "name")]), from, None));
    assert_eq!(diagnostics.len(), 1);
    assert_eq!(diagnostics[0].kind, DiagnosticKind::TableNotFound);
    assert!(diagnostics[0].message.contains("'u'"));
}

#[test]
fn lateral_derived_table_sees_outer_scope() {
    let catalog = setup_catalog();
    let inner = plain_query(proj(vec![qcol("u", "id")]), from_one(table("orders")), None);
    let from = vec![
        TableWithJoins { relation: table_as("users", "u"), joins: vec![] },
        TableWithJoins {
            relation: TableFactor::Derived {
                lateral: true,
                subquery: Box::new(inner),
                alias: Some(TableAlias { name: id("d"), columns: vec![] }),
            },
            joins: vec![],
        },
    ];
    let diagnostics = analyze(&catalog, select_stmt(proj(vec![qcol("u", "name")]), from, None));
    assert!(diagnostics.is_empty(), "LATERAL subquery should see outer tables: {:?}", diagnostics);
}

#[test]
fn derived_table_alias_resolves_with_inferred_columns() {
    let catalog = setup_catalog();
    let inner = plain_query(proj(vec![col("id"), col("name")]), from_one(table("users")), None);
    let from = vec![TableWithJoins {
        relation: TableFactor::Derived {
            lateral: false,
            subquery: Box::new(inner),
            alias: Some(TableAlias { name: id("d"), columns: vec![] }),
        },
        joins: vec![],
    }];
    let ok = analyze(&catalog, select_stmt(proj(vec![qcol("d", "name")]), from, None));
    assert!(ok.is_empty(), "Inferred derived column should resolve: {:?}", ok);

    let inner2 = plain_query(proj(vec![col("id"), col("name")]), from_one(table("users")), None);
    let from2 = vec![TableWithJoins {
        relation: TableFactor::Derived {
            lateral: false,
            subquery: Box::new(inner2),
            alias: Some(TableAlias { name: id("d"), columns: vec![] }),
        },
        joins: vec![],
    }];
    let bad = analyze(&catalog, select_stmt(proj(vec![qcol("d", "email")]), from2, None));
    assert_eq!(bad.len(), 1);
    assert_eq!(bad[0].kind, DiagnosticKind::ColumnNotFound);
}
