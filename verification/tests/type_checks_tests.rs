use sqlsurge::analyzer::Analyzer;
use sqlsurge::analyzer::ParseOutcome;
use sqlsurge::ast::BinOp;
use sqlsurge::ast::Expr;
use sqlsurge::ast::Ident;
use sqlsurge::ast::Join;
use sqlsurge::ast::JoinConstraint;
use sqlsurge::ast::JoinKind;
use sqlsurge::ast::Lit;
use sqlsurge::ast::ObjectName;
use sqlsurge::ast::Query;
use sqlsurge::ast::Select;
use sqlsurge::ast::SelectItem;
use sqlsurge::ast::SetExpr;
use sqlsurge::ast::Statement;
use sqlsurge::ast::TableFactor;
use sqlsurge::ast::TableWithJoins;
use sqlsurge::catalog::Catalog;
use sqlsurge::catalog::ColumnDef;
use sqlsurge::catalog::QualifiedName;
use sqlsurge::catalog::TableDef;
use sqlsurge::diag::Diagnostic;
use sqlsurge::diag::DiagnosticKind;
use sqlsurge::diag::Span;
use sqlsurge::types::SqlType;

fn sp() -> Span {
    Span::new(0, 0)
}

fn id(s: &str) -> Ident {
    Ident { value: s.to_string(), span: sp() }
}

fn col(name: &str) -> Expr {
    Expr::Ident(id(name))
}

fn qcol(table: &str, column: &str) -> Expr {
    Expr::CompoundIdent(vec![id(table), id(column)])
}

fn num(s: &str) -> Expr {
    Expr::Literal(Lit::Number(s.to_string()))
}

fn strlit(s: &str) -> Expr {
    Expr::Literal(Lit::Str(s.to_string()))
}

fn binop(l: Expr, op: BinOp, r: Expr) -> Expr {
    Expr::Binary { left: Box::new(l), op, right: Box::new(r), left_span: sp(), right_span: sp() }
}

fn table(name: &str) -> TableFactor {
    TableFactor::Table { name: ObjectName(vec![id(name)]), alias: None, has_args: false }
}

fn select_stmt(projection: Vec<SelectItem>, from: Vec<TableWithJoins>, selection: Option<Expr>) -> Statement {
    Statement::Query(Box::new(Query {
        with: None,
        body: SetExpr::Select(Box::new(Select {
            projection,
            from,
            selection,
            group_by: vec![],
            having: None,
        })),
        order_by: vec![],
    }))
}

fn simple_table(catalog: &mut Catalog, name: &str, cols: Vec<(&str, SqlType)>) {
    let mut t = TableDef::new(QualifiedName::new(name.to_string()));
    for (cname, ty) in cols {
        t.upsert_column(ColumnDef::new(cname.to_string(), ty));
    }
    catalog.add_table(t);
}

fn analyze(catalog: &Catalog, stmt: Statement) -> Vec<Diagnostic> {
    let mut analyzer = Analyzer::new(catalog);
    analyzer.analyze(&ParseOutcome::Statements(vec![stmt]))
}

fn users_catalog() -> Catalog {
    let mut catalog = Catalog::new();
    simple_table(
        &mut catalog,
        "users",
        vec![("id", SqlType::Integer), ("age", SqlType::Integer), ("name", SqlType::Text)],
    );
    catalog
}

#[test]
fn test_type_mismatch_comparison() {
    let catalog = users_catalog();
    let diagnostics = analyze(
        &catalog,
        select_stmt(
            vec![SelectItem::Wildcard],
            vec![TableWithJoins { relation: table("users"), joins: vec![] }],
            Some(binop(col("id"), BinOp::Eq, strlit("text"))),
        ),
    );
    assert_eq!(diagnostics.len(), 1);
    assert_eq!(diagnostics[0].kind, DiagnosticKind::TypeMismatch);
    assert!(diagnostics[0].message.contains("integer"));
    assert!(diagnostics[0].message.contains("text"));
}

#[test]
fn test_arithmetic_on_text() {
    let catalog = users_catalog();
    let diagnostics = analyze(
        &catalog,
        select_stmt(
            vec![SelectItem::Expr(binop(col("name"), BinOp::Plus, num("10")))],
            vec![TableWithJoins { relation: table("users"), joins: vec![] }],
            None,
        ),
    );
    assert_eq!(diagnostics.len(), 1);
    assert_eq!(diagnostics[0].kind, DiagnosticKind::TypeMismatch);
    assert!(diagnostics[0].message.contains("text"));
}

#[test]
fn test_join_type_mismatch() {
    let mut catalog = Catalog::new();
    simple_table(&mut catalog, "users", vec![("id", SqlType::Integer), ("name", SqlType::Text)]);
    simple_table(
        &mut catalog,
        "orders",
        vec![("order_id", SqlType::Integer), ("user_name", SqlType::Text)],
    );
    let on = binop(qcol("users", "id"), BinOp::Eq, qcol("orders", "user_name"));
    let from = vec![TableWithJoins {
        relation: table("users"),
        joins: vec![Join {
            relation: table("orders"),
            kind: JoinKind::Inner,
            constraint: JoinConstraint::On(on),
        }],
    }];
    let diagnostics = analyze(&catalog, select_stmt(vec![SelectItem::Wildcard], from, None));
    assert_eq!(diagnostics.len(), 1);
    assert_eq!(diagnostics[0].kind, DiagnosticKind::JoinTypeMismatch);
    assert!(diagnostics[0].message.contains("integer"));
    assert!(diagnostics[0].message.contains("text"));
}

#[test]
fn test_valid_type_comparison() {
    let catalog = users_catalog();
    let diagnostics = analyze(
        &catalog,
        select_stmt(
            vec![SelectItem::Wildcard],
            vec![TableWithJoins { relation: table("users"), joins: vec![] }],
            Some(binop(col("id"), BinOp::Eq, col("age"))),
        ),
    );
    assert!(diagnostics.is_empty(), "Same type comparison should not produce errors: {:?}", diagnostics);
}

#[test]
fn test_numeric_type_compatibility() {
    let mut catalog = Catalog::new();
    simple_table(
        &mut catalog,
        "data",
        vec![
            ("small", SqlType::SmallInt),
            ("medium", SqlType::Integer),
            ("big", SqlType::BigInt),
        ],
    );
    let diagnostics = analyze(
        &catalog,
        select_stmt(
            vec![SelectItem::Wildcard],
            vec![TableWithJoins { relation: table("data"), joins: vec![] }],
            Some(binop(col("small"), BinOp::Eq, col("medium"))),
        ),
    );
    assert!(diagnostics.is_empty(), "Numeric type implicit cast should be allowed: {:?}", diagnostics);
    let diagnostics = analyze(
        &catalog,
        select_stmt(
            vec![SelectItem::Wildcard],
            vec![TableWithJoins { relation: table("data"), joins: vec![] }],
            Some(binop(col("medium"), BinOp::Eq, col("big"))),
        ),
    );
    assert!(diagnostics.is_empty(), "Integer to BigInt implicit cast should be allowed: {:?}", diagnostics);
}

#[test]
fn test_all_comparison_operators() {
    let catalog = users_catalog();
    let operators = vec![BinOp::Eq, BinOp::NotEq, BinOp::Lt, BinOp::Gt, BinOp::LtEq, BinOp::GtEq];
    for op in operators {
        let diagnostics = analyze(
            &catalog,
            select_stmt(
                vec![SelectItem::Wildcard],
                vec![TableWithJoins { relation: table("users"), joins: vec![] }],
                Some(binop(col("id"), op, strlit("text"))),
            ),
        );
        assert_eq!(diagnostics.len(), 1, "Operator {:?} should detect type mismatch", op);
        assert_eq!(diagnostics[0].kind, DiagnosticKind::TypeMismatch);
    }
}

#[test]
fn test_null_is_always_compatible() {
    let catalog = users_catalog();
    let diagnostics = analyze(
        &catalog,
        select_stmt(
            vec![SelectItem::Wildcard],
            vec![TableWithJoins { relation: table("users"), joins: vec![] }],
            Some(binop(col("id"), BinOp::Eq, Expr::Literal(Lit::Null))),
        ),
    );
    assert!(diagnostics.is_empty(), "NULL comparison should not produce type errors: {:?}", diagnostics);
    let diagnostics = analyze(
        &catalog,
        select_stmt(
            vec![SelectItem::Wildcard],
            vec![TableWithJoins { relation: table("users"), joins: vec![] }],
            Some(binop(col("name"), BinOp::Eq, Expr::Literal(Lit::Null))),
        ),
    );
    assert!(diagnostics.is_empty(), "NULL with TEXT should not produce type errors: {:?}", diagnostics);
}

#[test]
fn test_multiple_type_errors() {
    let catalog = users_catalog();
    let where_expr = binop(
        binop(col("id"), BinOp::Eq, strlit("text")),
        BinOp::And,
        binop(col("age"), BinOp::Eq, strlit("another")),
    );
    let diagnostics = analyze(
        &catalog,
        select_stmt(
            vec![SelectItem::Wildcard],
            vec![TableWithJoins { relation: table("users"), joins: vec![] }],
            Some(where_expr),
        ),
    );
    assert_eq!(diagnostics.len(), 2, "Should detect multiple type errors: {:?}", diagnostics);
    assert!(diagnostics.iter().all(|d| d.kind == DiagnosticKind::TypeMismatch));
}

#[test]
fn test_decimal_integer_compatibility() {
    let mut catalog = Catalog::new();
    simple_table(
        &mut catalog,
        "products",
        vec![
            ("id", SqlType::Integer),
            ("price", SqlType::Decimal { precision: Some(10), scale: Some(2) }),
        ],
    );
    let diagnostics = analyze(
        &catalog,
        select_stmt(
            vec![SelectItem::Wildcard],
            vec![TableWithJoins { relation: table("products"), joins: vec![] }],
            Some(binop(col("id"), BinOp::Eq, col("price"))),
        ),
    );
    assert!(diagnostics.is_empty(), "INTEGER to DECIMAL implicit cast should be allowed: {:?}", diagnostics);
}

#[test]
fn test_text_types_compatibility() {
    let mut catalog = Catalog::new();
    simple_table(
        &mut catalog,
        "users",
        vec![
            ("username", SqlType::Varchar { length: Some(50) }),
            ("bio", SqlType::Text),
            ("code", SqlType::Char { length: Some(10) }),
        ],
    );
    let diagnostics = analyze(
        &catalog,
        select_stmt(
            vec![SelectItem::Wildcard],
            vec![TableWithJoins { relation: table("users"), joins: vec![] }],
            Some(binop(col("username"), BinOp::Eq, col("bio"))),
        ),
    );
    assert!(diagnostics.is_empty(), "VARCHAR to TEXT implicit cast should be allowed: {:?}", diagnostics);
    let diagnostics = analyze(
        &catalog,
        select_stmt(
            vec![SelectItem::Wildcard],
            vec![TableWithJoins { relation: table("users"), joins: vec![] }],
            Some(binop(col("code"), BinOp::Eq, col("username"))),
        ),
    );
    assert!(diagnostics.is_empty(), "CHAR to VARCHAR implicit cast should be allowed: {:?}", diagnostics);
}

#[test]
fn test_nested_expressions() {
    let mut catalog = Catalog::new();
    simple_table(
        &mut catalog,
        "data",
        vec![("a", SqlType::Integer), ("b", SqlType::Integer), ("c", SqlType::Text)],
    );
    let where_expr = binop(
        Expr::Nested(Box::new(binop(col("a"), BinOp::Plus, col("b")))),
        BinOp::Eq,
        col("c"),
    );
    let diagnostics = analyze(
        &catalog,
        select_stmt(
            vec![SelectItem::Wildcard],
            vec![TableWithJoins { relation: table("data"), joins: vec![] }],
            Some(where_expr),
        ),
    );
    assert_eq!(diagnostics.len(), 1);
    assert_eq!(diagnostics[0].kind, DiagnosticKind::TypeMismatch);
}

#[test]
fn test_complex_join_conditions() {
    let mut catalog = Catalog::new();
    simple_table(&mut catalog, "users", vec![("id", SqlType::Integer), ("name", SqlType::Text)]);
    simple_table(
        &mut catalog,
        "orders",
        vec![("user_id", SqlType::Integer), ("product", SqlType::Text)],
    );
    let on = binop(qcol("users", "id"), BinOp::Eq, qcol("orders", "user_id"));
    let from = vec![TableWithJoins {
        relation: table("users"),
        joins: vec![Join {
            relation: table("orders"),
            kind: JoinKind::Inner,
            constraint: JoinConstraint::On(on),
        }],
    }];
    let diagnostics = analyze(&catalog, select_stmt(vec![SelectItem::Wildcard], from, None));
    assert!(diagnostics.is_empty(), "Valid JOIN condition should not produce errors: {:?}", diagnostics);
}

#[test]
fn test_valid_arithmetic_operations() {
    let mut catalog = Catalog::new();
    simple_table(
        &mut catalog,
        "data",
        vec![
            ("a", SqlType::Integer),
            ("b", SqlType::Integer),
            ("price", SqlType::Decimal { precision: Some(10), scale: Some(2) }),
        ],
    );
    let diagnostics = analyze(
        &catalog,
        select_stmt(
            vec![SelectItem::Expr(binop(col("a"), BinOp::Plus, col("b")))],
            vec![TableWithJoins { relation: table("data"), joins: vec![] }],
            None,
        ),
    );
    assert!(diagnostics.is_empty(), "Arithmetic on numeric types should not produce errors: {:?}", diagnostics);
    let diagnostics = analyze(
        &catalog,
        select_stmt(
            vec![SelectItem::Expr(binop(col("a"), BinOp::Plus, col("price")))],
            vec![TableWithJoins { relation: table("data"), joins: vec![] }],
            None,
        ),
    );
    assert!(diagnostics.is_empty(), "Mixed numeric arithmetic should not produce errors: {:?}", diagnostics);
}
