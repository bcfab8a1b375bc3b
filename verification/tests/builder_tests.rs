use sqlsurge::ast::AlterTable;
use sqlsurge::ast::AlterTableOperation;
use sqlsurge::ast::ColumnOption;
use sqlsurge::ast::ColumnOptionSpec;
use sqlsurge::ast::ColumnSpec;
use sqlsurge::ast::CreateTable;
use sqlsurge::ast::CreateType;
use sqlsurge::ast::CreateView;
use sqlsurge::ast::DefaultExpr;
use sqlsurge::ast::Expr;
use sqlsurge::ast::Ident;
use sqlsurge::ast::Lit;
use sqlsurge::ast::ObjectName;
use sqlsurge::ast::Query;
use sqlsurge::ast::Select;
use sqlsurge::ast::SelectItem;
use sqlsurge::ast::SetExpr;
use sqlsurge::ast::Statement;
use sqlsurge::ast::TableConstraintSpec;
use sqlsurge::ast::TableFactor;
use sqlsurge::ast::TableWithJoins;
use sqlsurge::ast::TypeRepresentation;
use sqlsurge::builder::SchemaBuilder;
use sqlsurge::catalog::DefaultValue;
use sqlsurge::catalog::IdentityKind;
use sqlsurge::catalog::QualifiedName;
use sqlsurge::diag::DiagnosticKind;
use sqlsurge::diag::Severity;
use sqlsurge::diag::Span;
use sqlsurge::dialect::SqlDialect;
use sqlsurge::types::SqlType;

fn sp() -> Span {
    Span::new(0, 0)
}

fn id(s: &str) -> Ident {
    Ident { value: s.to_string(), span: sp() }
}

fn obj(name: &str) -> ObjectName {
    ObjectName(vec![id(name)])
}

fn plain_col(name: &str, ty: SqlType) -> ColumnSpec {
    ColumnSpec { name: id(name), data_type: ty, options: vec![] }
}

fn col_with(name: &str, ty: SqlType, options: Vec<ColumnOption>) -> ColumnSpec {
    ColumnSpec {
        name: id(name),
        data_type: ty,
        options: options.into_iter().map(|o| ColumnOptionSpec { name: None, option: o }).collect(),
    }
}

fn qname(name: &str) -> QualifiedName {
    QualifiedName::new(name.to_string())
}

#[test]
fn create_table_collects_columns_and_flags() {
    let stmt = Statement::CreateTable(CreateTable {
        name: obj("users"),
        columns: vec![
            col_with("id", SqlType::Integer, vec![ColumnOption::Unique { is_primary: true }]),
            col_with("name", SqlType::Varchar { length: Some(100) }, vec![ColumnOption::NotNull]),
            col_with("email", SqlType::Text, vec![ColumnOption::Unique { is_primary: false }]),
            col_with(
                "created_at",
                SqlType::Timestamp { precision: None, with_timezone: false },
                vec![ColumnOption::Default(DefaultExpr::FunctionCall {
                    name: "CURRENT_TIMESTAMP".to_string(),
                    display: "CURRENT_TIMESTAMP".to_string(),
                })],
            ),
        ],
        constraints: vec![],
    });
    let mut builder = SchemaBuilder::new();
    builder.process_statement(&stmt);
    let (catalog, diagnostics) = builder.build();
    assert!(diagnostics.is_empty());

    let table = catalog.get_table(&qname("users")).unwrap();
    assert_eq!(table.columns.len(), 4);

    let id_col = table.get_column("id").unwrap();
    assert!(!id_col.nullable);
    assert!(id_col.is_primary_key);

    let name_col = table.get_column("name").unwrap();
    assert!(!name_col.nullable);
    assert!(matches!(name_col.data_type, SqlType::Varchar { .. }));

    let email_col = table.get_column("email").unwrap();
    assert!(email_col.nullable);

    let created = table.get_column("created_at").unwrap();
    assert!(matches!(created.default, Some(DefaultValue::CurrentTimestamp)));
}

#[test]
fn create_table_records_table_constraints() {
    let stmt = Statement::CreateTable(CreateTable {
        name: obj("orders"),
        columns: vec![
            plain_col("id", SqlType::Integer),
            plain_col("user_id", SqlType::Integer),
        ],
        constraints: vec![
            TableConstraintSpec::PrimaryKey { name: None, columns: vec!["id".to_string()] },
            TableConstraintSpec::ForeignKey {
                name: Some("fk_user".to_string()),
                columns: vec!["user_id".to_string()],
                foreign_table: obj("users"),
                referred_columns: vec!["id".to_string()],
            },
            TableConstraintSpec::Unique { name: None, columns: vec!["user_id".to_string()] },
            TableConstraintSpec::Check {
                name: Some("positive".to_string()),
                expression: "id > 0".to_string(),
            },
        ],
    });
    let mut builder = SchemaBuilder::new();
    builder.process_statement(&stmt);
    let (catalog, _) = builder.build();
    let table = catalog.get_table(&qname("orders")).unwrap();
    assert!(table.primary_key.is_some());
    let id_col = table.get_column("id").unwrap();
    assert!(id_col.is_primary_key);
    assert!(!id_col.nullable);
    assert_eq!(table.foreign_keys.len(), 1);
    assert_eq!(table.foreign_keys[0].name.as_deref(), Some("fk_user"));
    assert_eq!(table.unique_constraints.len(), 1);
    assert_eq!(table.check_constraints.len(), 1);
    assert!(table.check_constraints[0].expression.contains("id"));
}

#[test]
fn identity_columns_are_not_nullable() {
    let stmt = Statement::CreateTable(CreateTable {
        name: obj("accounts"),
        columns: vec![col_with(
            "id",
            SqlType::Integer,
            vec![ColumnOption::Generated { kind: Some(IdentityKind::Always), has_expr: false }],
        )],
        constraints: vec![],
    });
    let mut builder = SchemaBuilder::new();
    builder.process_statement(&stmt);
    let (catalog, _) = builder.build();
    let table = catalog.get_table(&qname("accounts")).unwrap();
    let id_col = table.get_column("id").unwrap();
    assert!(!id_col.nullable, "IDENTITY column should be NOT NULL");
    assert!(matches!(id_col.identity, Some(IdentityKind::Always)));
}

#[test]
fn generated_expression_columns_are_not_identity() {
    let stmt = Statement::CreateTable(CreateTable {
        name: obj("t"),
        columns: vec![col_with(
            "doubled",
            SqlType::Integer,
            vec![ColumnOption::Generated { kind: Some(IdentityKind::Always), has_expr: true }],
        )],
        constraints: vec![],
    });
    let mut builder = SchemaBuilder::new();
    builder.process_statement(&stmt);
    let (catalog, _) = builder.build();
    let table = catalog.get_table(&qname("t")).unwrap();
    let c = table.get_column("doubled").unwrap();
    assert!(c.identity.is_none());
    assert!(c.nullable);
}

#[test]
fn default_expressions_are_classified() {
    let stmt = Statement::CreateTable(CreateTable {
        name: obj("t"),
        columns: vec![
            col_with("a", SqlType::Integer, vec![ColumnOption::Default(DefaultExpr::Value("4.99".to_string()))]),
            col_with("b", SqlType::Text, vec![ColumnOption::Default(DefaultExpr::Null)]),
            col_with(
                "c",
                SqlType::Integer,
                vec![ColumnOption::Default(DefaultExpr::FunctionCall {
                    name: "nextval".to_string(),
                    display: "nextval('t_c_seq')".to_string(),
                })],
            ),
            col_with(
                "d",
                SqlType::Timestamp { precision: None, with_timezone: false },
                vec![ColumnOption::Default(DefaultExpr::FunctionCall {
                    name: "now".to_string(),
                    display: "now()".to_string(),
                })],
            ),
            col_with(
                "e",
                SqlType::Integer,
                vec![ColumnOption::Default(DefaultExpr::FunctionCall {
                    name: "random".to_string(),
                    display: "random()".to_string(),
                })],
            ),
        ],
        constraints: vec![],
    });
    let mut builder = SchemaBuilder::new();
    builder.process_statement(&stmt);
    let (catalog, _) = builder.build();
    let table = catalog.get_table(&qname("t")).unwrap();
    assert!(matches!(table.get_column("a").unwrap().default, Some(DefaultValue::Literal(_))));
    assert!(matches!(table.get_column("b").unwrap().default, Some(DefaultValue::Null)));
    assert!(matches!(table.get_column("c").unwrap().default, Some(DefaultValue::NextVal(_))));
    assert!(matches!(table.get_column("d").unwrap().default, Some(DefaultValue::CurrentTimestamp)));
    assert!(matches!(table.get_column("e").unwrap().default, Some(DefaultValue::Expression(_))));
}

#[test]
fn create_type_records_enum_values() {
    let stmt = Statement::CreateType(CreateType {
        name: obj("status"),
        representation: TypeRepresentation::Enum(vec![
            "active".to_string(),
            "inactive".to_string(),
            "pending".to_string(),
        ]),
    });
    let mut builder = SchemaBuilder::new();
    builder.process_statement(&stmt);
    let (catalog, _) = builder.build();
    let enum_def = catalog.get_enum("status").unwrap();
    assert_eq!(enum_def.values, vec!["active", "inactive", "pending"]);
    assert!(catalog.enum_exists("status"));
    assert!(!catalog.enum_exists("nonexistent"));
}

#[test]
fn create_view_uses_explicit_columns() {
    let mut builder = SchemaBuilder::new();
    builder.process_statement(&users_table());
    let stmt = Statement::CreateView(CreateView {
        name: obj("user_info"),
        columns: vec![id("user_id"), id("user_name")],
        query: Box::new(select_query(vec![
            SelectItem::Expr(Expr::Ident(id("id"))),
            SelectItem::Expr(Expr::Ident(id("name"))),
        ])),
        materialized: false,
    });
    builder.process_statement(&stmt);
    let (catalog, _) = builder.build();
    let view = catalog.get_view(&qname("user_info")).unwrap();
    assert_eq!(view.columns, vec!["user_id", "user_name"]);
    assert!(!view.materialized);
}

fn users_table() -> Statement {
    Statement::CreateTable(CreateTable {
        name: obj("users"),
        columns: vec![
            plain_col("id", SqlType::Integer),
            plain_col("name", SqlType::Text),
            plain_col("email", SqlType::Text),
        ],
        constraints: vec![],
    })
}

fn select_query(projection: Vec<SelectItem>) -> Query {
    Query {
        with: None,
        body: SetExpr::Select(Box::new(Select {
            projection,
            from: vec![TableWithJoins {
                relation: TableFactor::Table { name: obj("users"), alias: None, has_args: false },
                joins: vec![],
            }],
            selection: None,
            group_by: vec![],
            having: None,
        })),
        order_by: vec![],
    }
}

#[test]
fn create_view_infers_columns_from_projection() {
    let mut builder = SchemaBuilder::new();
    builder.process_statement(&users_table());
    let stmt = Statement::CreateView(CreateView {
        name: obj("v"),
        columns: vec![],
        query: Box::new(select_query(vec![
            SelectItem::Expr(Expr::Ident(id("id"))),
            SelectItem::ExprWithAlias { expr: Expr::Ident(id("name")), alias: id("who") },
            SelectItem::Expr(Expr::Literal(Lit::Number("1".to_string()))),
        ])),
        materialized: false,
    });
    builder.process_statement(&stmt);
    let (catalog, _) = builder.build();
    let view = catalog.get_view(&qname("v")).unwrap();
    assert_eq!(view.columns, vec!["id", "who", "?column?3"]);
}

#[test]
fn create_view_expands_wildcards_from_catalog() {
    let mut builder = SchemaBuilder::new();
    builder.process_statement(&users_table());
    let stmt = Statement::CreateView(CreateView {
        name: obj("v"),
        columns: vec![],
        query: Box::new(select_query(vec![SelectItem::Wildcard])),
        materialized: false,
    });
    builder.process_statement(&stmt);
    let (catalog, _) = builder.build();
    let view = catalog.get_view(&qname("v")).unwrap();
    assert_eq!(view.columns, vec!["id", "name", "email"]);
}

#[test]
fn alter_table_add_and_drop_and_rename_column() {
    let mut builder = SchemaBuilder::new();
    builder.process_statement(&users_table());
    builder.process_statement(&Statement::AlterTable(AlterTable {
        name: obj("users"),
        operations: vec![AlterTableOperation::AddColumn(plain_col("age", SqlType::Integer))],
    }));
    builder.process_statement(&Statement::AlterTable(AlterTable {
        name: obj("users"),
        operations: vec![AlterTableOperation::DropColumn(id("email"))],
    }));
    builder.process_statement(&Statement::AlterTable(AlterTable {
        name: obj("users"),
        operations: vec![AlterTableOperation::RenameColumn {
            old_name: id("name"),
            new_name: id("full_name"),
        }],
    }));
    let (catalog, diagnostics) = builder.build();
    assert!(diagnostics.is_empty());
    let table = catalog.get_table(&qname("users")).unwrap();
    assert!(table.get_column("age").is_some());
    assert!(table.get_column("email").is_none());
    assert!(table.get_column("name").is_none());
    assert!(table.get_column("full_name").is_some());
    assert_eq!(table.columns.len(), 3);
}

#[test]
fn alter_table_rename_table() {
    let mut builder = SchemaBuilder::new();
    builder.process_statement(&users_table());
    builder.process_statement(&Statement::AlterTable(AlterTable {
        name: obj("users"),
        operations: vec![AlterTableOperation::RenameTable(obj("people"))],
    }));
    let (catalog, _) = builder.build();
    assert!(catalog.table_exists(&qname("people")));
    assert!(!catalog.table_exists(&qname("users")));
}

#[test]
fn test_alter_table_nonexistent_warns() {
    let mut builder = SchemaBuilder::new();
    builder.process_statement(&Statement::AlterTable(AlterTable {
        name: obj("nonexistent"),
        operations: vec![AlterTableOperation::AddColumn(plain_col("foo", SqlType::Text))],
    }));
    assert!(!builder.has_errors(), "the warning must not count as an error");
    let (_, diagnostics) = builder.build();
    assert!(
        diagnostics.iter().any(|d| d.kind == DiagnosticKind::TableNotFound),
        "Should warn about nonexistent table: {:?}",
        diagnostics
    );
    assert!(diagnostics.iter().all(|d| d.severity == Severity::Warning));
}

#[test]
fn mysql_dialect_builder_uses_empty_default_schema() {
    let builder = SchemaBuilder::with_dialect(SqlDialect::MySQL);
    let (catalog, _) = builder.build();
    assert_eq!(catalog.default_schema, "");
}

#[test]
fn dialect_names_select_dialects() {
    assert!(matches!(SqlDialect::from_name("postgresql"), Ok(SqlDialect::PostgreSQL)));
    assert!(matches!(SqlDialect::from_name("PG"), Ok(SqlDialect::PostgreSQL)));
    assert!(matches!(SqlDialect::from_name("mysql8"), Ok(SqlDialect::MySQL)));
    assert!(SqlDialect::from_name("sqlite").is_err());
    assert!(SqlDialect::from_name("oracle").is_err());
    assert_eq!(SqlDialect::PostgreSQL.default_schema(), "public");
    assert_eq!(SqlDialect::MySQL.default_schema(), "");
}
