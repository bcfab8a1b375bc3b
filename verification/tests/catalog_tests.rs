use sqlsurge::catalog::Catalog;
use sqlsurge::catalog::ColumnDef;
use sqlsurge::catalog::QualifiedName;
use sqlsurge::catalog::TableDef;
use sqlsurge::types::SqlType;

#[test]
fn test_qualified_name_parse() {
    let name = QualifiedName::parse("users");
    assert_eq!(name.schema, None);
    assert_eq!(name.name, "users");

    let name = QualifiedName::parse("public.users");
    assert_eq!(name.schema, Some("public".to_string()));
    assert_eq!(name.name, "users");
}

#[test]
fn test_catalog_add_table() {
    let mut catalog = Catalog::new();
    let table = TableDef::new(QualifiedName::new("users".to_string()));
    catalog.add_table(table);

    assert!(catalog.table_exists(&QualifiedName::new("users".to_string())));
    assert!(catalog.table_exists(&QualifiedName::with_schema(
        "public".to_string(),
        "users".to_string()
    )));
}

#[test]
fn qualified_name_renders_with_and_without_schema() {
    let bare = QualifiedName::new("users".to_string());
    assert_eq!(bare.render(), "users");
    let qualified = QualifiedName::with_schema("public".to_string(), "users".to_string());
    assert_eq!(qualified.render(), "public.users");
}

#[test]
fn column_lookup_is_case_insensitive() {
    let mut table = TableDef::new(QualifiedName::new("users".to_string()));
    table.upsert_column(ColumnDef::new("UserID".to_string(), SqlType::Integer));
    assert!(table.column_exists("userid"));
    assert!(table.column_exists("USERID"));
    assert!(table.column_exists("UserID"));
    assert!(!table.column_exists("user_id"));
    let col = table.get_column("userid").unwrap();
    assert_eq!(col.name, "UserID");
}

#[test]
fn column_builders_set_flags() {
    let col = ColumnDef::new("id".to_string(), SqlType::Integer);
    assert!(col.nullable);
    assert!(!col.is_primary_key);
    let col = col.primary_key();
    assert!(!col.nullable);
    assert!(col.is_primary_key);
    let col = ColumnDef::new("name".to_string(), SqlType::Text).not_null();
    assert!(!col.nullable);
}

#[test]
fn add_table_replaces_same_name_in_place() {
    let mut catalog = Catalog::new();
    let mut t1 = TableDef::new(QualifiedName::new("users".to_string()));
    t1.upsert_column(ColumnDef::new("id".to_string(), SqlType::Integer));
    catalog.add_table(t1);
    let mut t2 = TableDef::new(QualifiedName::new("users".to_string()));
    t2.upsert_column(ColumnDef::new("id".to_string(), SqlType::Integer));
    t2.upsert_column(ColumnDef::new("name".to_string(), SqlType::Text));
    catalog.add_table(t2);

    let t = catalog.get_table(&QualifiedName::new("users".to_string())).unwrap();
    assert_eq!(t.columns.len(), 2);
    assert_eq!(catalog.schemas.len(), 1);
    assert_eq!(catalog.schemas[0].tables.len(), 1);
}

#[test]
fn tables_in_other_schemas_get_their_own_namespace() {
    let mut catalog = Catalog::new();
    catalog.add_table(TableDef::new(QualifiedName::with_schema(
        "audit".to_string(),
        "log".to_string(),
    )));
    assert!(catalog.table_exists(&QualifiedName::with_schema(
        "audit".to_string(),
        "log".to_string()
    )));
    assert!(!catalog.table_exists(&QualifiedName::new("log".to_string())));
    assert_eq!(catalog.schemas.len(), 2);
}
