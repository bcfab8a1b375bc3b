use sqlsurge::splitter::find_dollar_tag_end;
use sqlsurge::splitter::split_sql_statements;

#[test]
fn test_split_sql_statements() {
    let sql = "CREATE TABLE a (id INT); CREATE TABLE b (id INT);";
    let stmts = split_sql_statements(sql);
    assert_eq!(stmts.len(), 2);
}

#[test]
fn test_split_preserves_string_literals() {
    let sql = "SELECT 'hello; world'; CREATE TABLE t (id INT);";
    let stmts = split_sql_statements(sql);
    assert_eq!(stmts.len(), 2);
    assert!(stmts[0].contains("hello; world"));
}

#[test]
fn split_respects_dollar_quoted_blocks() {
    let sql = "CREATE FUNCTION f() RETURNS TRIGGER AS $$ BEGIN; RETURN NEW; END; $$ LANGUAGE plpgsql; CREATE TABLE t (id INT);";
    let stmts = split_sql_statements(sql);
    assert_eq!(stmts.len(), 2);
    assert!(stmts[0].contains("RETURN NEW"));
}

#[test]
fn split_respects_tagged_dollar_quotes() {
    let sql = "SELECT $tag$a;b$tag$; SELECT 2;";
    let stmts = split_sql_statements(sql);
    assert_eq!(stmts.len(), 2);
    assert!(stmts[0].contains("a;b"));
}

#[test]
fn split_skips_comments() {
    let sql = "SELECT 1; -- trailing; comment\nSELECT 2; /* block; comment */ SELECT 3;";
    let stmts = split_sql_statements(sql);
    assert_eq!(stmts.len(), 3);
}

#[test]
fn split_drops_whitespace_only_pieces() {
    let sql = "  ;  SELECT 1;   ";
    let stmts = split_sql_statements(sql);
    assert_eq!(stmts.len(), 1);
    assert!(stmts[0].contains("SELECT 1"));
}

#[test]
fn split_keeps_last_statement_without_semicolon() {
    let sql = "SELECT 1; SELECT 2";
    let stmts = split_sql_statements(sql);
    assert_eq!(stmts.len(), 2);
    assert!(stmts[1].contains("SELECT 2"));
}

#[test]
fn split_handles_escaped_quotes() {
    let sql = "SELECT 'it''s; fine'; SELECT 2;";
    let stmts = split_sql_statements(sql);
    assert_eq!(stmts.len(), 2);
    assert!(stmts[0].contains("it''s; fine"));
}

#[test]
fn dollar_tag_end_finds_simple_and_tagged_forms() {
    assert_eq!(find_dollar_tag_end("$$x$$", 0), Some(1));
    assert_eq!(find_dollar_tag_end("$tag$x$tag$", 0), Some(4));
    assert_eq!(find_dollar_tag_end("$ not a tag", 0), None);
    assert_eq!(find_dollar_tag_end("$tag-bad$", 0), None);
}
