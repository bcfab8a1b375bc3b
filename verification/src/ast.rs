//! The abstract syntax of SQL statements, as the analysis stages consume
//! it.
//!
//! A front end produces these values from SQL text.  The tree keeps
//! exactly what the analyses read: identifiers with their source spans,
//! the clause structure of queries, and, for data definition statements,
//! column and constraint descriptions with the data types already mapped
//! to [`SqlType`].  Expression forms whose children are name-resolved but
//! carry no type information of their own (function calls, LIKE patterns,
//! casts, tuples and the like) appear as [`Expr::Other`] over their child
//! expressions.

use vstd::prelude::*;

verus! {

use crate::catalog::IdentityKind;
use crate::diag::Span;
use crate::types::SqlType;

/// An identifier with its source span.
#[derive(Debug)]
pub struct Ident {
    pub value: String,
    pub span: Span,
}

/// A possibly multi-part object name, such as `schema.table`.
#[derive(Debug)]
pub struct ObjectName(pub Vec<Ident>);

/// A literal value.
#[derive(Debug)]
pub enum Lit {
    /// A numeric literal, kept as written.
    Number(String),
    /// A quoted string literal.
    Str(String),
    /// A boolean literal.
    Bool(bool),
    /// The NULL literal.
    Null,
    /// Any other literal form.
    Other,
}

/// A binary operator, as far as the analyses distinguish them.
#[derive(Debug, Clone, Copy, PartialEq, Eq, Structural)]
pub enum BinOp {
    Eq,
    NotEq,
    Lt,
    LtEq,
    Gt,
    GtEq,
    Plus,
    Minus,
    Multiply,
    Divide,
    Modulo,
    And,
    Or,
    StringConcat,
    Other,
}

/// An expression.
#[derive(Debug)]
pub enum Expr {
    /// A literal value.
    Literal(Lit),
    /// An unqualified column reference.
    Ident(Ident),
    /// A compound reference: `table.column` or `schema.table.column`.
    CompoundIdent(Vec<Ident>),
    /// A binary operation; the operand spans anchor type diagnostics.
    Binary { left: Box<Expr>, op: BinOp, right: Box<Expr>, left_span: Span, right_span: Span },
    /// A unary operation.
    Unary(Box<Expr>),
    /// A parenthesized expression.
    Nested(Box<Expr>),
    /// `expr IN (e1, e2, ...)`.
    InList { expr: Box<Expr>, list: Vec<Expr> },
    /// `expr BETWEEN low AND high`.
    Between { expr: Box<Expr>, low: Box<Expr>, high: Box<Expr> },
    /// A CASE expression.
    Case {
        operand: Option<Box<Expr>>,
        conditions: Vec<Expr>,
        results: Vec<Expr>,
        else_result: Option<Box<Expr>>,
    },
    /// A scalar subquery, or the subquery of IN/EXISTS; it resolves in an
    /// isolated scope that sees the enclosing relations.
    Subquery(Box<Query>),
    /// Any other expression form: its children are name-resolved, and no
    /// type is inferred for the whole.
    Other(Vec<Expr>),
}

/// One CTE of a WITH clause.
#[derive(Debug)]
pub struct Cte {
    pub name: Ident,
    pub columns: Vec<Ident>,
    pub query: Box<Query>,
}

/// A WITH clause.
#[derive(Debug)]
pub struct With {
    pub recursive: bool,
    pub ctes: Vec<Cte>,
}

/// A query: optional WITH clause, a body, and ORDER BY expressions.
#[derive(Debug)]
pub struct Query {
    pub with: Option<With>,
    pub body: SetExpr,
    pub order_by: Vec<Expr>,
}

/// The body of a query.
#[derive(Debug)]
pub enum SetExpr {
    Select(Box<Select>),
    Query(Box<Query>),
    SetOperation { left: Box<SetExpr>, right: Box<SetExpr> },
    Values(Vec<Vec<Expr>>),
    Other,
}

/// A SELECT statement.
#[derive(Debug)]
pub struct Select {
    pub projection: Vec<SelectItem>,
    pub from: Vec<TableWithJoins>,
    pub selection: Option<Expr>,
    pub group_by: Vec<Expr>,
    pub having: Option<Expr>,
}

/// One item of a SELECT projection.
#[derive(Debug)]
pub enum SelectItem {
    Expr(Expr),
    ExprWithAlias { expr: Expr, alias: Ident },
    Wildcard,
    QualifiedWildcard(Vec<Ident>),
}

/// A table alias with optional column aliases.
#[derive(Debug)]
pub struct TableAlias {
    pub name: Ident,
    pub columns: Vec<Ident>,
}

/// One relation of a FROM clause.
#[derive(Debug)]
pub enum TableFactor {
    /// A named table, view or CTE reference; `has_args` marks a
    /// table-valued function call written in table position.
    Table { name: ObjectName, alias: Option<TableAlias>, has_args: bool },
    /// A derived table: a subquery in FROM, LATERAL or not.
    Derived { lateral: bool, subquery: Box<Query>, alias: Option<TableAlias> },
    /// A table-valued function.
    TableFunction { alias: Option<TableAlias> },
    /// Any other relation form.
    Other,
}

/// The kind of a join, as far as the analyses distinguish them.
#[derive(Debug, Clone, Copy, PartialEq, Eq, Structural)]
pub enum JoinKind {
    Inner,
    LeftOuter,
    RightOuter,
    FullOuter,
    LeftSemi,
    RightSemi,
    LeftAnti,
    RightAnti,
    /// A join without a checkable condition: CROSS, APPLY, AS OF.
    Unconstrained,
}

/// The constraint of a join.
#[derive(Debug)]
pub enum JoinConstraint {
    On(Expr),
    Using(Vec<Ident>),
    Natural,
    Unconditioned,
}

/// One join of a FROM item.
#[derive(Debug)]
pub struct Join {
    pub relation: TableFactor,
    pub kind: JoinKind,
    pub constraint: JoinConstraint,
}

/// A FROM item: a relation with its chain of joins.
#[derive(Debug)]
pub struct TableWithJoins {
    pub relation: TableFactor,
    pub joins: Vec<Join>,
}

/// An INSERT statement.
#[derive(Debug)]
pub struct Insert {
    pub table_name: ObjectName,
    pub columns: Vec<Ident>,
    pub source: Option<Box<Query>>,
}

/// The target of one SET assignment.
#[derive(Debug)]
pub enum AssignTarget {
    Column(Vec<Ident>),
    Tuple,
}

/// One SET assignment of an UPDATE statement.
#[derive(Debug)]
pub struct Assignment {
    pub target: AssignTarget,
    pub value: Expr,
}

/// An UPDATE statement.
#[derive(Debug)]
pub struct Update {
    pub table: TableWithJoins,
    pub assignments: Vec<Assignment>,
    pub from: Option<TableWithJoins>,
    pub selection: Option<Expr>,
}

/// A DELETE statement.
#[derive(Debug)]
pub struct Delete {
    pub from: Vec<TableWithJoins>,
    pub using: Vec<TableWithJoins>,
    pub selection: Option<Expr>,
}

/// The default expression of a column, as far as the builder reads it.
#[derive(Debug)]
pub enum DefaultExpr {
    /// The NULL literal.
    Null,
    /// Another literal value, rendered as text.
    Value(String),
    /// A function call: its name, and its full rendering.
    FunctionCall { name: String, display: String },
    /// Any other expression, rendered as text.
    Other(String),
}

/// One option of a column definition.
#[derive(Debug)]
pub enum ColumnOption {
    Null,
    NotNull,
    Default(DefaultExpr),
    Unique { is_primary: bool },
    Check(String),
    /// `GENERATED ... AS IDENTITY` when `has_expr` is false; a generated
    /// expression column when true.
    Generated { kind: Option<IdentityKind>, has_expr: bool },
    Other,
}

/// A named column option.
#[derive(Debug)]
pub struct ColumnOptionSpec {
    pub name: Option<String>,
    pub option: ColumnOption,
}

/// One column of a CREATE TABLE or ADD COLUMN.
#[derive(Debug)]
pub struct ColumnSpec {
    pub name: Ident,
    pub data_type: SqlType,
    pub options: Vec<ColumnOptionSpec>,
}

/// A table-level constraint.
#[derive(Debug)]
pub enum TableConstraintSpec {
    PrimaryKey { name: Option<String>, columns: Vec<String> },
    ForeignKey {
        name: Option<String>,
        columns: Vec<String>,
        foreign_table: ObjectName,
        referred_columns: Vec<String>,
    },
    Unique { name: Option<String>, columns: Vec<String> },
    Check { name: Option<String>, expression: String },
    Other,
}

/// A CREATE TABLE statement.
#[derive(Debug)]
pub struct CreateTable {
    pub name: ObjectName,
    pub columns: Vec<ColumnSpec>,
    pub constraints: Vec<TableConstraintSpec>,
}

/// A CREATE VIEW statement.
#[derive(Debug)]
pub struct CreateView {
    pub name: ObjectName,
    pub columns: Vec<Ident>,
    pub query: Box<Query>,
    pub materialized: bool,
}

/// The representation of a CREATE TYPE statement.
#[derive(Debug)]
pub enum TypeRepresentation {
    Enum(Vec<String>),
    Other,
}

/// A CREATE TYPE statement.
#[derive(Debug)]
pub struct CreateType {
    pub name: ObjectName,
    pub representation: TypeRepresentation,
}

/// One operation of an ALTER TABLE statement.
#[derive(Debug)]
pub enum AlterTableOperation {
    AddColumn(ColumnSpec),
    DropColumn(Ident),
    RenameColumn { old_name: Ident, new_name: Ident },
    RenameTable(ObjectName),
    AddConstraint(TableConstraintSpec),
    Other,
}

/// An ALTER TABLE statement.
#[derive(Debug)]
pub struct AlterTable {
    pub name: ObjectName,
    pub operations: Vec<AlterTableOperation>,
}

/// A statement.
#[derive(Debug)]
pub enum Statement {
    Query(Box<Query>),
    Insert(Insert),
    Update(Update),
    Delete(Delete),
    CreateTable(CreateTable),
    CreateView(CreateView),
    CreateType(CreateType),
    AlterTable(AlterTable),
    /// Any statement the analyses do not look into.
    Other,
}

} // verus!
