//! The schema catalog: schemas, tables, views, enum types, columns and
//! constraints.  Built once per analysis run, then read-only for every
//! resolver.
//!
//! All name-to-definition containers preserve insertion order, and an
//! insert under an existing key replaces the value in place.  Table and
//! view names match case-sensitively; column lookup is ASCII
//! case-insensitive.

use vstd::prelude::*;

verus! {

use crate::seqx::find_idx;
use crate::seqx::lemma_find_idx;
use crate::seqx::lemma_find_idx_at;
use crate::strutil::eq_ignore_case;
use crate::strutil::str_eq;
use crate::strutil::str_ieq;
use crate::types::SqlType;


/// Predicate: a character equals `c`.
pub open spec fn char_eq_pred(c: char) -> spec_fn(char) -> bool {
    |x: char| x == c
}

/// Predicate: a schema has exactly this name.
pub open spec fn schema_name_pred(name: Seq<char>) -> spec_fn(Schema) -> bool {
    |s: Schema| s.name@ == name
}

/// Predicate: a table has exactly this (unqualified) name.
pub open spec fn table_name_pred(name: Seq<char>) -> spec_fn(TableDef) -> bool {
    |t: TableDef| t.name.name@ == name
}

/// Predicate: a view has exactly this (unqualified) name.
pub open spec fn view_name_pred(name: Seq<char>) -> spec_fn(ViewDef) -> bool {
    |v: ViewDef| v.name.name@ == name
}

/// Predicate: an enum type has exactly this name.
pub open spec fn enum_name_pred(name: Seq<char>) -> spec_fn(EnumTypeDef) -> bool {
    |e: EnumTypeDef| e.name@ == name
}

/// Predicate: a column has this name up to ASCII case.
pub open spec fn col_ieq_pred(name: Seq<char>) -> spec_fn(ColumnDef) -> bool {
    |c: ColumnDef| str_ieq(c.name@, name)
}

/// Predicate: a column has exactly this name.
pub open spec fn col_exact_pred(name: Seq<char>) -> spec_fn(ColumnDef) -> bool {
    |c: ColumnDef| c.name@ == name
}

/// An optionally schema-qualified name: `schema.name` or bare `name`.
#[derive(Debug)]
pub struct QualifiedName {
    pub schema: Option<String>,
    pub name: String,
}

/// Mathematical model of a [`QualifiedName`].
pub struct QNameModel {
    pub schema: Option<Seq<char>>,
    pub name: Seq<char>,
}

impl View for QualifiedName {
    type V = QNameModel;

    open spec fn view(&self) -> QNameModel {
        QNameModel {
            schema: match self.schema {
                Option::Some(s) => Option::Some(s@),
                Option::None => Option::None,
            },
            name: self.name@,
        }
    }
}

/// The display rendering of a qualified name: `schema.name` or `name`.
pub open spec fn spec_qname_render(q: QNameModel) -> Seq<char> {
    match q.schema {
        Option::Some(s) => s + "."@ + q.name,
        Option::None => q.name,
    }
}

impl QualifiedName {
    /// A bare name without schema.
    pub fn new(name: String) -> (q: QualifiedName)
        ensures
            q.schema is None,
            q.name == name,
    {
        QualifiedName { schema: None, name }
    }

    /// A schema-qualified name.
    pub fn with_schema(schema: String, name: String) -> (q: QualifiedName)
        ensures
            q.schema == Option::Some(schema),
            q.name == name,
    {
        QualifiedName { schema: Some(schema), name }
    }

    /// Parse a dotted name, splitting at the first dot: `schema.table`
    /// yields both parts, a dotless string is a bare name.
    pub fn parse(s: &str) -> (q: QualifiedName)
        ensures
            ({
                let dot = find_idx(s@, char_eq_pred('.'));
                if dot == -1 {
                    q@.schema is None && q@.name == s@
                } else {
                    q@.schema == Option::Some(s@.take(dot)) && q@.name == s@.skip(dot + 1)
                }
            }),
    {
        let chars = crate::strutil::chars_of(s);
        let n = chars.len();
        let ghost p = char_eq_pred('.');
        let mut i: usize = 0;
        while i < n
            invariant
                n == chars.len(),
                chars@ == s@,
                i <= n,
                forall|j: int| 0 <= j < i ==> !p(s@[j]),
            decreases n - i,
        {
            if chars[i] == '.' {
                proof {
                    assert(p(s@[i as int]));
                    lemma_find_idx_at(s@, p, i as int);
                }
                let schema = s.substring_char(0, i).to_owned();
                let name = s.substring_char(i + 1, n).to_owned();
                let q = QualifiedName { schema: Some(schema), name };
                proof {
                    assert(q@.schema == Option::Some(s@.subrange(0, i as int)));
                    assert(s@.subrange(0, i as int) =~= s@.take(i as int));
                    assert(s@.subrange(i + 1, n as int) =~= s@.skip(i + 1));
                }
                return q;
            }
            proof {
                assert(chars@[i as int] != '.');
                assert(!p(s@[i as int]));
            }
            i += 1;
        }
        proof {
            lemma_find_idx_at(s@, p, n as int);
        }
        QualifiedName { schema: None, name: s.to_owned() }
    }

    /// The display rendering, `schema.name` or `name`.
    pub fn render(&self) -> (r: String)
        ensures
            r@ == spec_qname_render(self@),
    {
        match &self.schema {
            Some(schema) => {
                let mut r = schema.clone();
                r.append(".");
                r.append(self.name.as_str());
                proof {
                    assert(r@ =~= spec_qname_render(self@));
                }
                r
            }
            None => self.name.clone(),
        }
    }
}

impl Clone for QualifiedName {
    fn clone(&self) -> (r: Self)
        ensures
            r == *self,
    {
        QualifiedName {
            schema: match &self.schema {
                Some(s) => Some(s.clone()),
                None => None,
            },
            name: self.name.clone(),
        }
    }
}

impl PartialEq for QualifiedName {
    fn eq(&self, other: &QualifiedName) -> (r: bool) {
        let schema_eq = match (&self.schema, &other.schema) {
            (Some(a), Some(b)) => str_eq(a.as_str(), b.as_str()),
            (None, None) => true,
            _ => false,
        };
        schema_eq && str_eq(self.name.as_str(), other.name.as_str())
    }
}

impl vstd::std_specs::cmp::PartialEqSpecImpl for QualifiedName {
    open spec fn obeys_eq_spec() -> bool {
        true
    }

    open spec fn eq_spec(&self, other: &QualifiedName) -> bool {
        self@ == other@
    }
}

impl Eq for QualifiedName {

}

/// Default value recorded for a column.
#[derive(Debug)]
pub enum DefaultValue {
    Literal(String),
    Expression(String),
    CurrentTimestamp,
    Null,
    NextVal(String),
}

impl Clone for DefaultValue {
    fn clone(&self) -> (r: Self)
        ensures
            r == *self,
    {
        match self {
            DefaultValue::Literal(s) => DefaultValue::Literal(s.clone()),
            DefaultValue::Expression(s) => DefaultValue::Expression(s.clone()),
            DefaultValue::CurrentTimestamp => DefaultValue::CurrentTimestamp,
            DefaultValue::Null => DefaultValue::Null,
            DefaultValue::NextVal(s) => DefaultValue::NextVal(s.clone()),
        }
    }
}

/// Identity column kind, `GENERATED ... AS IDENTITY`.
#[derive(Debug, Clone, Copy, PartialEq, Eq, Structural)]
pub enum IdentityKind {
    Always,
    ByDefault,
}

/// A column definition.
#[derive(Debug)]
pub struct ColumnDef {
    pub name: String,
    pub data_type: SqlType,
    pub nullable: bool,
    pub default: Option<DefaultValue>,
    pub is_primary_key: bool,
    pub identity: Option<IdentityKind>,
}

impl ColumnDef {
    /// A fresh nullable column without default, key or identity.
    pub fn new(name: String, data_type: SqlType) -> (c: ColumnDef)
        ensures
            c == (ColumnDef {
                name,
                data_type,
                nullable: true,
                default: Option::None,
                is_primary_key: false,
                identity: Option::None,
            }),
    {
        ColumnDef { name, data_type, nullable: true, default: None, is_primary_key: false, identity: None }
    }

    /// The same column marked NOT NULL.
    pub fn not_null(self) -> (c: ColumnDef)
        ensures
            c == (ColumnDef { nullable: false, ..self }),
    {
        ColumnDef { nullable: false, ..self }
    }

    /// The same column with a default value.
    pub fn with_default(self, default: DefaultValue) -> (c: ColumnDef)
        ensures
            c == (ColumnDef { default: Option::Some(default), ..self }),
    {
        ColumnDef { default: Some(default), ..self }
    }

    /// The same column marked primary key, which also makes it NOT NULL.
    pub fn primary_key(self) -> (c: ColumnDef)
        ensures
            c == (ColumnDef { is_primary_key: true, nullable: false, ..self }),
    {
        ColumnDef { is_primary_key: true, nullable: false, ..self }
    }
}

impl Clone for ColumnDef {
    fn clone(&self) -> (r: Self)
        ensures
            r == *self,
    {
        ColumnDef {
            name: self.name.clone(),
            data_type: self.data_type.clone(),
            nullable: self.nullable,
            default: match &self.default {
                Some(d) => Some(d.clone()),
                None => None,
            },
            is_primary_key: self.is_primary_key,
            identity: self.identity,
        }
    }
}

/// Primary key constraint.
#[derive(Debug)]
pub struct PrimaryKeyDef {
    pub name: Option<String>,
    pub columns: Vec<String>,
}

/// Foreign key constraint.
#[derive(Debug)]
pub struct ForeignKeyDef {
    pub name: Option<String>,
    pub columns: Vec<String>,
    pub references_table: QualifiedName,
    pub references_columns: Vec<String>,
}

/// Unique constraint.
#[derive(Debug)]
pub struct UniqueConstraintDef {
    pub name: Option<String>,
    pub columns: Vec<String>,
}

/// CHECK constraint, carrying the rendered expression text.
#[derive(Debug)]
pub struct CheckConstraintDef {
    pub name: Option<String>,
    pub expression: String,
}

/// Enum type definition, `CREATE TYPE ... AS ENUM`.
#[derive(Debug)]
pub struct EnumTypeDef {
    pub name: String,
    pub values: Vec<String>,
}

/// View definition: the resolver consults only the exposed column list;
/// the view body is not re-validated when the view is referenced.
#[derive(Debug)]
pub struct ViewDef {
    pub name: QualifiedName,
    pub columns: Vec<String>,
    pub materialized: bool,
}

/// A table definition.  Column order is insertion order, which matters
/// for positional INSERT; column lookup is case-insensitive.
#[derive(Debug)]
pub struct TableDef {
    pub name: QualifiedName,
    pub columns: Vec<ColumnDef>,
    pub primary_key: Option<PrimaryKeyDef>,
    pub foreign_keys: Vec<ForeignKeyDef>,
    pub unique_constraints: Vec<UniqueConstraintDef>,
    pub check_constraints: Vec<CheckConstraintDef>,
}

/// The index of the first column whose name equals `name` up to ASCII
/// case, or -1.
pub open spec fn spec_col_idx(cols: Seq<ColumnDef>, name: Seq<char>) -> int {
    find_idx(cols, col_ieq_pred(name))
}

/// The first column matching `name` case-insensitively.
pub open spec fn spec_get_column(t: TableDef, name: Seq<char>) -> Option<ColumnDef> {
    let i = spec_col_idx(t.columns@, name);
    if i == -1 {
        Option::None
    } else {
        Option::Some(t.columns@[i])
    }
}

/// Whether the table has a column of this name, up to ASCII case.
pub open spec fn spec_column_exists(t: TableDef, name: Seq<char>) -> bool {
    spec_get_column(t, name) is Some
}

/// The index of the first column whose name equals `name` exactly, or -1.
pub open spec fn spec_col_idx_exact(cols: Seq<ColumnDef>, name: Seq<char>) -> int {
    find_idx(cols, col_exact_pred(name))
}

impl TableDef {
    /// A fresh table without columns or constraints.
    pub fn new(name: QualifiedName) -> (t: TableDef)
        ensures
            t.name == name,
            t.columns@ =~= Seq::<ColumnDef>::empty(),
            t.primary_key is None,
            t.foreign_keys@ =~= Seq::<ForeignKeyDef>::empty(),
            t.unique_constraints@ =~= Seq::<UniqueConstraintDef>::empty(),
            t.check_constraints@ =~= Seq::<CheckConstraintDef>::empty(),
    {
        TableDef {
            name,
            columns: Vec::new(),
            primary_key: None,
            foreign_keys: Vec::new(),
            unique_constraints: Vec::new(),
            check_constraints: Vec::new(),
        }
    }

    /// The first column matching `name`, case-insensitively.
    pub fn get_column(&self, name: &str) -> (r: Option<&ColumnDef>)
        ensures
            match r {
                Option::Some(c) => spec_get_column(*self, name@) == Option::Some(*c),
                Option::None => spec_get_column(*self, name@) is None,
            },
    {
        let ghost p = col_ieq_pred(name@);
        let n = self.columns.len();
        let mut i: usize = 0;
        while i < n
            invariant
                n == self.columns.len(),
                i <= n,
                forall|j: int| 0 <= j < i ==> !p(self.columns@[j]),
            decreases n - i,
        {
            if eq_ignore_case(self.columns[i].name.as_str(), name) {
                proof {
                    lemma_find_idx_at(self.columns@, p, i as int);
                }
                return Some(&self.columns[i]);
            }
            i += 1;
        }
        proof {
            lemma_find_idx_at(self.columns@, p, n as int);
        }
        None
    }

    /// Whether a column of this name exists, case-insensitively.
    pub fn column_exists(&self, name: &str) -> (r: bool)
        ensures
            r == spec_column_exists(*self, name@),
    {
        self.get_column(name).is_some()
    }

    /// All column names, in declaration order.
    pub fn column_names(&self) -> (r: Vec<&str>)
        ensures
            r@.len() == self.columns@.len(),
            forall|i: int| 0 <= i < r@.len() ==> r@[i]@ == self.columns@[i].name@,
    {
        let n = self.columns.len();
        let mut r: Vec<&str> = Vec::new();
        let mut i: usize = 0;
        while i < n
            invariant
                n == self.columns.len(),
                i <= n,
                r@.len() == i,
                forall|j: int| 0 <= j < i ==> r@[j]@ == self.columns@[j].name@,
            decreases n - i,
        {
            r.push(self.columns[i].name.as_str());
            i += 1;
        }
        r
    }

    /// Insert a column: replace the column of exactly this name in place,
    /// else append.
    pub fn upsert_column(&mut self, col: ColumnDef)
        ensures
            ({
                let i = spec_col_idx_exact(old(self).columns@, col.name@);
                if i == -1 {
                    final(self).columns@ == old(self).columns@.push(col)
                } else {
                    final(self).columns@ == old(self).columns@.update(i, col)
                }
            }),
            final(self).name == old(self).name,
            final(self).primary_key == old(self).primary_key,
            final(self).foreign_keys == old(self).foreign_keys,
            final(self).unique_constraints == old(self).unique_constraints,
            final(self).check_constraints == old(self).check_constraints,
    {
        let ghost p = col_exact_pred(col.name@);
        let n = self.columns.len();
        let mut i: usize = 0;
        while i < n
            invariant
                n == self.columns.len(),
                i <= n,
                *self == *old(self),
                forall|j: int| 0 <= j < i ==> !p(self.columns@[j]),
            decreases n - i,
        {
            if str_eq(self.columns[i].name.as_str(), col.name.as_str()) {
                proof {
                    lemma_find_idx_at(self.columns@, p, i as int);
                }
                let _ = self.columns.remove(i);
                self.columns.insert(i, col);
                proof {
                    assert(final(self).columns@ =~= old(self).columns@.update(i as int, col));
                }
                return ;
            }
            i += 1;
        }
        proof {
            lemma_find_idx_at(self.columns@, p, n as int);
        }
        self.columns.push(col);
    }

    /// Remove the column of exactly this name, returning it; order of the
    /// remaining columns is preserved.
    pub fn remove_column_exact(&mut self, name: &str) -> (r: Option<ColumnDef>)
        ensures
            ({
                let i = spec_col_idx_exact(old(self).columns@, name@);
                if i == -1 {
                    final(self).columns@ == old(self).columns@ && r is None
                } else {
                    final(self).columns@ == old(self).columns@.remove(i) && r == Option::Some(
                        old(self).columns@[i],
                    )
                }
            }),
            final(self).name == old(self).name,
            final(self).primary_key == old(self).primary_key,
            final(self).foreign_keys == old(self).foreign_keys,
            final(self).unique_constraints == old(self).unique_constraints,
            final(self).check_constraints == old(self).check_constraints,
    {
        let ghost p = col_exact_pred(name@);
        let n = self.columns.len();
        let mut i: usize = 0;
        while i < n
            invariant
                n == self.columns.len(),
                i <= n,
                *self == *old(self),
                forall|j: int| 0 <= j < i ==> !p(self.columns@[j]),
            decreases n - i,
        {
            if str_eq(self.columns[i].name.as_str(), name) {
                proof {
                    lemma_find_idx_at(self.columns@, p, i as int);
                }
                let c = self.columns.remove(i);
                return Some(c);
            }
            i += 1;
        }
        proof {
            lemma_find_idx_at(self.columns@, p, n as int);
        }
        None
    }

    /// Mark every column named in `names` (exact match) as primary key and
    /// NOT NULL, in order.
    pub fn mark_primary_key_columns(&mut self, names: &Vec<String>)
        ensures
            final(self).columns@ == spec_mark_pk(old(self).columns@, str_views(names@)),
            final(self).name == old(self).name,
            final(self).primary_key == old(self).primary_key,
            final(self).foreign_keys == old(self).foreign_keys,
            final(self).unique_constraints == old(self).unique_constraints,
            final(self).check_constraints == old(self).check_constraints,
    {
        let m = names.len();
        let mut k: usize = 0;
        proof {
            assert(str_views(names@).take(0) =~= Seq::<Seq<char>>::empty());
        }
        while k < m
            invariant
                m == names.len(),
                k <= m,
                self.name == old(self).name,
                self.primary_key == old(self).primary_key,
                self.foreign_keys == old(self).foreign_keys,
                self.unique_constraints == old(self).unique_constraints,
                self.check_constraints == old(self).check_constraints,
                self.columns@ == spec_mark_pk(old(self).columns@, str_views(names@).take(k as int)),
            decreases m - k,
        {
            self.mark_one_pk(&names[k]);
            proof {
                lemma_mark_pk_snoc(old(self).columns@, str_views(names@).take(k as int), names@[k as int]@);
                assert(str_views(names@).take(k as int).push(names@[k as int]@) =~= str_views(
                    names@,
                ).take(k + 1));
            }
            k += 1;
        }
        proof {
            assert(str_views(names@).take(m as int) =~= str_views(names@));
        }
    }

    fn mark_one_pk(&mut self, name: &String)
        ensures
            final(self).columns@ == spec_mark_one_pk(old(self).columns@, name@),
            final(self).name == old(self).name,
            final(self).primary_key == old(self).primary_key,
            final(self).foreign_keys == old(self).foreign_keys,
            final(self).unique_constraints == old(self).unique_constraints,
            final(self).check_constraints == old(self).check_constraints,
    {
        let ghost p = col_exact_pred(name@);
        let n = self.columns.len();
        let mut i: usize = 0;
        while i < n
            invariant
                n == self.columns.len(),
                i <= n,
                *self == *old(self),
                forall|j: int| 0 <= j < i ==> !p(self.columns@[j]),
            decreases n - i,
        {
            if str_eq(self.columns[i].name.as_str(), name.as_str()) {
                proof {
                    lemma_find_idx_at(self.columns@, p, i as int);
                }
                let mut c = self.columns.remove(i);
                c.is_primary_key = true;
                c.nullable = false;
                self.columns.insert(i, c);
                proof {
                    assert(final(self).columns@ =~= spec_mark_one_pk(old(self).columns@, name@));
                }
                return ;
            }
            i += 1;
        }
        proof {
            lemma_find_idx_at(self.columns@, p, n as int);
        }
    }
}

/// The views of a sequence of strings.
pub open spec fn str_views(s: Seq<String>) -> Seq<Seq<char>> {
    Seq::new(s.len(), |i: int| s[i]@)
}

/// Mark the first column of exactly this name as primary key and NOT NULL.
pub open spec fn spec_mark_one_pk(cols: Seq<ColumnDef>, name: Seq<char>) -> Seq<ColumnDef> {
    let i = spec_col_idx_exact(cols, name);
    if i == -1 {
        cols
    } else {
        cols.update(
            i,
            (ColumnDef { is_primary_key: true, nullable: false, ..cols[i] }),
        )
    }
}

/// Mark each named column in turn as primary key and NOT NULL.
pub open spec fn spec_mark_pk(cols: Seq<ColumnDef>, names: Seq<Seq<char>>) -> Seq<ColumnDef>
    decreases names.len(),
{
    if names.len() == 0 {
        cols
    } else {
        spec_mark_pk(spec_mark_one_pk(cols, names[0]), names.drop_first())
    }
}

/// Folding one more name onto the end of a primary-key marking pass.
pub proof fn lemma_mark_pk_snoc(cols: Seq<ColumnDef>, names: Seq<Seq<char>>, name: Seq<char>)
    ensures
        spec_mark_pk(cols, names.push(name)) == spec_mark_one_pk(spec_mark_pk(cols, names), name),
    decreases names.len(),
{
    let pushed = names.push(name);
    assert(pushed.len() == names.len() + 1);
    if names.len() == 0 {
        assert(pushed[0] == name);
        assert(pushed.drop_first() =~= Seq::<Seq<char>>::empty());
        assert(spec_mark_pk(cols, pushed) == spec_mark_pk(
            spec_mark_one_pk(cols, name),
            pushed.drop_first(),
        ));
        assert(spec_mark_pk(spec_mark_one_pk(cols, name), pushed.drop_first())
            == spec_mark_one_pk(cols, name));
        assert(spec_mark_pk(cols, names) == cols);
    } else {
        assert(pushed[0] == names[0]);
        assert(pushed.drop_first() =~= names.drop_first().push(name));
        assert(spec_mark_pk(cols, pushed) == spec_mark_pk(
            spec_mark_one_pk(cols, names[0]),
            names.drop_first().push(name),
        ));
        lemma_mark_pk_snoc(spec_mark_one_pk(cols, names[0]), names.drop_first(), name);
        assert(spec_mark_pk(cols, names) == spec_mark_pk(
            spec_mark_one_pk(cols, names[0]),
            names.drop_first(),
        ));
    }
}

/// The index of the first schema with this name, or -1.
pub open spec fn spec_schema_idx(schemas: Seq<Schema>, name: Seq<char>) -> int {
    find_idx(schemas, schema_name_pred(name))
}

/// The index of the first table with this (unqualified) name, or -1.
pub open spec fn spec_table_idx(tables: Seq<TableDef>, name: Seq<char>) -> int {
    find_idx(tables, table_name_pred(name))
}

/// The index of the first view with this (unqualified) name, or -1.
pub open spec fn spec_view_idx(views: Seq<ViewDef>, name: Seq<char>) -> int {
    find_idx(views, view_name_pred(name))
}

/// The index of the first enum type with this name, or -1.
pub open spec fn spec_enum_idx(enums: Seq<EnumTypeDef>, name: Seq<char>) -> int {
    find_idx(enums, enum_name_pred(name))
}

/// A database schema: a namespace of tables and views, insertion order
/// preserved.
#[derive(Debug)]
pub struct Schema {
    pub name: String,
    pub tables: Vec<TableDef>,
    pub views: Vec<ViewDef>,
}

/// The schema name a qualified name resolves in: its own schema part, or
/// the catalog's default schema.
pub open spec fn spec_schema_of(c: Catalog, q: QNameModel) -> Seq<char> {
    match q.schema {
        Option::Some(s) => s,
        Option::None => c.default_schema@,
    }
}

/// The table a qualified name denotes, if any.
pub open spec fn spec_get_table(c: Catalog, q: QNameModel) -> Option<TableDef> {
    let si = spec_schema_idx(c.schemas@, spec_schema_of(c, q));
    if si == -1 {
        Option::None
    } else {
        let ti = spec_table_idx(c.schemas@[si].tables@, q.name);
        if ti == -1 {
            Option::None
        } else {
            Option::Some(c.schemas@[si].tables@[ti])
        }
    }
}

/// The view a qualified name denotes, if any.
pub open spec fn spec_get_view(c: Catalog, q: QNameModel) -> Option<ViewDef> {
    let si = spec_schema_idx(c.schemas@, spec_schema_of(c, q));
    if si == -1 {
        Option::None
    } else {
        let vi = spec_view_idx(c.schemas@[si].views@, q.name);
        if vi == -1 {
            Option::None
        } else {
            Option::Some(c.schemas@[si].views@[vi])
        }
    }
}

/// The enum type of this name, if any.
pub open spec fn spec_get_enum(c: Catalog, name: Seq<char>) -> Option<EnumTypeDef> {
    let i = spec_enum_idx(c.enums@, name);
    if i == -1 {
        Option::None
    } else {
        Option::Some(c.enums@[i])
    }
}

/// The full in-memory schema: all schemas, a default schema name, and all
/// enum types.  A default schema entry always exists after construction.
#[derive(Debug)]
pub struct Catalog {
    pub schemas: Vec<Schema>,
    pub default_schema: String,
    pub enums: Vec<EnumTypeDef>,
}

impl Catalog {
    /// A fresh catalog whose default schema is `public`, already holding
    /// an empty `public` schema.
    pub fn new() -> (c: Catalog)
        ensures
            c.default_schema@ == "public"@,
            c.schemas@.len() == 1,
            c.schemas@[0].name@ == "public"@,
            c.schemas@[0].tables@ =~= Seq::<TableDef>::empty(),
            c.schemas@[0].views@ =~= Seq::<ViewDef>::empty(),
            c.enums@ =~= Seq::<EnumTypeDef>::empty(),
    {
        Catalog::with_default_schema(String::from_str("public"))
    }

    /// A fresh catalog with the given default schema name, already holding
    /// an empty schema of that name.
    pub fn with_default_schema(name: String) -> (c: Catalog)
        ensures
            c.default_schema == name,
            c.schemas@.len() == 1,
            c.schemas@[0].name == name,
            c.schemas@[0].tables@ =~= Seq::<TableDef>::empty(),
            c.schemas@[0].views@ =~= Seq::<ViewDef>::empty(),
            c.enums@ =~= Seq::<EnumTypeDef>::empty(),
    {
        let default_schema = name.clone();
        let schema = Schema { name, tables: Vec::new(), views: Vec::new() };
        let mut schemas: Vec<Schema> = Vec::new();
        schemas.push(schema);
        Catalog { schemas, default_schema, enums: Vec::new() }
    }

    /// The index of the schema of this name, creating an empty schema of
    /// that name at the end if absent.
    fn ensure_schema(&mut self, name: &String) -> (i: usize)
        ensures
            final(self).default_schema == old(self).default_schema,
            final(self).enums == old(self).enums,
            ({
                let si = spec_schema_idx(old(self).schemas@, name@);
                let olds = old(self).schemas@;
                let news = final(self).schemas@;
                if si == -1 {
                    &&& news.len() == olds.len() + 1
                    &&& forall|j: int| 0 <= j < olds.len() ==> news[j] == olds[j]
                    &&& i as int == olds.len()
                    &&& news[i as int].name == *name
                    &&& news[i as int].tables@ =~= Seq::<TableDef>::empty()
                    &&& news[i as int].views@ =~= Seq::<ViewDef>::empty()
                } else {
                    news == olds && i as int == si
                }
            }),
            (i as int) < final(self).schemas@.len(),
    {
        let ghost p = schema_name_pred(name@);
        let n = self.schemas.len();
        let mut i: usize = 0;
        while i < n
            invariant
                n == self.schemas.len(),
                i <= n,
                *self == *old(self),
                forall|j: int| 0 <= j < i ==> !p(self.schemas@[j]),
            decreases n - i,
        {
            if str_eq(self.schemas[i].name.as_str(), name.as_str()) {
                proof {
                    lemma_find_idx_at(self.schemas@, p, i as int);
                }
                return i;
            }
            i += 1;
        }
        proof {
            lemma_find_idx_at(self.schemas@, p, n as int);
        }
        let schema = Schema { name: name.clone(), tables: Vec::new(), views: Vec::new() };
        self.schemas.push(schema);
        n
    }

    /// Add a table under its schema (or the default schema), replacing any
    /// table of the same name in place.
    pub fn add_table(&mut self, table: TableDef)
        ensures
            spec_add_table_rel(*old(self), *final(self), table),
    {
        let schema_name: String = match &table.name.schema {
            Some(s) => s.clone(),
            None => self.default_schema.clone(),
        };
        let si = self.ensure_schema(&schema_name);
        let mut schema = self.schemas.remove(si);
        upsert_table(&mut schema.tables, table);
        self.schemas.insert(si, schema);
        proof {
            let sn = spec_schema_of(*old(self), table.name@);
            if spec_schema_idx(old(self).schemas@, sn) == -1 {
                assert(final(self).schemas@.last().tables@ =~= seq![table]);
                assert(forall|j: int|
                    0 <= j < old(self).schemas@.len() ==> final(self).schemas@[j] == old(
                        self,
                    ).schemas@[j]);
            } else {
                assert(forall|j: int|
                    0 <= j < old(self).schemas@.len() && j != spec_schema_idx(
                        old(self).schemas@,
                        sn,
                    ) ==> final(self).schemas@[j] == old(self).schemas@[j]);
            }
        }
    }

    /// Add a view under its schema (or the default schema), replacing any
    /// view of the same name in place.
    pub fn add_view(&mut self, view: ViewDef)
        ensures
            spec_add_view_rel(*old(self), *final(self), view),
    {
        let schema_name: String = match &view.name.schema {
            Some(s) => s.clone(),
            None => self.default_schema.clone(),
        };
        let si = self.ensure_schema(&schema_name);
        let mut schema = self.schemas.remove(si);
        upsert_view(&mut schema.views, view);
        self.schemas.insert(si, schema);
        proof {
            let sn = spec_schema_of(*old(self), view.name@);
            if spec_schema_idx(old(self).schemas@, sn) == -1 {
                assert(final(self).schemas@.last().views@ =~= seq![view]);
                assert(forall|j: int|
                    0 <= j < old(self).schemas@.len() ==> final(self).schemas@[j] == old(
                        self,
                    ).schemas@[j]);
            } else {
                assert(forall|j: int|
                    0 <= j < old(self).schemas@.len() && j != spec_schema_idx(
                        old(self).schemas@,
                        sn,
                    ) ==> final(self).schemas@[j] == old(self).schemas@[j]);
            }
        }
    }

    /// Add an enum type, replacing any enum of the same name in place.
    pub fn add_enum(&mut self, enum_def: EnumTypeDef)
        ensures
            final(self).default_schema == old(self).default_schema,
            final(self).schemas == old(self).schemas,
            final(self).enums@ == spec_upsert_enum(old(self).enums@, enum_def),
    {
        upsert_enum(&mut self.enums, enum_def);
    }

    /// Look up a table by qualified name.
    pub fn get_table(&self, name: &QualifiedName) -> (r: Option<&TableDef>)
        ensures
            match r {
                Option::Some(t) => spec_get_table(*self, name@) == Option::Some(*t),
                Option::None => spec_get_table(*self, name@) is None,
            },
    {
        let key: &String = match &name.schema {
            Some(s) => s,
            None => &self.default_schema,
        };
        let si = match self.find_schema(key) {
            Some(si) => si,
            None => {
                return None;
            }
        };
        let schema = &self.schemas[si];
        let ghost p = table_name_pred(name.name@);
        let n = schema.tables.len();
        let mut i: usize = 0;
        while i < n
            invariant
                n == schema.tables.len(),
                i <= n,
                forall|j: int| 0 <= j < i ==> !p(schema.tables@[j]),
            decreases n - i,
        {
            if str_eq(schema.tables[i].name.name.as_str(), name.name.as_str()) {
                proof {
                    lemma_find_idx_at(schema.tables@, p, i as int);
                }
                return Some(&schema.tables[i]);
            }
            i += 1;
        }
        proof {
            lemma_find_idx_at(schema.tables@, p, n as int);
        }
        None
    }

    /// Whether a table of this qualified name exists.
    pub fn table_exists(&self, name: &QualifiedName) -> (r: bool)
        ensures
            r == (spec_get_table(*self, name@) is Some),
    {
        self.get_table(name).is_some()
    }

    /// Look up a view by qualified name.
    pub fn get_view(&self, name: &QualifiedName) -> (r: Option<&ViewDef>)
        ensures
            match r {
                Option::Some(v) => spec_get_view(*self, name@) == Option::Some(*v),
                Option::None => spec_get_view(*self, name@) is None,
            },
    {
        let key: &String = match &name.schema {
            Some(s) => s,
            None => &self.default_schema,
        };
        let si = match self.find_schema(key) {
            Some(si) => si,
            None => {
                return None;
            }
        };
        let schema = &self.schemas[si];
        let ghost p = view_name_pred(name.name@);
        let n = schema.views.len();
        let mut i: usize = 0;
        while i < n
            invariant
                n == schema.views.len(),
                i <= n,
                forall|j: int| 0 <= j < i ==> !p(schema.views@[j]),
            decreases n - i,
        {
            if str_eq(schema.views[i].name.name.as_str(), name.name.as_str()) {
                proof {
                    lemma_find_idx_at(schema.views@, p, i as int);
                }
                return Some(&schema.views[i]);
            }
            i += 1;
        }
        proof {
            lemma_find_idx_at(schema.views@, p, n as int);
        }
        None
    }

    /// Whether a view of this qualified name exists.
    pub fn view_exists(&self, name: &QualifiedName) -> (r: bool)
        ensures
            r == (spec_get_view(*self, name@) is Some),
    {
        self.get_view(name).is_some()
    }

    /// Look up an enum type by name.
    pub fn get_enum(&self, name: &str) -> (r: Option<&EnumTypeDef>)
        ensures
            match r {
                Option::Some(e) => spec_get_enum(*self, name@) == Option::Some(*e),
                Option::None => spec_get_enum(*self, name@) is None,
            },
    {
        let ghost p = enum_name_pred(name@);
        let n = self.enums.len();
        let mut i: usize = 0;
        while i < n
            invariant
                n == self.enums.len(),
                i <= n,
                forall|j: int| 0 <= j < i ==> !p(self.enums@[j]),
            decreases n - i,
        {
            if str_eq(self.enums[i].name.as_str(), name) {
                proof {
                    lemma_find_idx_at(self.enums@, p, i as int);
                }
                return Some(&self.enums[i]);
            }
            i += 1;
        }
        proof {
            lemma_find_idx_at(self.enums@, p, n as int);
        }
        None
    }

    /// Whether an enum type of this name exists.
    pub fn enum_exists(&self, name: &str) -> (r: bool)
        ensures
            r == (spec_get_enum(*self, name@) is Some),
    {
        self.get_enum(name).is_some()
    }

    /// All table names, qualified by their schema, in catalog order.
    pub fn table_names(&self) -> (r: Vec<QualifiedName>)
        ensures
            qname_models(r@) == spec_table_names(self.schemas@),
    {
        let mut r: Vec<QualifiedName> = Vec::new();
        let n = self.schemas.len();
        let mut i: usize = 0;
        proof {
            assert(self.schemas@.skip(0) =~= self.schemas@);
            assert(qname_models(r@) =~= Seq::<QNameModel>::empty());
        }
        while i < n
            invariant
                n == self.schemas@.len(),
                i <= n,
                qname_models(r@) + spec_table_names(self.schemas@.skip(i as int))
                    == spec_table_names(self.schemas@),
            decreases n - i,
        {
            proof {
                assert(self.schemas@.skip(i as int)[0] == self.schemas@[i as int]);
                assert(self.schemas@.skip(i as int).drop_first() =~= self.schemas@.skip(i + 1));
            }
            let schema = &self.schemas[i];
            let ghost pre = qname_models(r@);
            push_table_names(&mut r, schema);
            proof {
                assert(qname_models(r@) + spec_table_names(self.schemas@.skip(i + 1))
                    =~= spec_table_names(self.schemas@));
            }
            i += 1;
        }
        proof {
            assert(self.schemas@.skip(n as int) =~= Seq::<Schema>::empty());
            assert(qname_models(r@) + Seq::<QNameModel>::empty() =~= qname_models(r@));
        }
        r
    }

    /// All table and view names, qualified by their schema, in catalog
    /// order: each schema's tables first, then its views.
    pub fn table_or_view_names(&self) -> (r: Vec<QualifiedName>)
        ensures
            qname_models(r@) == spec_table_or_view_names(self.schemas@),
    {
        let mut r: Vec<QualifiedName> = Vec::new();
        let n = self.schemas.len();
        let mut i: usize = 0;
        proof {
            assert(self.schemas@.skip(0) =~= self.schemas@);
            assert(qname_models(r@) =~= Seq::<QNameModel>::empty());
        }
        while i < n
            invariant
                n == self.schemas@.len(),
                i <= n,
                qname_models(r@) + spec_table_or_view_names(self.schemas@.skip(i as int))
                    == spec_table_or_view_names(self.schemas@),
            decreases n - i,
        {
            proof {
                assert(self.schemas@.skip(i as int)[0] == self.schemas@[i as int]);
                assert(self.schemas@.skip(i as int).drop_first() =~= self.schemas@.skip(i + 1));
            }
            let schema = &self.schemas[i];
            push_table_names(&mut r, schema);
            push_view_names(&mut r, schema);
            proof {
                assert(qname_models(r@) + spec_table_or_view_names(self.schemas@.skip(i + 1))
                    =~= spec_table_or_view_names(self.schemas@));
            }
            i += 1;
        }
        proof {
            assert(self.schemas@.skip(n as int) =~= Seq::<Schema>::empty());
            assert(qname_models(r@) + Seq::<QNameModel>::empty() =~= qname_models(r@));
        }
        r
    }

    /// The index of the schema of this name, if present.
    pub(crate) fn find_schema(&self, name: &String) -> (r: Option<usize>)
        ensures
            match r {
                Option::Some(i) => spec_schema_idx(self.schemas@, name@) == i as int && (
                i as int) < self.schemas@.len(),
                Option::None => spec_schema_idx(self.schemas@, name@) == -1,
            },
    {
        let ghost p = schema_name_pred(name@);
        let n = self.schemas.len();
        let mut i: usize = 0;
        while i < n
            invariant
                n == self.schemas.len(),
                i <= n,
                forall|j: int| 0 <= j < i ==> !p(self.schemas@[j]),
            decreases n - i,
        {
            if str_eq(self.schemas[i].name.as_str(), name.as_str()) {
                proof {
                    lemma_find_idx_at(self.schemas@, p, i as int);
                }
                return Some(i);
            }
            i += 1;
        }
        proof {
            lemma_find_idx_at(self.schemas@, p, n as int);
        }
        None
    }
}

/// The models of a list of qualified names.
pub open spec fn qname_models(s: Seq<QualifiedName>) -> Seq<QNameModel> {
    Seq::new(s.len(), |i: int| s[i]@)
}

/// The schema-qualified names of one schema's tables.
pub open spec fn spec_schema_table_names(s: Schema) -> Seq<QNameModel> {
    Seq::new(
        s.tables@.len(),
        |i: int|
            QNameModel { schema: Option::Some(s.name@), name: s.tables@[i].name.name@ },
    )
}

/// The schema-qualified names of one schema's views.
pub open spec fn spec_schema_view_names(s: Schema) -> Seq<QNameModel> {
    Seq::new(
        s.views@.len(),
        |i: int| QNameModel { schema: Option::Some(s.name@), name: s.views@[i].name.name@ },
    )
}

/// The schema-qualified names of every table, in catalog order.
pub open spec fn spec_table_names(schemas: Seq<Schema>) -> Seq<QNameModel>
    decreases schemas,
{
    if schemas.len() == 0 {
        Seq::empty()
    } else {
        spec_schema_table_names(schemas[0]) + spec_table_names(schemas.drop_first())
    }
}

/// The schema-qualified names of every table and view, in catalog order.
pub open spec fn spec_table_or_view_names(schemas: Seq<Schema>) -> Seq<QNameModel>
    decreases schemas,
{
    if schemas.len() == 0 {
        Seq::empty()
    } else {
        spec_schema_table_names(schemas[0]) + spec_schema_view_names(schemas[0])
            + spec_table_or_view_names(schemas.drop_first())
    }
}

fn push_table_names(r: &mut Vec<QualifiedName>, schema: &Schema)
    ensures
        qname_models(final(r)@) == qname_models(old(r)@) + spec_schema_table_names(*schema),
{
    let ghost pre = qname_models(r@);
    let m = schema.tables.len();
    let mut k: usize = 0;
    while k < m
        invariant
            m == schema.tables@.len(),
            k <= m,
            qname_models(r@) =~= pre + spec_schema_table_names(*schema).take(k as int),
        decreases m - k,
    {
        let q = QualifiedName::with_schema(
            schema.name.clone(),
            schema.tables[k].name.name.clone(),
        );
        let ghost prev = qname_models(r@);
        r.push(q);
        proof {
            assert(qname_models(r@) =~= prev.push(spec_schema_table_names(*schema)[k as int]));
            assert(prev.push(spec_schema_table_names(*schema)[k as int]) =~= pre
                + spec_schema_table_names(*schema).take(k + 1));
        }
        k += 1;
    }
    proof {
        assert(spec_schema_table_names(*schema).take(m as int) =~= spec_schema_table_names(
            *schema,
        ));
    }
}

fn push_view_names(r: &mut Vec<QualifiedName>, schema: &Schema)
    ensures
        qname_models(final(r)@) == qname_models(old(r)@) + spec_schema_view_names(*schema),
{
    let ghost pre = qname_models(r@);
    let m = schema.views.len();
    let mut k: usize = 0;
    while k < m
        invariant
            m == schema.views@.len(),
            k <= m,
            qname_models(r@) =~= pre + spec_schema_view_names(*schema).take(k as int),
        decreases m - k,
    {
        let q = QualifiedName::with_schema(
            schema.name.clone(),
            schema.views[k].name.name.clone(),
        );
        let ghost prev = qname_models(r@);
        r.push(q);
        proof {
            assert(qname_models(r@) =~= prev.push(spec_schema_view_names(*schema)[k as int]));
            assert(prev.push(spec_schema_view_names(*schema)[k as int]) =~= pre
                + spec_schema_view_names(*schema).take(k + 1));
        }
        k += 1;
    }
    proof {
        assert(spec_schema_view_names(*schema).take(m as int) =~= spec_schema_view_names(*schema));
    }
}

/// Insert a table into a table list: replace the entry of the same name
/// in place, else append.
pub open spec fn spec_upsert_table(tables: Seq<TableDef>, t: TableDef) -> Seq<TableDef> {
    let i = spec_table_idx(tables, t.name.name@);
    if i == -1 {
        tables.push(t)
    } else {
        tables.update(i, t)
    }
}

/// Insert a view into a view list: replace the entry of the same name in
/// place, else append.
pub open spec fn spec_upsert_view(views: Seq<ViewDef>, v: ViewDef) -> Seq<ViewDef> {
    let i = spec_view_idx(views, v.name.name@);
    if i == -1 {
        views.push(v)
    } else {
        views.update(i, v)
    }
}

/// Insert an enum into an enum list: replace the entry of the same name
/// in place, else append.
pub open spec fn spec_upsert_enum(enums: Seq<EnumTypeDef>, e: EnumTypeDef) -> Seq<EnumTypeDef> {
    let i = spec_enum_idx(enums, e.name@);
    if i == -1 {
        enums.push(e)
    } else {
        enums.update(i, e)
    }
}

/// The view of an optional string.
pub open spec fn opt_str_view(o: Option<String>) -> Option<Seq<char>> {
    match o {
        Option::Some(s) => Option::Some(s@),
        Option::None => Option::None,
    }
}

/// Mathematical model of a [`DefaultValue`].
pub enum DVModel {
    Literal(Seq<char>),
    Expression(Seq<char>),
    CurrentTimestamp,
    Null,
    NextVal(Seq<char>),
}

impl View for DefaultValue {
    type V = DVModel;

    open spec fn view(&self) -> DVModel {
        match self {
            DefaultValue::Literal(s) => DVModel::Literal(s@),
            DefaultValue::Expression(s) => DVModel::Expression(s@),
            DefaultValue::CurrentTimestamp => DVModel::CurrentTimestamp,
            DefaultValue::Null => DVModel::Null,
            DefaultValue::NextVal(s) => DVModel::NextVal(s@),
        }
    }
}

/// Mathematical model of a [`ColumnDef`].
pub struct ColModel {
    pub name: Seq<char>,
    pub data_type: SqlType,
    pub nullable: bool,
    pub default: Option<DVModel>,
    pub is_primary_key: bool,
    pub identity: Option<IdentityKind>,
}

impl View for ColumnDef {
    type V = ColModel;

    open spec fn view(&self) -> ColModel {
        ColModel {
            name: self.name@,
            data_type: self.data_type,
            nullable: self.nullable,
            default: match self.default {
                Option::Some(d) => Option::Some(d@),
                Option::None => Option::None,
            },
            is_primary_key: self.is_primary_key,
            identity: self.identity,
        }
    }
}

/// Mathematical model of a [`PrimaryKeyDef`].
pub struct PkModel {
    pub name: Option<Seq<char>>,
    pub columns: Seq<Seq<char>>,
}

impl View for PrimaryKeyDef {
    type V = PkModel;

    open spec fn view(&self) -> PkModel {
        PkModel { name: opt_str_view(self.name), columns: str_views(self.columns@) }
    }
}

/// Mathematical model of a [`ForeignKeyDef`].
pub struct FkModel {
    pub name: Option<Seq<char>>,
    pub columns: Seq<Seq<char>>,
    pub references_table: QNameModel,
    pub references_columns: Seq<Seq<char>>,
}

impl View for ForeignKeyDef {
    type V = FkModel;

    open spec fn view(&self) -> FkModel {
        FkModel {
            name: opt_str_view(self.name),
            columns: str_views(self.columns@),
            references_table: self.references_table@,
            references_columns: str_views(self.references_columns@),
        }
    }
}

/// Mathematical model of a [`UniqueConstraintDef`].
pub struct UqModel {
    pub name: Option<Seq<char>>,
    pub columns: Seq<Seq<char>>,
}

impl View for UniqueConstraintDef {
    type V = UqModel;

    open spec fn view(&self) -> UqModel {
        UqModel { name: opt_str_view(self.name), columns: str_views(self.columns@) }
    }
}

/// Mathematical model of a [`CheckConstraintDef`].
pub struct CkModel {
    pub name: Option<Seq<char>>,
    pub expression: Seq<char>,
}

impl View for CheckConstraintDef {
    type V = CkModel;

    open spec fn view(&self) -> CkModel {
        CkModel { name: opt_str_view(self.name), expression: self.expression@ }
    }
}

/// Mathematical model of an [`EnumTypeDef`].
pub struct EnumModel {
    pub name: Seq<char>,
    pub values: Seq<Seq<char>>,
}

impl View for EnumTypeDef {
    type V = EnumModel;

    open spec fn view(&self) -> EnumModel {
        EnumModel { name: self.name@, values: str_views(self.values@) }
    }
}

/// Mathematical model of a [`ViewDef`].
pub struct ViewModel {
    pub name: QNameModel,
    pub columns: Seq<Seq<char>>,
    pub materialized: bool,
}

impl View for ViewDef {
    type V = ViewModel;

    open spec fn view(&self) -> ViewModel {
        ViewModel {
            name: self.name@,
            columns: str_views(self.columns@),
            materialized: self.materialized,
        }
    }
}

/// Mathematical model of a [`TableDef`].
pub struct TableModel {
    pub name: QNameModel,
    pub columns: Seq<ColModel>,
    pub primary_key: Option<PkModel>,
    pub foreign_keys: Seq<FkModel>,
    pub unique_constraints: Seq<UqModel>,
    pub check_constraints: Seq<CkModel>,
}

impl View for TableDef {
    type V = TableModel;

    open spec fn view(&self) -> TableModel {
        TableModel {
            name: self.name@,
            columns: col_models(self.columns@),
            primary_key: match self.primary_key {
                Option::Some(pk) => Option::Some(pk@),
                Option::None => Option::None,
            },
            foreign_keys: fk_models(self.foreign_keys@),
            unique_constraints: uq_models(self.unique_constraints@),
            check_constraints: ck_models(self.check_constraints@),
        }
    }
}

/// The models of a column list.
pub open spec fn col_models(s: Seq<ColumnDef>) -> Seq<ColModel> {
    Seq::new(s.len(), |i: int| s[i]@)
}

/// The models of a check-constraint list.
pub open spec fn ck_models(s: Seq<CheckConstraintDef>) -> Seq<CkModel> {
    Seq::new(s.len(), |i: int| s[i]@)
}

/// The models of a foreign-key list.
pub open spec fn fk_models(s: Seq<ForeignKeyDef>) -> Seq<FkModel> {
    Seq::new(s.len(), |i: int| s[i]@)
}

/// The models of a unique-constraint list.
pub open spec fn uq_models(s: Seq<UniqueConstraintDef>) -> Seq<UqModel> {
    Seq::new(s.len(), |i: int| s[i]@)
}

/// The models of a table list.
pub open spec fn table_models(s: Seq<TableDef>) -> Seq<TableModel> {
    Seq::new(s.len(), |i: int| s[i]@)
}

/// Predicate on column models: the column has exactly this name.
pub open spec fn col_m_exact_pred(name: Seq<char>) -> spec_fn(ColModel) -> bool {
    |c: ColModel| c.name == name
}

/// Predicate on table models: the table has exactly this name.
pub open spec fn table_m_name_pred(name: Seq<char>) -> spec_fn(TableModel) -> bool {
    |t: TableModel| t.name.name == name
}

/// Insert a column model: replace the entry of the same name in place,
/// else append.
pub open spec fn spec_upsert_col_m(cols: Seq<ColModel>, c: ColModel) -> Seq<ColModel> {
    let i = find_idx(cols, col_m_exact_pred(c.name));
    if i == -1 {
        cols.push(c)
    } else {
        cols.update(i, c)
    }
}

/// Mark the first column model of exactly this name as primary key and
/// NOT NULL.
pub open spec fn spec_mark_one_pk_m(cols: Seq<ColModel>, name: Seq<char>) -> Seq<ColModel> {
    let i = find_idx(cols, col_m_exact_pred(name));
    if i == -1 {
        cols
    } else {
        cols.update(
            i,
            (ColModel { is_primary_key: true, nullable: false, ..cols[i] }),
        )
    }
}

/// Mark each named column model in turn as primary key and NOT NULL.
pub open spec fn spec_mark_pk_m(cols: Seq<ColModel>, names: Seq<Seq<char>>) -> Seq<ColModel>
    decreases names.len(),
{
    if names.len() == 0 {
        cols
    } else {
        spec_mark_pk_m(spec_mark_one_pk_m(cols, names[0]), names.drop_first())
    }
}

/// Insert a table model: replace the entry of the same name in place,
/// else append.
pub open spec fn spec_upsert_table_m(tables: Seq<TableModel>, t: TableModel) -> Seq<TableModel> {
    let i = find_idx(tables, table_m_name_pred(t.name.name));
    if i == -1 {
        tables.push(t)
    } else {
        tables.update(i, t)
    }
}

/// The table index agrees between tables and their models.
pub proof fn lemma_table_idx_models(tables: Seq<TableDef>, name: Seq<char>)
    ensures
        spec_table_idx(tables, name) == find_idx(table_models(tables), table_m_name_pred(name)),
    decreases tables.len(),
{
    if tables.len() > 0 {
        assert(table_models(tables)[0] == tables[0]@);
        if tables[0].name.name@ != name {
            lemma_table_idx_models(tables.drop_first(), name);
            assert(table_models(tables).drop_first() =~= table_models(tables.drop_first()));
        }
    }
}

/// Upserting a table commutes with taking models.
pub proof fn lemma_upsert_table_models(tables: Seq<TableDef>, t: TableDef)
    ensures
        table_models(spec_upsert_table(tables, t)) == spec_upsert_table_m(
            table_models(tables),
            t@,
        ),
{
    lemma_table_idx_models(tables, t.name.name@);
    let i = spec_table_idx(tables, t.name.name@);
    if i == -1 {
        assert(table_models(spec_upsert_table(tables, t)) =~= spec_upsert_table_m(
            table_models(tables),
            t@,
        ));
    } else {
        crate::seqx::lemma_find_idx(tables, table_name_pred(t.name.name@));
        assert(table_models(spec_upsert_table(tables, t)) =~= spec_upsert_table_m(
            table_models(tables),
            t@,
        ));
    }
}

/// How `add_table` changes a catalog: the table lands in its resolved
/// schema (created at the end when absent), replacing any table of the
/// same name in place, and nothing else changes.
pub open spec fn spec_add_table_rel(pre: Catalog, post: Catalog, table: TableDef) -> bool {
    let sn = spec_schema_of(pre, table.name@);
    let si = spec_schema_idx(pre.schemas@, sn);
    let olds = pre.schemas@;
    let news = post.schemas@;
    &&& post.default_schema == pre.default_schema
    &&& post.enums == pre.enums
    &&& if si == -1 {
        &&& news.len() == olds.len() + 1
        &&& forall|j: int| 0 <= j < olds.len() ==> news[j] == olds[j]
        &&& news.last().name@ == sn
        &&& news.last().tables@ =~= seq![table]
        &&& news.last().views@ =~= Seq::<ViewDef>::empty()
    } else {
        &&& news.len() == olds.len()
        &&& forall|j: int| 0 <= j < olds.len() && j != si ==> news[j] == olds[j]
        &&& news[si].name == olds[si].name
        &&& news[si].views == olds[si].views
        &&& news[si].tables@ == spec_upsert_table(olds[si].tables@, table)
    }
}

/// How `add_view` changes a catalog.
pub open spec fn spec_add_view_rel(pre: Catalog, post: Catalog, view: ViewDef) -> bool {
    let sn = spec_schema_of(pre, view.name@);
    let si = spec_schema_idx(pre.schemas@, sn);
    let olds = pre.schemas@;
    let news = post.schemas@;
    &&& post.default_schema == pre.default_schema
    &&& post.enums == pre.enums
    &&& if si == -1 {
        &&& news.len() == olds.len() + 1
        &&& forall|j: int| 0 <= j < olds.len() ==> news[j] == olds[j]
        &&& news.last().name@ == sn
        &&& news.last().views@ =~= seq![view]
        &&& news.last().tables@ =~= Seq::<TableDef>::empty()
    } else {
        &&& news.len() == olds.len()
        &&& forall|j: int| 0 <= j < olds.len() && j != si ==> news[j] == olds[j]
        &&& news[si].name == olds[si].name
        &&& news[si].tables == olds[si].tables
        &&& news[si].views@ == spec_upsert_view(olds[si].views@, view)
    }
}

/// The exact-name column index agrees between columns and their models.
pub proof fn lemma_col_idx_models(cols: Seq<ColumnDef>, name: Seq<char>)
    ensures
        spec_col_idx_exact(cols, name) == find_idx(col_models(cols), col_m_exact_pred(name)),
    decreases cols.len(),
{
    if cols.len() > 0 {
        assert(col_models(cols)[0] == cols[0]@);
        if cols[0].name@ != name {
            lemma_col_idx_models(cols.drop_first(), name);
            assert(col_models(cols).drop_first() =~= col_models(cols.drop_first()));
        }
    }
}

/// Removing a column commutes with taking models.
pub proof fn lemma_col_models_remove(cols: Seq<ColumnDef>, i: int)
    requires
        0 <= i < cols.len(),
    ensures
        col_models(cols.remove(i)) == col_models(cols).remove(i),
{
    assert forall|j: int| 0 <= j < cols.len() - 1 implies col_models(cols.remove(i))[j]
        == col_models(cols).remove(i)[j] by {
        if j < i {
            assert(cols.remove(i)[j] == cols[j]);
        } else {
            assert(cols.remove(i)[j] == cols[j + 1]);
        }
    }
    assert(col_models(cols.remove(i)) =~= col_models(cols).remove(i));
}

/// Marking one column commutes with taking models.
pub proof fn lemma_mark_one_pk_models(cols: Seq<ColumnDef>, name: Seq<char>)
    ensures
        col_models(spec_mark_one_pk(cols, name)) == spec_mark_one_pk_m(col_models(cols), name),
{
    lemma_col_idx_models(cols, name);
    let i = spec_col_idx_exact(cols, name);
    if i == -1 {
        assert(col_models(spec_mark_one_pk(cols, name)) =~= spec_mark_one_pk_m(
            col_models(cols),
            name,
        ));
    } else {
        crate::seqx::lemma_find_idx(cols, col_exact_pred(name));
        assert(col_models(spec_mark_one_pk(cols, name)) =~= spec_mark_one_pk_m(
            col_models(cols),
            name,
        ));
    }
}

/// Marking primary-key columns commutes with taking models.
pub proof fn lemma_mark_pk_models(cols: Seq<ColumnDef>, names: Seq<Seq<char>>)
    ensures
        col_models(spec_mark_pk(cols, names)) == spec_mark_pk_m(col_models(cols), names),
    decreases names.len(),
{
    if names.len() > 0 {
        lemma_mark_one_pk_models(cols, names[0]);
        lemma_mark_pk_models(spec_mark_one_pk(cols, names[0]), names.drop_first());
    }
}

pub(crate) fn upsert_table(tables: &mut Vec<TableDef>, t: TableDef)
    ensures
        final(tables)@ == spec_upsert_table(old(tables)@, t),
{
    let ghost p = table_name_pred(t.name.name@);
    let n = tables.len();
    let mut i: usize = 0;
    while i < n
        invariant
            n == tables.len(),
            *tables == *old(tables),
            i <= n,
            forall|j: int| 0 <= j < i ==> !p(tables@[j]),
        decreases n - i,
    {
        if str_eq(tables[i].name.name.as_str(), t.name.name.as_str()) {
            proof {
                lemma_find_idx_at(tables@, p, i as int);
            }
            let _ = tables.remove(i);
            tables.insert(i, t);
            proof {
                assert(final(tables)@ =~= spec_upsert_table(old(tables)@, t));
            }
            return ;
        }
        i += 1;
    }
    proof {
        lemma_find_idx_at(tables@, p, n as int);
    }
    tables.push(t);
}

pub(crate) fn upsert_view(views: &mut Vec<ViewDef>, v: ViewDef)
    ensures
        final(views)@ == spec_upsert_view(old(views)@, v),
{
    let ghost p = view_name_pred(v.name.name@);
    let n = views.len();
    let mut i: usize = 0;
    while i < n
        invariant
            n == views.len(),
            *views == *old(views),
            i <= n,
            forall|j: int| 0 <= j < i ==> !p(views@[j]),
        decreases n - i,
    {
        if str_eq(views[i].name.name.as_str(), v.name.name.as_str()) {
            proof {
                lemma_find_idx_at(views@, p, i as int);
            }
            let _ = views.remove(i);
            views.insert(i, v);
            proof {
                assert(final(views)@ =~= spec_upsert_view(old(views)@, v));
            }
            return ;
        }
        i += 1;
    }
    proof {
        lemma_find_idx_at(views@, p, n as int);
    }
    views.push(v);
}

pub(crate) fn upsert_enum(enums: &mut Vec<EnumTypeDef>, e: EnumTypeDef)
    ensures
        final(enums)@ == spec_upsert_enum(old(enums)@, e),
{
    let ghost p = enum_name_pred(e.name@);
    let n = enums.len();
    let mut i: usize = 0;
    while i < n
        invariant
            n == enums.len(),
            *enums == *old(enums),
            i <= n,
            forall|j: int| 0 <= j < i ==> !p(enums@[j]),
        decreases n - i,
    {
        if str_eq(enums[i].name.as_str(), e.name.as_str()) {
            proof {
                lemma_find_idx_at(enums@, p, i as int);
            }
            let _ = enums.remove(i);
            enums.insert(i, e);
            proof {
                assert(final(enums)@ =~= spec_upsert_enum(old(enums)@, e));
            }
            return ;
        }
        i += 1;
    }
    proof {
        lemma_find_idx_at(enums@, p, n as int);
    }
    enums.push(e);
}

} // verus!
