//! The name resolver: validates every table, view, CTE, alias and column
//! reference of one statement against the catalog, and reports ambiguity.
//!
//! Scope construction follows SQL binding order: the FROM clause binds
//! before the projection, WHERE, GROUP BY and HAVING; ORDER BY resolves
//! last with the SELECT aliases in scope.  Non-LATERAL derived tables and
//! CTE bodies resolve in isolated scopes that are restored afterwards.

use vstd::prelude::*;

verus! {

use vstd::math::min;

use crate::ast::Cte;
use crate::ast::Expr;
use crate::ast::Ident;
use crate::ast::Join;
use crate::ast::JoinConstraint;
use crate::ast::JoinKind;
use crate::ast::ObjectName;
use crate::ast::Query;
use crate::ast::Select;
use crate::ast::SelectItem;
use crate::ast::SetExpr;
use crate::ast::TableFactor;
use crate::ast::TableWithJoins;
use crate::catalog::Catalog;
use crate::catalog::ColumnDef;
use crate::catalog::QNameModel;
use crate::catalog::QualifiedName;
use crate::catalog::TableDef;
use crate::catalog::spec_column_exists;
use crate::catalog::spec_get_table;
use crate::catalog::spec_get_view;
use crate::catalog::spec_qname_render;
use crate::catalog::str_views;
use crate::diag::DiagModel;
use crate::diag::Diagnostic;
use crate::diag::DiagnosticKind;
use crate::diag::Severity;
use crate::diag::Span;
use crate::diag::models;
use crate::scope::CteEntry;
use crate::scope::clone_strings;
use crate::scope::CteEntryModel;
use crate::scope::CteMap;
use crate::scope::Scope;
use crate::scope::ScopeEntryModel;
use crate::scope::TableRef;
use crate::scope::TableRefModel;
use crate::scope::cte_name_pred;
use crate::scope::scope_name_pred;
use crate::scope::spec_cte_upsert;
use crate::scope::spec_scope_upsert;
use crate::seqx::find_idx;
use crate::strutil::lower_codes;
use crate::strutil::spec_starts_with;
use crate::strutil::str_ieq;

/// The code points of a character sequence.
pub open spec fn char_codes(s: Seq<char>) -> Seq<u32> {
    Seq::new(s.len(), |i: int| s[i] as u32)
}

/// The Levenshtein edit distance between two code-point sequences: the
/// least number of single-element insertions, deletions and substitutions
/// turning one into the other.
pub open spec fn spec_lev(a: Seq<u32>, b: Seq<u32>) -> nat
    decreases a.len(), b.len(),
{
    if a.len() == 0 {
        b.len()
    } else if b.len() == 0 {
        a.len()
    } else {
        let cost: nat = if a.last() == b.last() {
            0
        } else {
            1
        };
        let del = spec_lev(a.drop_last(), b) + 1;
        let ins = spec_lev(a, b.drop_last()) + 1;
        let sub = spec_lev(a.drop_last(), b.drop_last()) + cost;
        min(min(del as int, ins as int), sub as int) as nat
    }
}

/// The distance never exceeds the two lengths together.
pub proof fn lemma_lev_bound(a: Seq<u32>, b: Seq<u32>)
    ensures
        spec_lev(a, b) <= a.len() + b.len(),
    decreases a.len(), b.len(),
{
    if a.len() != 0 && b.len() != 0 {
        lemma_lev_bound(a.drop_last(), b.drop_last());
    }
}

fn lev_codes(a: &Vec<u32>, b: &Vec<u32>) -> (d: usize)
    requires
        a@.len() + b@.len() < usize::MAX,
    ensures
        d as nat == spec_lev(a@, b@),
{
    let m = a.len();
    let n = b.len();
    if m == 0 {
        return n;
    }
    if n == 0 {
        return m;
    }
    let mut dp: Vec<Vec<usize>> = Vec::new();
    let mut row0: Vec<usize> = Vec::new();
    let mut j: usize = 0;
    proof {
        assert(a@.take(0) =~= Seq::<u32>::empty());
    }
    while j <= n
        invariant
            n == b@.len(),
            j <= n + 1,
            n < usize::MAX,
            row0@.len() == j,
            forall|c: int| 0 <= c < j ==> row0@[c] == spec_lev(a@.take(0), b@.take(c)),
        decreases n + 1 - j,
    {
        proof {
            assert(a@.take(0) =~= Seq::<u32>::empty());
            assert(b@.take(j as int).len() == j);
        }
        row0.push(j);
        j += 1;
    }
    dp.push(row0);
    let mut i: usize = 1;
    while i <= m
        invariant
            m == a@.len(),
            n == b@.len(),
            m + n < usize::MAX,
            1 <= i <= m + 1,
            dp@.len() == i,
            forall|r: int| 0 <= r < i ==> #[trigger] dp@[r]@.len() == n + 1,
            forall|r: int, c: int|
                0 <= r < i && 0 <= c <= n ==> #[trigger] dp@[r]@[c] == spec_lev(
                    a@.take(r),
                    b@.take(c),
                ),
        decreases m + 1 - i,
    {
        let mut row: Vec<usize> = Vec::new();
        proof {
            assert(b@.take(0) =~= Seq::<u32>::empty());
            assert(a@.take(i as int).len() == i);
        }
        row.push(i);
        let mut j2: usize = 1;
        while j2 <= n
            invariant
                m == a@.len(),
                n == b@.len(),
                m + n < usize::MAX,
                1 <= i <= m,
                1 <= j2 <= n + 1,
                dp@.len() == i,
                forall|r: int| 0 <= r < i ==> #[trigger] dp@[r]@.len() == n + 1,
                forall|r: int, c: int|
                    0 <= r < i && 0 <= c <= n ==> #[trigger] dp@[r]@[c] == spec_lev(
                        a@.take(r),
                        b@.take(c),
                    ),
                row@.len() == j2,
                forall|c: int| 0 <= c < j2 ==> row@[c] == spec_lev(a@.take(i as int), b@.take(c)),
            decreases n + 1 - j2,
        {
            let cost: usize = if a[i - 1] == b[j2 - 1] {
                0
            } else {
                1
            };
            proof {
                lemma_lev_bound(a@.take(i - 1), b@.take(j2 as int));
                lemma_lev_bound(a@.take(i as int), b@.take(j2 - 1));
                lemma_lev_bound(a@.take(i - 1), b@.take(j2 - 1));
            }
            let del = dp[i - 1][j2] + 1;
            let ins = row[j2 - 1] + 1;
            let sub = dp[i - 1][j2 - 1] + cost;
            let mut v = del;
            if ins < v {
                v = ins;
            }
            if sub < v {
                v = sub;
            }
            proof {
                let ai = a@.take(i as int);
                let bj = b@.take(j2 as int);
                assert(ai.drop_last() =~= a@.take(i - 1));
                assert(bj.drop_last() =~= b@.take(j2 - 1));
                assert(ai.last() == a@[i - 1]);
                assert(bj.last() == b@[j2 - 1]);
                assert(v as nat == spec_lev(ai, bj));
            }
            row.push(v);
            j2 += 1;
        }
        dp.push(row);
        i += 1;
    }
    proof {
        assert(a@.take(m as int) =~= a@);
        assert(b@.take(n as int) =~= b@);
    }
    dp[m][n]
}

fn codes_of(s: &str) -> (v: Vec<u32>)
    ensures
        v@ == char_codes(s@),
{
    let chars = crate::strutil::chars_of(s);
    let n = chars.len();
    let mut v: Vec<u32> = Vec::new();
    let mut i: usize = 0;
    while i < n
        invariant
            n == chars.len(),
            chars@ == s@,
            i <= n,
            v@.len() == i,
            forall|j: int| 0 <= j < i ==> v@[j] == char_codes(s@)[j],
        decreases n - i,
    {
        let c = chars[i];
        v.push(c as u32);
        i += 1;
    }
    proof {
        assert(v@ =~= char_codes(s@));
    }
    v
}

/// The Levenshtein edit distance between the character sequences of two
/// strings.
pub fn levenshtein_distance(a: &str, b: &str) -> (d: usize)
    requires
        a@.len() + b@.len() < usize::MAX,
    ensures
        d as nat == spec_lev(char_codes(a@), char_codes(b@)),
{
    let va = codes_of(a);
    let vb = codes_of(b);
    lev_codes(&va, &vb)
}

fn lower_codes_of_string(s: &String) -> (v: Vec<u32>)
    ensures
        v@ == lower_codes(s@),
{
    crate::strutil::lower_codes_of(s.as_str())
}

/// One step of the suggestion scan: the column is a new best match when
/// its lowered name is within distance 3 of the lowered request, the two
/// lengths fit the distance computation, and it beats the best so far.
pub open spec fn spec_similar_step(
    best: Option<(nat, Seq<char>)>,
    col: ColumnDef,
    name_low: Seq<u32>,
) -> Option<(nat, Seq<char>)> {
    let cl = lower_codes(col.name@);
    if name_low.len() + cl.len() < usize::MAX {
        let d = spec_lev(cl, name_low);
        let better = match best {
            Option::Some(b) => d < b.0,
            Option::None => true,
        };
        if d <= 3 && better {
            Option::Some((d, col.name@))
        } else {
            best
        }
    } else {
        best
    }
}

/// The suggestion scan over a column list, carrying the best match.
pub open spec fn spec_similar_fold(
    cols: Seq<ColumnDef>,
    name_low: Seq<u32>,
    best: Option<(nat, Seq<char>)>,
) -> Option<(nat, Seq<char>)>
    decreases cols.len(),
{
    if cols.len() == 0 {
        best
    } else {
        spec_similar_fold(cols.drop_first(), name_low, spec_similar_step(best, cols[0], name_low))
    }
}

/// The closest column name of the table, comparing lowered names, when
/// one is within edit distance 3.
pub open spec fn spec_find_similar(t: TableDef, name: Seq<char>) -> Option<Seq<char>> {
    match spec_similar_fold(t.columns@, lower_codes(name), Option::None) {
        Option::Some((d, n)) => Option::Some(n),
        Option::None => Option::None,
    }
}

/// A column of the table similar to the requested name: the first closest
/// column at Levenshtein distance at most 3, comparing ASCII-lowered
/// names.
pub fn find_similar_column(table: &TableDef, name: &str) -> (r: Option<String>)
    ensures
        match r {
            Option::Some(s) => spec_find_similar(*table, name@) == Option::Some(s@),
            Option::None => spec_find_similar(*table, name@) is None,
        },
{
    let name_low = crate::strutil::lower_codes_of(name);
    let n = table.columns.len();
    let mut best_dist: usize = 0;
    let mut best: Option<String> = None;
    let ghost mut best_model: Option<(nat, Seq<char>)> = Option::None;
    let mut i: usize = 0;
    proof {
        assert(table.columns@.skip(0) =~= table.columns@);
    }
    while i < n
        invariant
            n == table.columns@.len(),
            i <= n,
            name_low@ == lower_codes(name@),
            spec_similar_fold(table.columns@.skip(i as int), name_low@, best_model)
                == spec_similar_fold(table.columns@, name_low@, Option::None),
            match best {
                Option::Some(s) => best_model == Option::Some((best_dist as nat, s@)),
                Option::None => best_model is None,
            },
        decreases n - i,
    {
        let col = &table.columns[i];
        let col_low = lower_codes_of_string(&col.name);
        proof {
            assert(table.columns@.skip(i as int)[0] == table.columns@[i as int]);
            assert(table.columns@.skip(i as int).drop_first() =~= table.columns@.skip(i + 1));
        }
        if name_low.len() < usize::MAX - col_low.len() {
            let d = lev_codes(&col_low, &name_low);
            let better = match &best {
                Some(_) => d < best_dist,
                None => true,
            };
            if d <= 3 && better {
                best_dist = d;
                best = Some(col.name.clone());
                proof {
                    best_model = Option::Some((d as nat, col.name@));
                }
            }
        }
        proof {
            assert(spec_similar_fold(table.columns@.skip(i + 1), name_low@, best_model)
                == spec_similar_fold(table.columns@, name_low@, Option::None));
        }
        i += 1;
    }
    proof {
        assert(table.columns@.skip(n as int) =~= Seq::<ColumnDef>::empty());
    }
    best
}

fn concat2(a: &str, b: &str) -> (r: String)
    ensures
        r@ == a@ + b@,
{
    let mut r = String::from_str(a);
    r.append(b);
    r
}

pub(crate) fn concat3(a: &str, b: &str, c: &str) -> (r: String)
    ensures
        r@ == a@ + b@ + c@,
{
    let mut r = String::from_str(a);
    r.append(b);
    r.append(c);
    proof {
        assert(r@ =~= a@ + b@ + c@);
    }
    r
}

fn concat7(a: &str, b: &str, c: &str, d: &str, e: &str, f: &str, g: &str) -> (r: String)
    ensures
        r@ == a@ + b@ + c@ + d@ + e@ + f@ + g@,
{
    let mut r = String::from_str(a);
    r.append(b);
    r.append(c);
    r.append(d);
    r.append(e);
    r.append(f);
    r.append(g);
    proof {
        assert(r@ =~= a@ + b@ + c@ + d@ + e@ + f@ + g@);
    }
    r
}

fn concat4(a: &str, b: &str, c: &str, d: &str) -> (r: String)
    ensures
        r@ == a@ + b@ + c@ + d@,
{
    let mut r = String::from_str(a);
    r.append(b);
    r.append(c);
    r.append(d);
    proof {
        assert(r@ =~= a@ + b@ + c@ + d@);
    }
    r
}

fn concat5(a: &str, b: &str, c: &str, d: &str, e: &str) -> (r: String)
    ensures
        r@ == a@ + b@ + c@ + d@ + e@,
{
    let mut r = String::from_str(a);
    r.append(b);
    r.append(c);
    r.append(d);
    r.append(e);
    proof {
        assert(r@ =~= a@ + b@ + c@ + d@ + e@);
    }
    r
}

fn usize_to_string(n: usize) -> (s: String)
    ensures
        s@ == crate::strutil::spec_digits(n as nat),
{
    let s = crate::strutil::u64_to_string(n as u64);
    proof {
        assert((n as u64) as nat == n as nat);
    }
    s
}

/// The given names joined by the separator.
pub open spec fn spec_join(names: Seq<Seq<char>>, sep: Seq<char>) -> Seq<char>
    decreases names.len(),
{
    if names.len() == 0 {
        Seq::empty()
    } else if names.len() == 1 {
        names[0]
    } else {
        names[0] + sep + spec_join(names.drop_first(), sep)
    }
}

/// Joining one more name appends a separator and the name.
pub proof fn lemma_join_snoc(names: Seq<Seq<char>>, sep: Seq<char>, x: Seq<char>)
    ensures
        spec_join(names.push(x), sep) == if names.len() == 0 {
            x
        } else {
            spec_join(names, sep) + sep + x
        },
    decreases names.len(),
{
    let pushed = names.push(x);
    if names.len() == 0 {
        assert(pushed.len() == 1);
        assert(pushed[0] == x);
    } else if names.len() == 1 {
        assert(pushed[0] == names[0]);
        assert(pushed.drop_first() =~= seq![x]);
        assert(spec_join(pushed.drop_first(), sep) == x);
    } else {
        assert(pushed[0] == names[0]);
        assert(pushed.drop_first() =~= names.drop_first().push(x));
        lemma_join_snoc(names.drop_first(), sep, x);
        assert(names[0] + sep + (spec_join(names.drop_first(), sep) + sep + x) =~= (names[0] + sep
            + spec_join(names.drop_first(), sep)) + sep + x);
    }
}

fn join_with(names: &Vec<String>, sep: &str) -> (r: String)
    ensures
        r@ == spec_join(str_views(names@), sep@),
{
    let n = names.len();
    let mut r = String::new();
    let mut i: usize = 0;
    while i < n
        invariant
            n == names@.len(),
            i <= n,
            r@ == spec_join(str_views(names@).take(i as int), sep@),
        decreases n - i,
    {
        if i > 0 {
            r.append(sep);
        }
        r.append(names[i].as_str());
        proof {
            let views = str_views(names@);
            lemma_join_snoc(views.take(i as int), sep@, names@[i as int]@);
            assert(views.take(i as int).push(names@[i as int]@) =~= views.take(i + 1));
        }
        i += 1;
    }
    proof {
        assert(str_views(names@).take(n as int) =~= str_views(names@));
    }
    r
}

/// The qualified name an object name denotes: one part is a bare name,
/// two are `schema.name`, three are `catalog.schema.name` with the
/// catalog part ignored; anything else keeps the dotted rendering as a
/// bare name.
pub open spec fn spec_object_qname(name: ObjectName) -> QNameModel {
    spec_idents_qname(name.0@)
}

/// The qualified name a list of identifier parts denotes.
pub open spec fn spec_idents_qname(ids: Seq<Ident>) -> QNameModel {
    if ids.len() == 1 {
        QNameModel { schema: Option::None, name: ids[0].value@ }
    } else if ids.len() == 2 {
        QNameModel { schema: Option::Some(ids[0].value@), name: ids[1].value@ }
    } else if ids.len() == 3 {
        QNameModel { schema: Option::Some(ids[1].value@), name: ids[2].value@ }
    } else {
        QNameModel {
            schema: Option::None,
            name: spec_join(Seq::new(ids.len(), |i: int| ids[i].value@), "."@),
        }
    }
}

/// Convert an object name from the syntax tree to a qualified name.
pub fn object_name_to_qualified(name: &ObjectName) -> (q: QualifiedName)
    ensures
        q@ == spec_object_qname(*name),
{
    idents_to_qualified(&name.0)
}

/// Convert identifier parts to a qualified name.
pub fn idents_to_qualified(ids: &Vec<Ident>) -> (q: QualifiedName)
    ensures
        q@ == spec_idents_qname(ids@),
{
    let n = ids.len();
    if n == 1 {
        QualifiedName::new(ids[0].value.clone())
    } else if n == 2 {
        QualifiedName::with_schema(ids[0].value.clone(), ids[1].value.clone())
    } else if n == 3 {
        QualifiedName::with_schema(ids[1].value.clone(), ids[2].value.clone())
    } else {
        let mut parts: Vec<String> = Vec::new();
        let mut i: usize = 0;
        while i < n
            invariant
                n == ids@.len(),
                i <= n,
                parts@.len() == i,
                forall|j: int| 0 <= j < i ==> parts@[j]@ == ids@[j].value@,
            decreases n - i,
        {
            parts.push(ids[i].value.clone());
            i += 1;
        }
        let joined = join_with(&parts, ".");
        proof {
            assert(str_views(parts@) =~= Seq::new(ids@.len(), |i: int| ids@[i].value@));
        }
        QualifiedName::new(joined)
    }
}

/// Some column of the list equals the name up to ASCII case.
pub open spec fn spec_contains_ieq(cols: Seq<Seq<char>>, name: Seq<char>) -> bool {
    exists|i: int| 0 <= i < cols.len() && #[trigger] str_ieq(cols[i], name)
}

fn contains_ieq(cols: &Vec<String>, name: &str) -> (r: bool)
    ensures
        r == spec_contains_ieq(str_views(cols@), name@),
{
    let n = cols.len();
    let mut i: usize = 0;
    while i < n
        invariant
            n == cols@.len(),
            i <= n,
            forall|j: int| 0 <= j < i ==> !str_ieq(#[trigger] str_views(cols@)[j], name@),
        decreases n - i,
    {
        if crate::strutil::eq_ignore_case(cols[i].as_str(), name) {
            proof {
                assert(str_ieq(str_views(cols@)[i as int], name@));
            }
            return true;
        }
        i += 1;
    }
    false
}

/// Some column of the list equals the name exactly.
pub open spec fn spec_contains_exact(cols: Seq<Seq<char>>, name: Seq<char>) -> bool {
    exists|i: int| 0 <= i < cols.len() && #[trigger] cols[i] == name
}

fn contains_exact(cols: &Vec<String>, name: &str) -> (r: bool)
    ensures
        r == spec_contains_exact(str_views(cols@), name@),
{
    let n = cols.len();
    let mut i: usize = 0;
    while i < n
        invariant
            n == cols@.len(),
            i <= n,
            forall|j: int| 0 <= j < i ==> #[trigger] str_views(cols@)[j] != name@,
        decreases n - i,
    {
        if crate::strutil::str_eq(cols[i].as_str(), name) {
            proof {
                assert(str_views(cols@)[i as int] == name@);
            }
            return true;
        }
        i += 1;
    }
    false
}

/// Some column of the list is a positional placeholder, named
/// `?column?N`; such a list came from a projection whose columns could
/// not all be inferred, so column checks against it are skipped.
pub open spec fn spec_any_placeholder(cols: Seq<Seq<char>>) -> bool {
    exists|i: int|
        0 <= i < cols.len() && #[trigger] spec_starts_with(cols[i], "?column?"@)
}

fn any_placeholder(cols: &Vec<String>) -> (r: bool)
    ensures
        r == spec_any_placeholder(str_views(cols@)),
{
    let n = cols.len();
    let mut i: usize = 0;
    while i < n
        invariant
            n == cols@.len(),
            i <= n,
            forall|j: int|
                0 <= j < i ==> !spec_starts_with(#[trigger] str_views(cols@)[j], "?column?"@),
        decreases n - i,
    {
        if crate::strutil::str_starts_with(cols[i].as_str(), "?column?") {
            proof {
                assert(spec_starts_with(str_views(cols@)[i as int], "?column?"@));
            }
            return true;
        }
        i += 1;
    }
    false
}

/// Whether a relation in scope contains a column of this name: a derived
/// table matches case-insensitively (or always, when its column list is
/// unknown), a CTE matches exactly, a view matches case-insensitively,
/// and a base table is consulted in the catalog.
pub open spec fn spec_rel_contains(
    c: Catalog,
    ctes: Seq<CteEntryModel>,
    re: TableRefModel,
    name: Seq<char>,
) -> bool {
    match re.derived_columns {
        Option::Some(dc) => dc.len() == 0 || spec_contains_ieq(dc, name),
        Option::None => {
            let ci = find_idx(ctes, cte_name_pred(re.table.name));
            if ci >= 0 {
                spec_contains_exact(ctes[ci].columns, name)
            } else {
                match re.view_columns {
                    Option::Some(vc) => spec_contains_ieq(vc, name),
                    Option::None => match spec_get_table(c, re.table) {
                        Option::Some(td) => spec_column_exists(td, name),
                        Option::None => false,
                    },
                }
            }
        }
    }
}

fn rel_contains(c: &Catalog, ctes: &CteMap, re: &TableRef, name: &str) -> (r: bool)
    ensures
        r == spec_rel_contains(*c, ctes@, re@, name@),
{
    if let Some(dc) = &re.derived_columns {
        if dc.len() == 0 {
            true
        } else {
            contains_ieq(dc, name)
        }
    } else {
        match ctes.get(re.table.name.as_str()) {
            Some(cte) => contains_exact(&cte.columns, name),
            None => {
                if let Some(vc) = &re.view_columns {
                    contains_ieq(vc, name)
                } else {
                    match c.get_table(&re.table) {
                        Some(td) => td.column_exists(name),
                        None => false,
                    }
                }
            }
        }
    }
}

/// The lookup names of the relations in scope, in insertion order, whose
/// relation contains this column name.
pub open spec fn spec_found_in(
    c: Catalog,
    ctes: Seq<CteEntryModel>,
    tables: Seq<ScopeEntryModel>,
    name: Seq<char>,
) -> Seq<Seq<char>>
    decreases tables.len(),
{
    if tables.len() == 0 {
        Seq::empty()
    } else {
        let head: Seq<Seq<char>> = if spec_rel_contains(c, ctes, tables[0].re, name) {
            seq![tables[0].name]
        } else {
            Seq::empty()
        };
        head + spec_found_in(c, ctes, tables.drop_first(), name)
    }
}

fn found_in_scope(c: &Catalog, ctes: &CteMap, tables: &Scope, name: &str) -> (r: Vec<String>)
    ensures
        str_views(r@) == spec_found_in(*c, ctes@, tables@, name@),
{
    let n = tables.entries.len();
    let mut r: Vec<String> = Vec::new();
    let mut i: usize = 0;
    proof {
        assert(tables@.skip(0) =~= tables@);
        assert(str_views(r@) =~= Seq::<Seq<char>>::empty());
    }
    while i < n
        invariant
            n == tables.entries@.len(),
            i <= n,
            str_views(r@) + spec_found_in(*c, ctes@, tables@.skip(i as int), name@)
                == spec_found_in(*c, ctes@, tables@, name@),
        decreases n - i,
    {
        let entry = &tables.entries[i];
        proof {
            assert(tables@.skip(i as int)[0] == tables@[i as int]);
            assert(tables@.skip(i as int).drop_first() =~= tables@.skip(i + 1));
        }
        let ghost prev = str_views(r@);
        if rel_contains(c, ctes, &entry.re, name) {
            r.push(entry.name.clone());
            proof {
                assert(str_views(r@) =~= prev.push(tables@[i as int].name));
            }
        }
        proof {
            assert(str_views(r@) + spec_found_in(*c, ctes@, tables@.skip(i + 1), name@)
                =~= spec_found_in(*c, ctes@, tables@, name@));
        }
        i += 1;
    }
    proof {
        assert(tables@.skip(n as int) =~= Seq::<ScopeEntryModel>::empty());
        assert(str_views(r@) + Seq::<Seq<char>>::empty() =~= str_views(r@));
    }
    r
}

/// The first typo suggestion available from the relations in scope, in
/// insertion order, consulting the catalog entry of each.
pub open spec fn spec_first_suggestion(
    c: Catalog,
    tables: Seq<ScopeEntryModel>,
    name: Seq<char>,
) -> Option<Seq<char>>
    decreases tables.len(),
{
    if tables.len() == 0 {
        Option::None
    } else {
        let head = match spec_get_table(c, tables[0].re.table) {
            Option::Some(td) => spec_find_similar(td, name),
            Option::None => Option::None,
        };
        match head {
            Option::Some(s) => Option::Some(s),
            Option::None => spec_first_suggestion(c, tables.drop_first(), name),
        }
    }
}

fn first_suggestion(c: &Catalog, tables: &Scope, name: &str) -> (r: Option<String>)
    ensures
        match r {
            Option::Some(s) => spec_first_suggestion(*c, tables@, name@) == Option::Some(s@),
            Option::None => spec_first_suggestion(*c, tables@, name@) is None,
        },
{
    let n = tables.entries.len();
    let mut i: usize = 0;
    proof {
        assert(tables@.skip(0) =~= tables@);
    }
    while i < n
        invariant
            n == tables.entries@.len(),
            i <= n,
            spec_first_suggestion(*c, tables@.skip(i as int), name@) == spec_first_suggestion(
                *c,
                tables@,
                name@,
            ),
        decreases n - i,
    {
        let entry = &tables.entries[i];
        proof {
            assert(tables@.skip(i as int)[0] == tables@[i as int]);
            assert(tables@.skip(i as int).drop_first() =~= tables@.skip(i + 1));
        }
        if let Some(td) = c.get_table(&entry.re.table) {
            if let Some(s) = find_similar_column(td, name) {
                return Some(s);
            }
        }
        i += 1;
    }
    proof {
        assert(tables@.skip(n as int) =~= Seq::<ScopeEntryModel>::empty());
    }
    None
}

/// The values of a list of identifiers, as fresh strings.
pub(crate) fn ident_values(ids: &Vec<Ident>) -> (r: Vec<String>)
    ensures
        r@.len() == ids@.len(),
        str_views(r@) == Seq::new(ids@.len(), |i: int| ids@[i].value@),
{
    let n = ids.len();
    let mut r: Vec<String> = Vec::new();
    let mut i: usize = 0;
    while i < n
        invariant
            n == ids@.len(),
            i <= n,
            r@.len() == i,
            forall|j: int| 0 <= j < i ==> r@[j]@ == ids@[j].value@,
        decreases n - i,
    {
        r.push(ids[i].value.clone());
        i += 1;
    }
    proof {
        assert(str_views(r@) =~= Seq::new(ids@.len(), |i: int| ids@[i].value@));
    }
    r
}

/// The resolver state a specification speaks about: the relations in
/// scope, the visible CTEs, and the SELECT aliases usable in ORDER BY.
pub struct RState {
    pub tables: Seq<ScopeEntryModel>,
    pub ctes: Seq<CteEntryModel>,
    pub aliases: Seq<Seq<char>>,
}

/// The diagnostics of one qualified column reference `alias.column`,
/// once the alias resolved to a relation in scope.
pub open spec fn spec_qualified_col_diags(
    c: Catalog,
    ctes: Seq<CteEntryModel>,
    alias: Seq<char>,
    re: TableRefModel,
    col: Ident,
) -> Seq<DiagModel> {
    let cname = col.value@;
    match re.derived_columns {
        Option::Some(dc) => {
            if dc.len() != 0 && !spec_contains_ieq(dc, cname) && !spec_any_placeholder(dc) {
                seq![
                    DiagModel {
                        kind: DiagnosticKind::ColumnNotFound,
                        severity: Severity::Error,
                        message: "Column '"@ + cname + "' not found in subquery '"@ + alias + "'"@,
                        span: Option::Some(col.span),
                        help: Option::None,
                        labels: Seq::empty(),
                    },
                ]
            } else {
                Seq::empty()
            }
        }
        Option::None => {
            let ci = find_idx(ctes, cte_name_pred(re.table.name));
            if ci >= 0 {
                if !spec_contains_exact(ctes[ci].columns, cname) {
                    seq![
                        DiagModel {
                            kind: DiagnosticKind::ColumnNotFound,
                            severity: Severity::Error,
                            message: "Column '"@ + cname + "' not found in CTE '"@
                                + spec_qname_render(re.table) + "'"@,
                            span: Option::Some(col.span),
                            help: Option::None,
                            labels: Seq::empty(),
                        },
                    ]
                } else {
                    Seq::empty()
                }
            } else {
                match re.view_columns {
                    Option::Some(vc) => {
                        if !spec_contains_ieq(vc, cname) {
                            seq![
                                DiagModel {
                                    kind: DiagnosticKind::ColumnNotFound,
                                    severity: Severity::Error,
                                    message: "Column '"@ + cname + "' not found in view '"@
                                        + spec_qname_render(re.table) + "'"@,
                                    span: Option::Some(col.span),
                                    help: Option::None,
                                    labels: Seq::empty(),
                                },
                            ]
                        } else {
                            Seq::empty()
                        }
                    }
                    Option::None => match spec_get_table(c, re.table) {
                        Option::Some(td) => {
                            if !spec_column_exists(td, cname) {
                                seq![
                                    DiagModel {
                                        kind: DiagnosticKind::ColumnNotFound,
                                        severity: Severity::Error,
                                        message: "Column '"@ + cname + "' not found in table '"@
                                            + spec_qname_render(re.table) + "'"@,
                                        span: Option::Some(col.span),
                                        help: match spec_find_similar(td, cname) {
                                            Option::Some(s) => Option::Some(
                                                "Did you mean '"@ + s + "'?"@,
                                            ),
                                            Option::None => Option::None,
                                        },
                                        labels: Seq::empty(),
                                    },
                                ]
                            } else {
                                Seq::empty()
                            }
                        }
                        Option::None => Seq::empty(),
                    },
                }
            }
        }
    }
}

/// The diagnostics of one column reference: a qualified reference checks
/// its alias and that relation alone; an unqualified reference scans the
/// whole scope and reports absence or ambiguity.
pub open spec fn spec_resolve_column(
    c: Catalog,
    st: RState,
    t: Option<Ident>,
    col: Ident,
) -> Seq<DiagModel> {
    let cname = col.value@;
    match t {
        Option::Some(tid) => {
            let ti = find_idx(st.tables, scope_name_pred(tid.value@));
            if ti == -1 {
                seq![
                    DiagModel {
                        kind: DiagnosticKind::TableNotFound,
                        severity: Severity::Error,
                        message: "Table or alias '"@ + tid.value@ + "' not found in FROM clause"@,
                        span: Option::Some(tid.span),
                        help: Option::None,
                        labels: Seq::empty(),
                    },
                ]
            } else {
                spec_qualified_col_diags(c, st.ctes, tid.value@, st.tables[ti].re, col)
            }
        }
        Option::None => {
            let found = spec_found_in(c, st.ctes, st.tables, cname);
            if found.len() == 0 {
                if spec_contains_ieq(st.aliases, cname) {
                    Seq::empty()
                } else {
                    seq![
                        DiagModel {
                            kind: DiagnosticKind::ColumnNotFound,
                            severity: Severity::Error,
                            message: "Column '"@ + cname + "' not found"@,
                            span: Option::Some(col.span),
                            help: match spec_first_suggestion(c, st.tables, cname) {
                                Option::Some(s) => Option::Some("Did you mean '"@ + s + "'?"@),
                                Option::None => Option::None,
                            },
                            labels: Seq::empty(),
                        },
                    ]
                }
            } else if found.len() == 1 {
                Seq::empty()
            } else {
                seq![
                    DiagModel {
                        kind: DiagnosticKind::AmbiguousColumn,
                        severity: Severity::Error,
                        message: "Column '"@ + cname + "' is ambiguous (found in tables: "@
                            + spec_join(found, ", "@) + ")"@,
                        span: Option::Some(col.span),
                        help: Option::Some(
                            "Qualify the column with a table name: "@ + found[0] + "."@ + cname,
                        ),
                        labels: Seq::empty(),
                    },
                ]
            }
        }
    }
}

/// A table-not-found diagnostic for a FROM-clause or INSERT target name,
/// anchored at the final identifier segment when one exists.
pub open spec fn spec_table_not_found_diag(name: ObjectName, q: QNameModel) -> DiagModel {
    DiagModel {
        kind: DiagnosticKind::TableNotFound,
        severity: Severity::Error,
        message: "Table '"@ + spec_qname_render(q) + "' not found"@,
        span: if name.0@.len() > 0 {
            Option::Some(name.0@.last().span)
        } else {
            Option::None
        },
        help: Option::Some("Check that the table exists in your schema definition"@),
        labels: Seq::empty(),
    }
}

/// The column names a SELECT body exposes, as a CTE or derived table: a
/// plain or compound identifier contributes its final segment, an alias
/// its name; wildcards contribute nothing; any other expression takes the
/// positional placeholder `?column?N` with N its one-based item index.
/// Set operations expose the left branch; other bodies expose nothing.
pub open spec fn spec_infer_cte_columns(se: SetExpr) -> Seq<Seq<char>>
    decreases se,
{
    match se {
        SetExpr::SetOperation { left, right } => spec_infer_cte_columns(*left),
        SetExpr::Select(sel) => spec_infer_item_columns(sel.projection@, 0),
        _ => Seq::empty(),
    }
}

/// The inferred column names of projection items starting at item index
/// `idx`.
pub open spec fn spec_infer_item_columns(items: Seq<SelectItem>, idx: int) -> Seq<Seq<char>>
    decreases items,
{
    if items.len() == 0 {
        Seq::empty()
    } else {
        let head: Seq<Seq<char>> = match items[0] {
            SelectItem::Expr(e) => match e {
                crate::ast::Expr::Ident(id) => seq![id.value@],
                crate::ast::Expr::CompoundIdent(ids) => if ids@.len() > 0 {
                    seq![ids@.last().value@]
                } else {
                    Seq::empty()
                },
                _ => seq!["?column?"@ + crate::strutil::spec_digits((idx + 1) as nat)],
            },
            SelectItem::ExprWithAlias { expr, alias } => seq![alias.value@],
            SelectItem::Wildcard => Seq::empty(),
            SelectItem::QualifiedWildcard(_) => Seq::empty(),
        };
        head + spec_infer_item_columns(items.drop_first(), idx + 1)
    }
}

/// The SELECT aliases visible to ORDER BY: explicit aliases, and plain
/// column identifiers acting as their own alias.
pub open spec fn spec_collect_select_aliases(se: SetExpr) -> Seq<Seq<char>> {
    match se {
        SetExpr::Select(sel) => spec_collect_alias_items(sel.projection@),
        _ => Seq::empty(),
    }
}

/// The aliases contributed by projection items.
pub open spec fn spec_collect_alias_items(items: Seq<SelectItem>) -> Seq<Seq<char>>
    decreases items,
{
    if items.len() == 0 {
        Seq::empty()
    } else {
        let head: Seq<Seq<char>> = match items[0] {
            SelectItem::ExprWithAlias { expr, alias } => seq![alias.value@],
            SelectItem::Expr(e) => match e {
                crate::ast::Expr::Ident(id) => seq![id.value@],
                _ => Seq::empty(),
            },
            _ => Seq::empty(),
        };
        head + spec_collect_alias_items(items.drop_first())
    }
}

/// The diagnostics of an expression, resolved against a fixed scope.
pub open spec fn spec_resolve_expr(c: Catalog, st: RState, e: Expr) -> Seq<DiagModel>
    decreases e,
{
    match e {
        Expr::Literal(_) => Seq::empty(),
        Expr::Ident(id) => spec_resolve_column(c, st, Option::None, id),
        Expr::CompoundIdent(ids) => {
            if ids@.len() == 2 {
                spec_resolve_column(c, st, Option::Some(ids@[0]), ids@[1])
            } else if ids@.len() == 3 {
                spec_resolve_column(c, st, Option::Some(ids@[1]), ids@[2])
            } else {
                Seq::empty()
            }
        }
        Expr::Binary { left, op, right, left_span, right_span } => spec_resolve_expr(c, st, *left)
            + spec_resolve_expr(c, st, *right),
        Expr::Unary(inner) => spec_resolve_expr(c, st, *inner),
        Expr::Nested(inner) => spec_resolve_expr(c, st, *inner),
        Expr::InList { expr, list } => spec_resolve_expr(c, st, *expr) + spec_resolve_expr_list(
            c,
            st,
            list@,
        ),
        Expr::Between { expr, low, high } => spec_resolve_expr(c, st, *expr) + spec_resolve_expr(
            c,
            st,
            *low,
        ) + spec_resolve_expr(c, st, *high),
        Expr::Case { operand, conditions, results, else_result } => {
            let d1 = match operand {
                Option::Some(op) => spec_resolve_expr(c, st, *op),
                Option::None => Seq::empty(),
            };
            let d2 = spec_resolve_expr_list(c, st, conditions@);
            let d3 = spec_resolve_expr_list(c, st, results@);
            let d4 = match else_result {
                Option::Some(er) => spec_resolve_expr(c, st, *er),
                Option::None => Seq::empty(),
            };
            d1 + d2 + d3 + d4
        }
        Expr::Subquery(q) => spec_resolve_query(c, st, *q).1,
        Expr::Other(children) => spec_resolve_expr_list(c, st, children@),
    }
}

/// The diagnostics of a list of expressions, in order.
pub open spec fn spec_resolve_expr_list(c: Catalog, st: RState, es: Seq<Expr>) -> Seq<DiagModel>
    decreases es,
{
    if es.len() == 0 {
        Seq::empty()
    } else {
        spec_resolve_expr(c, st, es[0]) + spec_resolve_expr_list(c, st, es.drop_first())
    }
}

/// The diagnostics of the columns of a USING clause, each resolved as an
/// unqualified column reference.
pub open spec fn spec_resolve_using(c: Catalog, st: RState, cols: Seq<Ident>) -> Seq<DiagModel>
    decreases cols,
{
    if cols.len() == 0 {
        Seq::empty()
    } else {
        spec_resolve_column(c, st, Option::None, cols[0]) + spec_resolve_using(
            c,
            st,
            cols.drop_first(),
        )
    }
}

/// The diagnostics of one projection item: expressions resolve; a
/// qualified wildcard requires its relation in scope; a bare wildcard in
/// a query without a FROM clause, when no relation is in scope either,
/// is reported.  A bare wildcard over a FROM clause is never reported
/// here: when its relation failed to resolve, that failure already
/// carries the diagnostic.
pub open spec fn spec_resolve_select_item(
    c: Catalog,
    st: RState,
    has_from: bool,
    item: SelectItem,
) -> Seq<DiagModel>
    decreases item,
{
    match item {
        SelectItem::Expr(e) => spec_resolve_expr(c, st, e),
        SelectItem::ExprWithAlias { expr, alias } => spec_resolve_expr(c, st, expr),
        SelectItem::QualifiedWildcard(ids) => {
            if ids@.len() > 0 {
                let t = ids@[0];
                if find_idx(st.tables, scope_name_pred(t.value@)) == -1 {
                    seq![
                        DiagModel {
                            kind: DiagnosticKind::TableNotFound,
                            severity: Severity::Error,
                            message: "Table or alias '"@ + t.value@
                                + "' not found in FROM clause"@,
                            span: Option::Some(t.span),
                            help: Option::None,
                            labels: Seq::empty(),
                        },
                    ]
                } else {
                    Seq::empty()
                }
            } else {
                Seq::empty()
            }
        }
        SelectItem::Wildcard => {
            if !has_from && st.tables.len() == 0 {
                seq![
                    DiagModel {
                        kind: DiagnosticKind::TableNotFound,
                        severity: Severity::Error,
                        message: "SELECT * requires at least one table in FROM clause"@,
                        span: Option::None,
                        help: Option::None,
                        labels: Seq::empty(),
                    },
                ]
            } else {
                Seq::empty()
            }
        }
    }
}

/// The diagnostics of a list of projection items, in order.
pub open spec fn spec_resolve_select_items(
    c: Catalog,
    st: RState,
    has_from: bool,
    items: Seq<SelectItem>,
) -> Seq<DiagModel>
    decreases items,
{
    if items.len() == 0 {
        Seq::empty()
    } else {
        spec_resolve_select_item(c, st, has_from, items[0]) + spec_resolve_select_items(
            c,
            st,
            has_from,
            items.drop_first(),
        )
    }
}

/// The scope and diagnostics after resolving one FROM relation.
pub open spec fn spec_resolve_table_factor(c: Catalog, st: RState, tf: TableFactor) -> (
    Seq<ScopeEntryModel>,
    Seq<DiagModel>,
)
    decreases tf,
{
    match tf {
        TableFactor::Table { name, alias, has_args } => {
            let q = spec_object_qname(name);
            if has_args {
                match alias {
                    Option::Some(a) => {
                        let columns: Seq<Seq<char>> = if a.columns@.len() > 0 {
                            Seq::new(a.columns@.len(), |i: int| a.columns@[i].value@)
                        } else {
                            Seq::empty()
                        };
                        let re = TableRefModel {
                            table: QNameModel { schema: Option::None, name: a.name.value@ },
                            view_columns: Option::None,
                            derived_columns: Option::Some(columns),
                        };
                        (spec_scope_upsert(st.tables, a.name.value@, re), Seq::empty())
                    }
                    Option::None => (st.tables, Seq::empty()),
                }
            } else {
                let is_cte = find_idx(st.ctes, cte_name_pred(q.name)) >= 0;
                let is_view = !is_cte && spec_get_view(c, q) is Some;
                if !is_cte && !is_view && spec_get_table(c, q) is None {
                    (st.tables, seq![spec_table_not_found_diag(name, q)])
                } else {
                    let view_columns: Option<Seq<Seq<char>>> = if is_view {
                        Option::Some(
                            str_views(spec_get_view(c, q)->0.columns@),
                        )
                    } else {
                        Option::None
                    };
                    let lookup_name: Seq<char> = match alias {
                        Option::Some(a) => a.name.value@,
                        Option::None => q.name,
                    };
                    let re = TableRefModel {
                        table: q,
                        view_columns,
                        derived_columns: Option::None,
                    };
                    (spec_scope_upsert(st.tables, lookup_name, re), Seq::empty())
                }
            }
        }
        TableFactor::Derived { lateral, subquery, alias } => {
            let inner_tables: Seq<ScopeEntryModel> = if lateral {
                st.tables
            } else {
                Seq::empty()
            };
            let inner = RState { tables: inner_tables, ctes: st.ctes, aliases: st.aliases };
            let d = spec_resolve_query(c, inner, *subquery).1;
            match alias {
                Option::Some(a) => {
                    let columns: Seq<Seq<char>> = if a.columns@.len() > 0 {
                        Seq::new(a.columns@.len(), |i: int| a.columns@[i].value@)
                    } else {
                        spec_infer_cte_columns(subquery.body)
                    };
                    let re = TableRefModel {
                        table: QNameModel { schema: Option::None, name: a.name.value@ },
                        view_columns: Option::None,
                        derived_columns: Option::Some(columns),
                    };
                    (spec_scope_upsert(st.tables, a.name.value@, re), d)
                }
                Option::None => (st.tables, d),
            }
        }
        TableFactor::TableFunction { alias } => {
            match alias {
                Option::Some(a) => {
                    let columns: Seq<Seq<char>> = if a.columns@.len() > 0 {
                        Seq::new(a.columns@.len(), |i: int| a.columns@[i].value@)
                    } else {
                        Seq::empty()
                    };
                    let re = TableRefModel {
                        table: QNameModel { schema: Option::None, name: a.name.value@ },
                        view_columns: Option::None,
                        derived_columns: Option::Some(columns),
                    };
                    (spec_scope_upsert(st.tables, a.name.value@, re), Seq::empty())
                }
                Option::None => (st.tables, Seq::empty()),
            }
        }
        TableFactor::Other => (st.tables, Seq::empty()),
    }
}

/// The diagnostics of one join's condition: an ON expression resolves in
/// the scope built so far; USING columns resolve unqualified; natural and
/// unconditioned joins check nothing.
pub open spec fn spec_resolve_join_condition(c: Catalog, st: RState, j: Join) -> Seq<DiagModel>
    decreases j,
{
    match j.kind {
        JoinKind::Unconstrained => Seq::empty(),
        _ => match j.constraint {
            JoinConstraint::On(e) => spec_resolve_expr(c, st, e),
            JoinConstraint::Using(cols) => spec_resolve_using(c, st, cols@),
            JoinConstraint::Natural => Seq::empty(),
            JoinConstraint::Unconditioned => Seq::empty(),
        },
    }
}

/// The scope and diagnostics after resolving a chain of joins.
pub open spec fn spec_resolve_joins(c: Catalog, st: RState, joins: Seq<Join>) -> (
    Seq<ScopeEntryModel>,
    Seq<DiagModel>,
)
    decreases joins,
{
    if joins.len() == 0 {
        (st.tables, Seq::empty())
    } else {
        let (t1, d1) = spec_resolve_table_factor(c, st, joins[0].relation);
        let st1 = RState { tables: t1, ctes: st.ctes, aliases: st.aliases };
        let d2 = spec_resolve_join_condition(c, st1, joins[0]);
        let (t2, d3) = spec_resolve_joins(c, st1, joins.drop_first());
        (t2, d1 + d2 + d3)
    }
}

/// The scope and diagnostics after resolving one FROM item.
pub open spec fn spec_resolve_twj(c: Catalog, st: RState, twj: TableWithJoins) -> (
    Seq<ScopeEntryModel>,
    Seq<DiagModel>,
)
    decreases twj,
{
    let (t1, d1) = spec_resolve_table_factor(c, st, twj.relation);
    let st1 = RState { tables: t1, ctes: st.ctes, aliases: st.aliases };
    let (t2, d2) = spec_resolve_joins(c, st1, twj.joins@);
    (t2, d1 + d2)
}

/// The scope and diagnostics after resolving a FROM clause, left to
/// right.
pub open spec fn spec_resolve_twj_list(c: Catalog, st: RState, twjs: Seq<TableWithJoins>) -> (
    Seq<ScopeEntryModel>,
    Seq<DiagModel>,
)
    decreases twjs,
{
    if twjs.len() == 0 {
        (st.tables, Seq::empty())
    } else {
        let (t1, d1) = spec_resolve_twj(c, st, twjs[0]);
        let st1 = RState { tables: t1, ctes: st.ctes, aliases: st.aliases };
        let (t2, d2) = spec_resolve_twj_list(c, st1, twjs.drop_first());
        (t2, d1 + d2)
    }
}

/// The scope and diagnostics after resolving a SELECT: FROM binds first,
/// then the projection, WHERE, GROUP BY and HAVING resolve against it.
pub open spec fn spec_resolve_select(c: Catalog, st: RState, sel: Select) -> (
    Seq<ScopeEntryModel>,
    Seq<DiagModel>,
)
    decreases sel,
{
    let (t1, d1) = spec_resolve_twj_list(c, st, sel.from@);
    let st1 = RState { tables: t1, ctes: st.ctes, aliases: st.aliases };
    let d2 = spec_resolve_select_items(c, st1, sel.from@.len() > 0, sel.projection@);
    let d3 = match sel.selection {
        Option::Some(e) => spec_resolve_expr(c, st1, e),
        Option::None => Seq::empty(),
    };
    let d4 = spec_resolve_expr_list(c, st1, sel.group_by@);
    let d5 = match sel.having {
        Option::Some(e) => spec_resolve_expr(c, st1, e),
        Option::None => Seq::empty(),
    };
    (t1, d1 + d2 + d3 + d4 + d5)
}

/// The scope and diagnostics after resolving a query body.
pub open spec fn spec_resolve_set_expr(c: Catalog, st: RState, se: SetExpr) -> (
    Seq<ScopeEntryModel>,
    Seq<DiagModel>,
)
    decreases se,
{
    match se {
        SetExpr::Select(sel) => spec_resolve_select(c, st, *sel),
        SetExpr::Query(q) => {
            let (st2, d) = spec_resolve_query(c, st, *q);
            (st2.tables, d)
        }
        SetExpr::SetOperation { left, right } => {
            let (t1, d1) = spec_resolve_set_expr(c, st, *left);
            let st1 = RState { tables: t1, ctes: st.ctes, aliases: st.aliases };
            let (t2, d2) = spec_resolve_set_expr(c, st1, *right);
            (t2, d1 + d2)
        }
        _ => (st.tables, Seq::empty()),
    }
}

/// The CTEs in effect and the diagnostics after registering one CTE: its
/// columns are the explicit list or the inferred ones; a recursive CTE is
/// pre-registered so its body can reference itself; the body resolves in
/// a scope snapshot that is discarded, and the CTE is then (re)registered.
pub open spec fn spec_resolve_cte(c: Catalog, st: RState, recursive: bool, cte: Cte) -> (
    Seq<CteEntryModel>,
    Seq<DiagModel>,
)
    decreases cte,
{
    let columns: Seq<Seq<char>> = if cte.columns@.len() > 0 {
        Seq::new(cte.columns@.len(), |i: int| cte.columns@[i].value@)
    } else {
        spec_infer_cte_columns(cte.query.body)
    };
    let ctes_pre = if recursive {
        spec_cte_upsert(st.ctes, cte.name.value@, columns)
    } else {
        st.ctes
    };
    let st_body = RState { tables: st.tables, ctes: ctes_pre, aliases: st.aliases };
    let d = spec_resolve_set_expr(c, st_body, cte.query.body).1;
    (spec_cte_upsert(ctes_pre, cte.name.value@, columns), d)
}

/// The CTEs in effect and the diagnostics after registering a WITH
/// clause's CTEs, in order: each body sees the CTEs registered before it.
pub open spec fn spec_resolve_ctes(c: Catalog, st: RState, recursive: bool, ctes: Seq<Cte>) -> (
    Seq<CteEntryModel>,
    Seq<DiagModel>,
)
    decreases ctes,
{
    if ctes.len() == 0 {
        (st.ctes, Seq::empty())
    } else {
        let (cs1, d1) = spec_resolve_cte(c, st, recursive, ctes[0]);
        let st1 = RState { tables: st.tables, ctes: cs1, aliases: st.aliases };
        let (cs2, d2) = spec_resolve_ctes(c, st1, recursive, ctes.drop_first());
        (cs2, d1 + d2)
    }
}

/// The state and diagnostics after resolving a query: WITH CTEs register
/// first and stay visible for the body and its descendants only; ORDER BY
/// resolves last with the SELECT aliases in scope; the CTEs and aliases
/// of the surrounding context are restored afterwards.
pub open spec fn spec_resolve_query(c: Catalog, st: RState, q: Query) -> (RState, Seq<DiagModel>)
    decreases q,
{
    let (ctes2, d1) = match q.with {
        Option::Some(w) => spec_resolve_ctes(c, st, w.recursive, w.ctes@),
        Option::None => (st.ctes, Seq::empty()),
    };
    let st1 = RState { tables: st.tables, ctes: ctes2, aliases: st.aliases };
    let (tables2, d2) = spec_resolve_set_expr(c, st1, q.body);
    let aliases2 = spec_collect_select_aliases(q.body);
    let st2 = RState { tables: tables2, ctes: ctes2, aliases: aliases2 };
    let d3 = spec_resolve_expr_list(c, st2, q.order_by@);
    (RState { tables: tables2, ctes: st.ctes, aliases: st.aliases }, d1 + d2 + d3)
}

/// The diagnostics for explicitly listed INSERT columns that are absent
/// from the target table.
pub open spec fn spec_insert_col_diags(td: TableDef, q: QNameModel, cols: Seq<Ident>) -> Seq<
    DiagModel,
>
    decreases cols,
{
    if cols.len() == 0 {
        Seq::empty()
    } else {
        let head: Seq<DiagModel> = if !spec_column_exists(td, cols[0].value@) {
            seq![
                DiagModel {
                    kind: DiagnosticKind::ColumnNotFound,
                    severity: Severity::Error,
                    message: "Column '"@ + cols[0].value@ + "' not found in table '"@
                        + spec_qname_render(q) + "'"@,
                    span: Option::Some(cols[0].span),
                    help: match spec_find_similar(td, cols[0].value@) {
                        Option::Some(s) => Option::Some("Did you mean '"@ + s + "'?"@),
                        Option::None => Option::None,
                    },
                    labels: Seq::empty(),
                },
            ]
        } else {
            Seq::empty()
        };
        head + spec_insert_col_diags(td, q, cols.drop_first())
    }
}

/// The count-mismatch diagnostic for one INSERT VALUES row.
pub open spec fn spec_row_mismatch_diag(
    got: int,
    expected: int,
    has_cols: bool,
    q: QNameModel,
) -> DiagModel {
    DiagModel {
        kind: DiagnosticKind::ColumnCountMismatch,
        severity: Severity::Error,
        message: "INSERT has "@ + crate::strutil::spec_digits(got as nat) + " value(s) but "@
            + crate::strutil::spec_digits(expected as nat) + " column(s) were specified"@,
        span: Option::None,
        help: Option::Some(
            if has_cols {
                "Provide "@ + crate::strutil::spec_digits(expected as nat)
                    + " value(s) to match the column list"@
            } else {
                "Table '"@ + spec_qname_render(q) + "' has "@ + crate::strutil::spec_digits(
                    expected as nat,
                ) + " columns. Specify columns explicitly or provide "@
                    + crate::strutil::spec_digits(expected as nat) + " values"@
            },
        ),
        labels: Seq::empty(),
    }
}

/// The diagnostics of the INSERT VALUES rows: a count mismatch per
/// offending row, and the diagnostics of each row's expressions.
pub open spec fn spec_insert_rows_diags(
    c: Catalog,
    st: RState,
    expected: int,
    has_cols: bool,
    q: QNameModel,
    rows: Seq<Vec<Expr>>,
) -> Seq<DiagModel>
    decreases rows,
{
    if rows.len() == 0 {
        Seq::empty()
    } else {
        let head: Seq<DiagModel> = if rows[0]@.len() != expected {
            seq![spec_row_mismatch_diag(rows[0]@.len() as int, expected, has_cols, q)]
        } else {
            Seq::empty()
        };
        head + spec_resolve_expr_list(c, st, rows[0]@) + spec_insert_rows_diags(
            c,
            st,
            expected,
            has_cols,
            q,
            rows.drop_first(),
        )
    }
}

/// The scope and diagnostics after resolving an INSERT: the target table
/// must exist; every listed column must exist in it; with a VALUES
/// source, each row's length is compared against the effective column
/// count — the column list length, or the table's column count when no
/// list is given; with any other source, the source query resolves
/// instead.
pub open spec fn spec_resolve_insert(c: Catalog, st: RState, ins: crate::ast::Insert) -> (
    Seq<ScopeEntryModel>,
    Seq<DiagModel>,
)
    decreases ins,
{
    let q = spec_object_qname(ins.table_name);
    match spec_get_table(c, q) {
        Option::None => (st.tables, seq![spec_table_not_found_diag(ins.table_name, q)]),
        Option::Some(td) => {
            let d1 = spec_insert_col_diags(td, q, ins.columns@);
            match ins.source {
                Option::Some(src) => match src.body {
                    SetExpr::Values(rows) => {
                        let expected: int = if ins.columns@.len() == 0 {
                            td.columns@.len() as int
                        } else {
                            ins.columns@.len() as int
                        };
                        (
                            st.tables,
                            d1 + spec_insert_rows_diags(
                                c,
                                st,
                                expected,
                                ins.columns@.len() > 0,
                                q,
                                rows@,
                            ),
                        )
                    }
                    _ => {
                        let (t2, d2) = spec_resolve_set_expr(c, st, src.body);
                        (t2, d1 + d2)
                    }
                },
                Option::None => (st.tables, d1),
            }
        }
    }
}

/// The diagnostics of UPDATE SET assignments: each column target is
/// validated against the target table specifically, then its value
/// expression resolves in scope.
pub open spec fn spec_resolve_assignments(
    c: Catalog,
    st: RState,
    tq: Option<QNameModel>,
    td: Option<TableDef>,
    asgs: Seq<crate::ast::Assignment>,
) -> Seq<DiagModel>
    decreases asgs,
{
    if asgs.len() == 0 {
        Seq::empty()
    } else {
        let head: Seq<DiagModel> = match asgs[0].target {
            crate::ast::AssignTarget::Column(ids) => {
                if ids@.len() > 0 {
                    match td {
                        Option::Some(t) => {
                            if !spec_column_exists(t, ids@.last().value@) {
                                seq![
                                    DiagModel {
                                        kind: DiagnosticKind::ColumnNotFound,
                                        severity: Severity::Error,
                                        message: "Column '"@ + ids@.last().value@
                                            + "' not found in table '"@ + (match tq {
                                            Option::Some(q) => spec_qname_render(q),
                                            Option::None => Seq::empty(),
                                        }) + "'"@,
                                        span: Option::Some(ids@.last().span),
                                        help: match spec_find_similar(t, ids@.last().value@) {
                                            Option::Some(s) => Option::Some(
                                                "Did you mean '"@ + s + "'?"@,
                                            ),
                                            Option::None => Option::None,
                                        },
                                        labels: Seq::empty(),
                                    },
                                ]
                            } else {
                                Seq::empty()
                            }
                        }
                        Option::None => Seq::empty(),
                    }
                } else {
                    Seq::empty()
                }
            }
            crate::ast::AssignTarget::Tuple => Seq::empty(),
        };
        head + spec_resolve_expr(c, st, asgs[0].value) + spec_resolve_assignments(
            c,
            st,
            tq,
            td,
            asgs.drop_first(),
        )
    }
}

/// The scope and diagnostics after resolving an UPDATE: the target table
/// (and PostgreSQL-style FROM) register in scope, SET targets validate
/// against the target table, and values and WHERE resolve in scope.
pub open spec fn spec_resolve_update(c: Catalog, st: RState, up: crate::ast::Update) -> (
    Seq<ScopeEntryModel>,
    Seq<DiagModel>,
)
    decreases up,
{
    let (t1, d1) = spec_resolve_twj(c, st, up.table);
    let st1 = RState { tables: t1, ctes: st.ctes, aliases: st.aliases };
    let (t2, d2) = match up.from {
        Option::Some(f) => spec_resolve_twj(c, st1, f),
        Option::None => (t1, Seq::empty()),
    };
    let st2 = RState { tables: t2, ctes: st.ctes, aliases: st.aliases };
    let tq: Option<QNameModel> = match up.table.relation {
        TableFactor::Table { name, alias, has_args } => Option::Some(spec_object_qname(name)),
        _ => Option::None,
    };
    let td: Option<TableDef> = match tq {
        Option::Some(q) => spec_get_table(c, q),
        Option::None => Option::None,
    };
    let d3 = spec_resolve_assignments(c, st2, tq, td, up.assignments@);
    let d4 = match up.selection {
        Option::Some(e) => spec_resolve_expr(c, st2, e),
        Option::None => Seq::empty(),
    };
    (t2, d1 + d2 + d3 + d4)
}

/// The scope and diagnostics after resolving a DELETE: FROM and USING
/// relations register in scope, then WHERE resolves.
pub open spec fn spec_resolve_delete(c: Catalog, st: RState, del: crate::ast::Delete) -> (
    Seq<ScopeEntryModel>,
    Seq<DiagModel>,
)
    decreases del,
{
    let (t1, d1) = spec_resolve_twj_list(c, st, del.from@);
    let st1 = RState { tables: t1, ctes: st.ctes, aliases: st.aliases };
    let (t2, d2) = spec_resolve_twj_list(c, st1, del.using@);
    let st2 = RState { tables: t2, ctes: st.ctes, aliases: st.aliases };
    let d3 = match del.selection {
        Option::Some(e) => spec_resolve_expr(c, st2, e),
        Option::None => Seq::empty(),
    };
    (t2, d1 + d2 + d3)
}

/// The state and diagnostics after resolving one statement: SELECT,
/// INSERT, UPDATE and DELETE are covered; other statements resolve to
/// nothing.
pub open spec fn spec_resolve_statement(c: Catalog, st: RState, stmt: crate::ast::Statement) -> (
    RState,
    Seq<DiagModel>,
)
    decreases stmt,
{
    match stmt {
        crate::ast::Statement::Query(q) => spec_resolve_query(c, st, *q),
        crate::ast::Statement::Insert(ins) => {
            let (t, d) = spec_resolve_insert(c, st, ins);
            (RState { tables: t, ctes: st.ctes, aliases: st.aliases }, d)
        }
        crate::ast::Statement::Update(up) => {
            let (t, d) = spec_resolve_update(c, st, up);
            (RState { tables: t, ctes: st.ctes, aliases: st.aliases }, d)
        }
        crate::ast::Statement::Delete(del) => {
            let (t, d) = spec_resolve_delete(c, st, del);
            (RState { tables: t, ctes: st.ctes, aliases: st.aliases }, d)
        }
        _ => (st, Seq::empty()),
    }
}

/// The dereferenced value of an optional identifier reference.
pub open spec fn deref_ident_opt(t: Option<&Ident>) -> Option<Ident> {
    match t {
        Option::Some(i) => Option::Some(*i),
        Option::None => Option::None,
    }
}

/// The name resolver for one statement: it holds the catalog, the scope
/// built so far, the CTEs in effect, the SELECT aliases usable in ORDER
/// BY, and the diagnostics collected.
pub struct NameResolver<'a> {
    pub catalog: &'a Catalog,
    pub tables: Scope,
    pub ctes: CteMap,
    pub select_aliases: Vec<String>,
    pub diagnostics: Vec<Diagnostic>,
}

impl<'a> NameResolver<'a> {
    /// The resolver's scope state, as specifications speak about it.
    pub open spec fn st(&self) -> RState {
        RState {
            tables: self.tables@,
            ctes: self.ctes@,
            aliases: str_views(self.select_aliases@),
        }
    }

    /// A fresh resolver over the given catalog, with empty scope and no
    /// diagnostics.
    pub fn new(catalog: &'a Catalog) -> (r: NameResolver<'a>)
        ensures
            r.catalog == catalog,
            r.st().tables =~= Seq::<ScopeEntryModel>::empty(),
            r.st().ctes =~= Seq::<CteEntryModel>::empty(),
            r.st().aliases =~= Seq::<Seq<char>>::empty(),
            r.diagnostics@.len() == 0,
    {
        let r = NameResolver {
            catalog,
            tables: Scope::new(),
            ctes: CteMap::new(),
            select_aliases: Vec::new(),
            diagnostics: Vec::new(),
        };
        proof {
            assert(str_views(r.select_aliases@) =~= Seq::<Seq<char>>::empty());
        }
        r
    }

    /// Consume the resolver and return the collected diagnostics.
    pub fn into_diagnostics(self) -> (r: Vec<Diagnostic>)
        ensures
            r == self.diagnostics,
    {
        self.diagnostics
    }

    /// The inferred column names a SELECT body exposes, for a CTE or
    /// derived table.
    fn infer_cte_columns(&self, se: &SetExpr) -> (r: Vec<String>)
        ensures
            str_views(r@) == spec_infer_cte_columns(*se),
        decreases *se,
    {
        match se {
            SetExpr::SetOperation { left, right } => self.infer_cte_columns(&**left),
            SetExpr::Select(sel) => {
                let items = &sel.projection;
                let n = items.len();
                let mut r: Vec<String> = Vec::new();
                let mut i: usize = 0;
                proof {
                    assert(items@.skip(0) =~= items@);
                    assert(str_views(r@) =~= Seq::<Seq<char>>::empty());
                }
                while i < n
                    invariant
                        n == items@.len(),
                        i <= n,
                        str_views(r@) + spec_infer_item_columns(items@.skip(i as int), i as int)
                            == spec_infer_item_columns(items@, 0),
                    decreases n - i,
                {
                    proof {
                        assert(items@.skip(i as int)[0] == items@[i as int]);
                        assert(items@.skip(i as int).drop_first() =~= items@.skip(i + 1));
                    }
                    let ghost prev = str_views(r@);
                    match &items[i] {
                        SelectItem::Expr(e) => {
                            match e {
                                Expr::Ident(id) => {
                                    r.push(id.value.clone());
                                }
                                Expr::CompoundIdent(ids) => {
                                    if ids.len() > 0 {
                                        r.push(ids[ids.len() - 1].value.clone());
                                        proof {
                                            assert(ids@[ids@.len() - 1] == ids@.last());
                                        }
                                    }
                                }
                                _ => {
                                    let num = usize_to_string(i + 1);
                                    let placeholder = concat2("?column?", num.as_str());
                                    r.push(placeholder);
                                }
                            }
                        }
                        SelectItem::ExprWithAlias { expr, alias } => {
                            r.push(alias.value.clone());
                        }
                        SelectItem::Wildcard => {}
                        SelectItem::QualifiedWildcard(_) => {}
                    }
                    proof {
                        assert(str_views(r@) + spec_infer_item_columns(items@.skip(i + 1), i + 1)
                            =~= spec_infer_item_columns(items@, 0));
                    }
                    i += 1;
                }
                proof {
                    assert(items@.skip(n as int) =~= Seq::<SelectItem>::empty());
                    assert(str_views(r@) + Seq::<Seq<char>>::empty() =~= str_views(r@));
                }
                r
            }
            _ => {
                let r: Vec<String> = Vec::new();
                proof {
                    assert(str_views(r@) =~= Seq::<Seq<char>>::empty());
                }
                r
            }
        }
    }

    /// The SELECT aliases of a query body, usable while resolving its
    /// ORDER BY clause.
    fn collect_select_aliases(&self, se: &SetExpr) -> (r: Vec<String>)
        ensures
            str_views(r@) == spec_collect_select_aliases(*se),
    {
        match se {
            SetExpr::Select(sel) => {
                let items = &sel.projection;
                let n = items.len();
                let mut r: Vec<String> = Vec::new();
                let mut i: usize = 0;
                proof {
                    assert(items@.skip(0) =~= items@);
                    assert(str_views(r@) =~= Seq::<Seq<char>>::empty());
                }
                while i < n
                    invariant
                        n == items@.len(),
                        i <= n,
                        str_views(r@) + spec_collect_alias_items(items@.skip(i as int))
                            == spec_collect_alias_items(items@),
                    decreases n - i,
                {
                    proof {
                        assert(items@.skip(i as int)[0] == items@[i as int]);
                        assert(items@.skip(i as int).drop_first() =~= items@.skip(i + 1));
                    }
                    match &items[i] {
                        SelectItem::ExprWithAlias { expr, alias } => {
                            r.push(alias.value.clone());
                        }
                        SelectItem::Expr(e) => {
                            match e {
                                Expr::Ident(id) => {
                                    r.push(id.value.clone());
                                }
                                _ => {}
                            }
                        }
                        _ => {}
                    }
                    proof {
                        assert(str_views(r@) + spec_collect_alias_items(items@.skip(i + 1))
                            =~= spec_collect_alias_items(items@));
                    }
                    i += 1;
                }
                proof {
                    assert(items@.skip(n as int) =~= Seq::<SelectItem>::empty());
                    assert(str_views(r@) + Seq::<Seq<char>>::empty() =~= str_views(r@));
                }
                r
            }
            _ => {
                let r: Vec<String> = Vec::new();
                proof {
                    assert(str_views(r@) =~= Seq::<Seq<char>>::empty());
                }
                r
            }
        }
    }

    /// Resolve an expression against the current scope; the scope is
    /// unchanged afterwards.
    fn resolve_expr(&mut self, e: &Expr)
        ensures
            final(self).catalog == old(self).catalog,
            final(self).tables@ == old(self).tables@,
            final(self).ctes@ == old(self).ctes@,
            str_views(final(self).select_aliases@) == str_views(old(self).select_aliases@),
            models(final(self).diagnostics@) == models(old(self).diagnostics@) + spec_resolve_expr(
                *old(self).catalog,
                old(self).st(),
                *e,
            ),
        decreases *e,
    {
        let ghost expected = spec_resolve_expr(*old(self).catalog, old(self).st(), *e);
        match e {
            Expr::Literal(_) => {
                proof {
                    assert(models(self.diagnostics@) + Seq::<DiagModel>::empty() =~= models(
                        self.diagnostics@,
                    ));
                }
            }
            Expr::Ident(id) => {
                self.resolve_column(None, id);
            }
            Expr::CompoundIdent(ids) => {
                if ids.len() == 2 {
                    self.resolve_column(Some(&ids[0]), &ids[1]);
                } else if ids.len() == 3 {
                    self.resolve_column(Some(&ids[1]), &ids[2]);
                } else {
                    proof {
                        assert(models(self.diagnostics@) + Seq::<DiagModel>::empty() =~= models(
                            self.diagnostics@,
                        ));
                    }
                }
            }
            Expr::Binary { left, op, right, left_span, right_span } => {
                self.resolve_expr(&**left);
                self.resolve_expr(&**right);
                proof {
                    assert(models(self.diagnostics@) =~= models(old(self).diagnostics@)
                        + expected);
                }
            }
            Expr::Unary(inner) => {
                self.resolve_expr(&**inner);
            }
            Expr::Nested(inner) => {
                self.resolve_expr(&**inner);
            }
            Expr::InList { expr, list } => {
                self.resolve_expr(&**expr);
                self.resolve_expr_vec(list);
                proof {
                    assert(models(self.diagnostics@) =~= models(old(self).diagnostics@)
                        + expected);
                }
            }
            Expr::Between { expr, low, high } => {
                self.resolve_expr(&**expr);
                self.resolve_expr(&**low);
                self.resolve_expr(&**high);
                proof {
                    assert(models(self.diagnostics@) =~= models(old(self).diagnostics@)
                        + expected);
                }
            }
            Expr::Case { operand, conditions, results, else_result } => {
                match operand {
                    Some(op) => {
                        self.resolve_expr(&**op);
                    }
                    None => {}
                }
                self.resolve_expr_vec(conditions);
                self.resolve_expr_vec(results);
                match else_result {
                    Some(er) => {
                        self.resolve_expr(&**er);
                    }
                    None => {}
                }
                proof {
                    assert(models(self.diagnostics@) =~= models(old(self).diagnostics@)
                        + expected);
                }
            }
            Expr::Subquery(q) => {
                let saved = self.tables.clone();
                self.resolve_query(&**q);
                self.tables = saved;
            }
            Expr::Other(children) => {
                self.resolve_expr_vec(children);
            }
        }
    }

    /// Resolve a list of expressions, in order.
    fn resolve_expr_vec(&mut self, es: &Vec<Expr>)
        ensures
            final(self).catalog == old(self).catalog,
            final(self).tables@ == old(self).tables@,
            final(self).ctes@ == old(self).ctes@,
            str_views(final(self).select_aliases@) == str_views(old(self).select_aliases@),
            models(final(self).diagnostics@) == models(old(self).diagnostics@)
                + spec_resolve_expr_list(*old(self).catalog, old(self).st(), es@),
        decreases es@,
    {
        let n = es.len();
        let mut i: usize = 0;
        proof {
            assert(es@.skip(0) =~= es@);
        }
        while i < n
            invariant
                n == es@.len(),
                i <= n,
                self.catalog == old(self).catalog,
                self.tables@ == old(self).tables@,
                self.ctes@ == old(self).ctes@,
                str_views(self.select_aliases@) == str_views(old(self).select_aliases@),
                models(self.diagnostics@) + spec_resolve_expr_list(
                    *old(self).catalog,
                    old(self).st(),
                    es@.skip(i as int),
                ) == models(old(self).diagnostics@) + spec_resolve_expr_list(
                    *old(self).catalog,
                    old(self).st(),
                    es@,
                ),
            decreases n - i,
        {
            proof {
                assert(es@.skip(i as int)[0] == es@[i as int]);
                assert(es@.skip(i as int).drop_first() =~= es@.skip(i + 1));
                assert(self.st() == old(self).st());
            }
            self.resolve_expr(&es[i]);
            proof {
                assert(models(self.diagnostics@) + spec_resolve_expr_list(
                    *old(self).catalog,
                    old(self).st(),
                    es@.skip(i + 1),
                ) =~= models(old(self).diagnostics@) + spec_resolve_expr_list(
                    *old(self).catalog,
                    old(self).st(),
                    es@,
                ));
            }
            i += 1;
        }
        proof {
            assert(es@.skip(n as int) =~= Seq::<Expr>::empty());
            assert(models(self.diagnostics@) + Seq::<DiagModel>::empty() =~= models(
                self.diagnostics@,
            ));
        }
    }

    /// Resolve one projection item; `has_from` says whether the
    /// enclosing SELECT has a FROM clause.
    fn resolve_select_item(&mut self, has_from: bool, item: &SelectItem)
        ensures
            final(self).catalog == old(self).catalog,
            final(self).tables@ == old(self).tables@,
            final(self).ctes@ == old(self).ctes@,
            str_views(final(self).select_aliases@) == str_views(old(self).select_aliases@),
            models(final(self).diagnostics@) == models(old(self).diagnostics@)
                + spec_resolve_select_item(*old(self).catalog, old(self).st(), has_from, *item),
        decreases *item,
    {
        let ghost expected = spec_resolve_select_item(
            *old(self).catalog,
            old(self).st(),
            has_from,
            *item,
        );
        match item {
            SelectItem::Expr(e) => {
                self.resolve_expr(e);
            }
            SelectItem::ExprWithAlias { expr, alias } => {
                self.resolve_expr(expr);
            }
            SelectItem::QualifiedWildcard(ids) => {
                if ids.len() > 0 {
                    let t = &ids[0];
                    proof {
                        crate::seqx::lemma_find_idx(self.tables@, scope_name_pred(t.value@));
                    }
                    if !self.tables.contains(t.value.as_str()) {
                        let msg = concat3(
                            "Table or alias '",
                            t.value.as_str(),
                            "' not found in FROM clause",
                        );
                        let d = Diagnostic::error(DiagnosticKind::TableNotFound, msg).with_span(
                            t.span,
                        );
                        proof {
                            assert(expected =~= seq![d@]);
                        }
                        self.diagnostics.push(d);
                        proof {
                            assert(models(self.diagnostics@) =~= models(old(self).diagnostics@)
                                + expected);
                        }
                    } else {
                        proof {
                            assert(expected =~= Seq::<DiagModel>::empty());
                            assert(models(self.diagnostics@) =~= models(old(self).diagnostics@)
                                + expected);
                        }
                    }
                } else {
                    proof {
                        assert(expected =~= Seq::<DiagModel>::empty());
                        assert(models(self.diagnostics@) =~= models(old(self).diagnostics@)
                            + expected);
                    }
                }
            }
            SelectItem::Wildcard => {
                if !has_from && self.tables.is_empty() {
                    let msg = String::from_str(
                        "SELECT * requires at least one table in FROM clause",
                    );
                    let d = Diagnostic::error(DiagnosticKind::TableNotFound, msg);
                    proof {
                        assert(expected =~= seq![d@]);
                    }
                    self.diagnostics.push(d);
                    proof {
                        assert(models(self.diagnostics@) =~= models(old(self).diagnostics@)
                            + expected);
                    }
                } else {
                    proof {
                        assert(expected =~= Seq::<DiagModel>::empty());
                        assert(models(self.diagnostics@) =~= models(old(self).diagnostics@)
                            + expected);
                    }
                }
            }
        }
    }

    /// Resolve a join's ON or USING condition against the scope built so
    /// far.
    fn resolve_join_condition(&mut self, join: &Join)
        ensures
            final(self).catalog == old(self).catalog,
            final(self).tables@ == old(self).tables@,
            final(self).ctes@ == old(self).ctes@,
            str_views(final(self).select_aliases@) == str_views(old(self).select_aliases@),
            models(final(self).diagnostics@) == models(old(self).diagnostics@)
                + spec_resolve_join_condition(*old(self).catalog, old(self).st(), *join),
        decreases *join,
    {
        let ghost expected = spec_resolve_join_condition(
            *old(self).catalog,
            old(self).st(),
            *join,
        );
        match join.kind {
            JoinKind::Unconstrained => {
                proof {
                    assert(models(self.diagnostics@) + Seq::<DiagModel>::empty() =~= models(
                        self.diagnostics@,
                    ));
                }
            }
            _ => {
                match &join.constraint {
                    JoinConstraint::On(expr) => {
                        self.resolve_expr(expr);
                    }
                    JoinConstraint::Using(columns) => {
                        let n = columns.len();
                        let mut i: usize = 0;
                        proof {
                            assert(columns@.skip(0) =~= columns@);
                        }
                        while i < n
                            invariant
                                n == columns@.len(),
                                i <= n,
                                self.catalog == old(self).catalog,
                                self.tables@ == old(self).tables@,
                                self.ctes@ == old(self).ctes@,
                                str_views(self.select_aliases@) == str_views(
                                    old(self).select_aliases@,
                                ),
                                models(self.diagnostics@) + spec_resolve_using(
                                    *old(self).catalog,
                                    old(self).st(),
                                    columns@.skip(i as int),
                                ) == models(old(self).diagnostics@) + spec_resolve_using(
                                    *old(self).catalog,
                                    old(self).st(),
                                    columns@,
                                ),
                            decreases n - i,
                        {
                            proof {
                                assert(columns@.skip(i as int)[0] == columns@[i as int]);
                                assert(columns@.skip(i as int).drop_first() =~= columns@.skip(
                                    i + 1,
                                ));
                                assert(self.st() == old(self).st());
                            }
                            self.resolve_column(None, &columns[i]);
                            proof {
                                assert(models(self.diagnostics@) + spec_resolve_using(
                                    *old(self).catalog,
                                    old(self).st(),
                                    columns@.skip(i + 1),
                                ) =~= models(old(self).diagnostics@) + spec_resolve_using(
                                    *old(self).catalog,
                                    old(self).st(),
                                    columns@,
                                ));
                            }
                            i += 1;
                        }
                        proof {
                            assert(columns@.skip(n as int) =~= Seq::<Ident>::empty());
                            assert(models(self.diagnostics@) + Seq::<DiagModel>::empty() =~= models(
                                self.diagnostics@,
                            ));
                        }
                    }
                    JoinConstraint::Natural => {
                        proof {
                            assert(models(self.diagnostics@) + Seq::<DiagModel>::empty() =~= models(
                                self.diagnostics@,
                            ));
                        }
                    }
                    JoinConstraint::Unconditioned => {
                        proof {
                            assert(models(self.diagnostics@) + Seq::<DiagModel>::empty() =~= models(
                                self.diagnostics@,
                            ));
                        }
                    }
                }
            }
        }
    }

    /// Resolve one FROM relation, registering it in scope.
    fn resolve_table_factor(&mut self, factor: &TableFactor)
        ensures
            final(self).catalog == old(self).catalog,
            final(self).tables@ == spec_resolve_table_factor(
                *old(self).catalog,
                old(self).st(),
                *factor,
            ).0,
            final(self).ctes@ == old(self).ctes@,
            str_views(final(self).select_aliases@) == str_views(old(self).select_aliases@),
            models(final(self).diagnostics@) == models(old(self).diagnostics@)
                + spec_resolve_table_factor(*old(self).catalog, old(self).st(), *factor).1,
        decreases *factor,
    {
        let ghost expected = spec_resolve_table_factor(
            *old(self).catalog,
            old(self).st(),
            *factor,
        );
        match factor {
            TableFactor::Table { name, alias, has_args } => {
                let table_name = object_name_to_qualified(name);
                if *has_args {
                    match alias {
                        Some(a) => {
                            let columns: Vec<String> = if a.columns.len() > 0 {
                                ident_values(&a.columns)
                            } else {
                                Vec::new()
                            };
                            proof {
                                if a.columns@.len() == 0 {
                                    assert(str_views(columns@) =~= Seq::<Seq<char>>::empty());
                                }
                            }
                            let re = TableRef {
                                table: QualifiedName::new(a.name.value.clone()),
                                view_columns: None,
                                derived_columns: Some(columns),
                            };
                            self.tables.upsert(a.name.value.clone(), re);
                            proof {
                                assert(models(self.diagnostics@) + Seq::<DiagModel>::empty()
                                    =~= models(self.diagnostics@));
                            }
                        }
                        None => {
                            proof {
                                assert(models(self.diagnostics@) + Seq::<DiagModel>::empty()
                                    =~= models(self.diagnostics@));
                            }
                        }
                    }
                    return ;
                }
                let is_cte = self.ctes.contains(table_name.name.as_str());
                let cat = self.catalog;
                let is_view = !is_cte && cat.view_exists(&table_name);
                if !is_cte && !is_view && !cat.table_exists(&table_name) {
                    let rendered = table_name.render();
                    let msg = concat3("Table '", rendered.as_str(), "' not found");
                    let mut d = Diagnostic::error(DiagnosticKind::TableNotFound, msg).with_help(
                        String::from_str("Check that the table exists in your schema definition"),
                    );
                    if name.0.len() > 0 {
                        d = d.with_span(name.0[name.0.len() - 1].span);
                        proof {
                            assert(name.0@[name.0@.len() - 1] == name.0@.last());
                        }
                    }
                    proof {
                        assert(expected.1 =~= seq![d@]);
                    }
                    self.diagnostics.push(d);
                    proof {
                        assert(models(self.diagnostics@) =~= models(old(self).diagnostics@)
                            + expected.1);
                    }
                    return ;
                }
                let view_columns: Option<Vec<String>> = if is_view {
                    match cat.get_view(&table_name) {
                        Some(v) => Some(clone_strings(&v.columns)),
                        None => {
                            proof {
                                assert(false);
                            }
                            None
                        }
                    }
                } else {
                    None
                };
                let lookup_name: String = match alias {
                    Some(a) => a.name.value.clone(),
                    None => table_name.name.clone(),
                };
                let re = TableRef { table: table_name, view_columns, derived_columns: None };
                self.tables.upsert(lookup_name, re);
                proof {
                    assert(models(self.diagnostics@) + Seq::<DiagModel>::empty() =~= models(
                        self.diagnostics@,
                    ));
                }
            }
            TableFactor::Derived { lateral, subquery, alias } => {
                let saved = self.tables.clone();
                if !*lateral {
                    self.tables.clear();
                }
                self.resolve_query(&**subquery);
                let derived = self.infer_cte_columns(&subquery.body);
                self.tables = saved;
                match alias {
                    Some(a) => {
                        let columns: Vec<String> = if a.columns.len() > 0 {
                            ident_values(&a.columns)
                        } else {
                            derived
                        };
                        let re = TableRef {
                            table: QualifiedName::new(a.name.value.clone()),
                            view_columns: None,
                            derived_columns: Some(columns),
                        };
                        self.tables.upsert(a.name.value.clone(), re);
                    }
                    None => {}
                }
            }
            TableFactor::TableFunction { alias } => {
                match alias {
                    Some(a) => {
                        let columns: Vec<String> = if a.columns.len() > 0 {
                            ident_values(&a.columns)
                        } else {
                            Vec::new()
                        };
                        proof {
                            if a.columns@.len() == 0 {
                                assert(str_views(columns@) =~= Seq::<Seq<char>>::empty());
                            }
                        }
                        let re = TableRef {
                            table: QualifiedName::new(a.name.value.clone()),
                            view_columns: None,
                            derived_columns: Some(columns),
                        };
                        self.tables.upsert(a.name.value.clone(), re);
                        proof {
                            assert(models(self.diagnostics@) + Seq::<DiagModel>::empty() =~= models(
                                self.diagnostics@,
                            ));
                        }
                    }
                    None => {
                        proof {
                            assert(models(self.diagnostics@) + Seq::<DiagModel>::empty() =~= models(
                                self.diagnostics@,
                            ));
                        }
                    }
                }
            }
            TableFactor::Other => {
                proof {
                    assert(models(self.diagnostics@) + Seq::<DiagModel>::empty() =~= models(
                        self.diagnostics@,
                    ));
                }
            }
        }
    }

    /// Resolve one FROM item: its relation, then each join and its
    /// condition, left to right.
    #[verifier::rlimit(100)]
    fn resolve_table_with_joins(&mut self, table: &TableWithJoins)
        ensures
            final(self).catalog == old(self).catalog,
            final(self).tables@ == spec_resolve_twj(
                *old(self).catalog,
                old(self).st(),
                *table,
            ).0,
            final(self).ctes@ == old(self).ctes@,
            str_views(final(self).select_aliases@) == str_views(old(self).select_aliases@),
            models(final(self).diagnostics@) == models(old(self).diagnostics@) + spec_resolve_twj(
                *old(self).catalog,
                old(self).st(),
                *table,
            ).1,
        decreases *table,
    {
        let ghost expected = spec_resolve_twj(*old(self).catalog, old(self).st(), *table);
        self.resolve_table_factor(&table.relation);
        let ghost st1 = RState {
            tables: self.tables@,
            ctes: old(self).ctes@,
            aliases: str_views(old(self).select_aliases@),
        };
        let joins = &table.joins;
        let n = joins.len();
        let mut i: usize = 0;
        proof {
            assert(joins@.skip(0) =~= joins@);
            assert(self.st() == st1);
        }
        while i < n
            invariant
                n == joins@.len(),
                i <= n,
                self.catalog == old(self).catalog,
                self.ctes@ == old(self).ctes@,
                str_views(self.select_aliases@) == str_views(old(self).select_aliases@),
                spec_resolve_joins(
                    *old(self).catalog,
                    RState {
                        tables: self.tables@,
                        ctes: old(self).ctes@,
                        aliases: str_views(old(self).select_aliases@),
                    },
                    joins@.skip(i as int),
                ).0 == spec_resolve_joins(*old(self).catalog, st1, joins@).0,
                models(self.diagnostics@) + spec_resolve_joins(
                    *old(self).catalog,
                    RState {
                        tables: self.tables@,
                        ctes: old(self).ctes@,
                        aliases: str_views(old(self).select_aliases@),
                    },
                    joins@.skip(i as int),
                ).1 == models(old(self).diagnostics@) + expected.1,
            decreases n - i,
        {
            proof {
                assert(joins@.skip(i as int)[0] == joins@[i as int]);
                assert(joins@.skip(i as int).drop_first() =~= joins@.skip(i + 1));
            }
            let ghost st_here = RState {
                tables: self.tables@,
                ctes: old(self).ctes@,
                aliases: str_views(old(self).select_aliases@),
            };
            proof {
                assert(self.st() == st_here);
            }
            self.resolve_table_factor(&joins[i].relation);
            proof {
                assert(self.st() == RState {
                    tables: spec_resolve_table_factor(
                        *old(self).catalog,
                        st_here,
                        joins@[i as int].relation,
                    ).0,
                    ctes: old(self).ctes@,
                    aliases: str_views(old(self).select_aliases@),
                });
            }
            self.resolve_join_condition(&joins[i]);
            proof {
                assert(models(self.diagnostics@) + spec_resolve_joins(
                    *old(self).catalog,
                    RState {
                        tables: self.tables@,
                        ctes: old(self).ctes@,
                        aliases: str_views(old(self).select_aliases@),
                    },
                    joins@.skip(i + 1),
                ).1 =~= models(old(self).diagnostics@) + expected.1);
            }
            i += 1;
        }
        proof {
            assert(joins@.skip(n as int) =~= Seq::<Join>::empty());
            assert(models(self.diagnostics@) + Seq::<DiagModel>::empty() =~= models(
                self.diagnostics@,
            ));
        }
    }

    /// Resolve a SELECT: FROM first, then projection, WHERE, GROUP BY and
    /// HAVING.
    fn resolve_select(&mut self, select: &Select)
        ensures
            final(self).catalog == old(self).catalog,
            final(self).tables@ == spec_resolve_select(
                *old(self).catalog,
                old(self).st(),
                *select,
            ).0,
            final(self).ctes@ == old(self).ctes@,
            str_views(final(self).select_aliases@) == str_views(old(self).select_aliases@),
            models(final(self).diagnostics@) == models(old(self).diagnostics@)
                + spec_resolve_select(*old(self).catalog, old(self).st(), *select).1,
        decreases *select,
    {
        let ghost expected = spec_resolve_select(*old(self).catalog, old(self).st(), *select);
        let from = &select.from;
        let n = from.len();
        let mut i: usize = 0;
        proof {
            assert(from@.skip(0) =~= from@);
        }
        while i < n
            invariant
                n == from@.len(),
                i <= n,
                self.catalog == old(self).catalog,
                self.ctes@ == old(self).ctes@,
                str_views(self.select_aliases@) == str_views(old(self).select_aliases@),
                spec_resolve_twj_list(
                    *old(self).catalog,
                    RState {
                        tables: self.tables@,
                        ctes: old(self).ctes@,
                        aliases: str_views(old(self).select_aliases@),
                    },
                    from@.skip(i as int),
                ).0 == spec_resolve_twj_list(*old(self).catalog, old(self).st(), from@).0,
                models(self.diagnostics@) + spec_resolve_twj_list(
                    *old(self).catalog,
                    RState {
                        tables: self.tables@,
                        ctes: old(self).ctes@,
                        aliases: str_views(old(self).select_aliases@),
                    },
                    from@.skip(i as int),
                ).1 == models(old(self).diagnostics@) + spec_resolve_twj_list(
                    *old(self).catalog,
                    old(self).st(),
                    from@,
                ).1,
            decreases n - i,
        {
            proof {
                assert(from@.skip(i as int)[0] == from@[i as int]);
                assert(from@.skip(i as int).drop_first() =~= from@.skip(i + 1));
                assert(self.st() == RState {
                    tables: self.tables@,
                    ctes: old(self).ctes@,
                    aliases: str_views(old(self).select_aliases@),
                });
            }
            self.resolve_table_with_joins(&from[i]);
            proof {
                assert(models(self.diagnostics@) + spec_resolve_twj_list(
                    *old(self).catalog,
                    RState {
                        tables: self.tables@,
                        ctes: old(self).ctes@,
                        aliases: str_views(old(self).select_aliases@),
                    },
                    from@.skip(i + 1),
                ).1 =~= models(old(self).diagnostics@) + spec_resolve_twj_list(
                    *old(self).catalog,
                    old(self).st(),
                    from@,
                ).1);
            }
            i += 1;
        }
        proof {
            assert(from@.skip(n as int) =~= Seq::<TableWithJoins>::empty());
        }
        let ghost st1 = RState {
            tables: self.tables@,
            ctes: old(self).ctes@,
            aliases: str_views(old(self).select_aliases@),
        };
        proof {
            assert(self.st() == st1);
        }
        let has_from = select.from.len() > 0;
        let items = &select.projection;
        let m = items.len();
        let mut k: usize = 0;
        proof {
            assert(items@.skip(0) =~= items@);
        }
        while k < m
            invariant
                m == items@.len(),
                k <= m,
                has_from == (select.from@.len() > 0),
                self.catalog == old(self).catalog,
                self.tables@ == st1.tables,
                self.ctes@ == old(self).ctes@,
                str_views(self.select_aliases@) == str_views(old(self).select_aliases@),
                models(self.diagnostics@) + spec_resolve_select_items(
                    *old(self).catalog,
                    st1,
                    has_from,
                    items@.skip(k as int),
                ) == models(old(self).diagnostics@) + spec_resolve_twj_list(
                    *old(self).catalog,
                    old(self).st(),
                    select.from@,
                ).1 + spec_resolve_select_items(*old(self).catalog, st1, has_from, items@),
            decreases m - k,
        {
            proof {
                assert(items@.skip(k as int)[0] == items@[k as int]);
                assert(items@.skip(k as int).drop_first() =~= items@.skip(k + 1));
                assert(self.st() == st1);
            }
            self.resolve_select_item(has_from, &items[k]);
            proof {
                assert(models(self.diagnostics@) + spec_resolve_select_items(
                    *old(self).catalog,
                    st1,
                    has_from,
                    items@.skip(k + 1),
                ) =~= models(old(self).diagnostics@) + spec_resolve_twj_list(
                    *old(self).catalog,
                    old(self).st(),
                    select.from@,
                ).1 + spec_resolve_select_items(*old(self).catalog, st1, has_from, items@));
            }
            k += 1;
        }
        proof {
            assert(items@.skip(m as int) =~= Seq::<SelectItem>::empty());
        }
        match &select.selection {
            Some(e) => {
                proof {
                    assert(self.st() == st1);
                }
                self.resolve_expr(e);
            }
            None => {}
        }
        proof {
            assert(self.st() == st1);
        }
        self.resolve_expr_vec(&select.group_by);
        match &select.having {
            Some(e) => {
                proof {
                    assert(self.st() == st1);
                }
                self.resolve_expr(e);
            }
            None => {}
        }
        proof {
            assert(models(self.diagnostics@) =~= models(old(self).diagnostics@) + expected.1);
        }
    }

    /// Resolve a query body.
    fn resolve_set_expr(&mut self, se: &SetExpr)
        ensures
            final(self).catalog == old(self).catalog,
            final(self).tables@ == spec_resolve_set_expr(
                *old(self).catalog,
                old(self).st(),
                *se,
            ).0,
            final(self).ctes@ == old(self).ctes@,
            str_views(final(self).select_aliases@) == str_views(old(self).select_aliases@),
            models(final(self).diagnostics@) == models(old(self).diagnostics@)
                + spec_resolve_set_expr(*old(self).catalog, old(self).st(), *se).1,
        decreases *se,
    {
        match se {
            SetExpr::Select(sel) => {
                self.resolve_select(&**sel);
            }
            SetExpr::Query(q) => {
                self.resolve_query(&**q);
            }
            SetExpr::SetOperation { left, right } => {
                self.resolve_set_expr(&**left);
                self.resolve_set_expr(&**right);
                proof {
                    assert(models(self.diagnostics@) =~= models(old(self).diagnostics@)
                        + spec_resolve_set_expr(*old(self).catalog, old(self).st(), *se).1);
                }
            }
            SetExpr::Values(_) => {
                proof {
                    assert(models(self.diagnostics@) + Seq::<DiagModel>::empty() =~= models(
                        self.diagnostics@,
                    ));
                }
            }
            SetExpr::Other => {
                proof {
                    assert(models(self.diagnostics@) + Seq::<DiagModel>::empty() =~= models(
                        self.diagnostics@,
                    ));
                }
            }
        }
    }

    /// Resolve a query: register its WITH CTEs, resolve the body, then
    /// ORDER BY with the SELECT aliases visible; the CTEs and aliases of
    /// the surrounding context are restored before returning.
    fn resolve_query(&mut self, query: &Query)
        ensures
            final(self).catalog == old(self).catalog,
            final(self).tables@ == spec_resolve_query(
                *old(self).catalog,
                old(self).st(),
                *query,
            ).0.tables,
            final(self).ctes@ == old(self).ctes@,
            str_views(final(self).select_aliases@) == str_views(old(self).select_aliases@),
            models(final(self).diagnostics@) == models(old(self).diagnostics@)
                + spec_resolve_query(*old(self).catalog, old(self).st(), *query).1,
        decreases *query,
    {
        let ghost expected = spec_resolve_query(*old(self).catalog, old(self).st(), *query);
        let saved_ctes = self.ctes.clone();
        match &query.with {
            Some(w) => {
                let recursive = w.recursive;
                let ctes_list = &w.ctes;
                let n = ctes_list.len();
                let mut i: usize = 0;
                proof {
                    assert(ctes_list@.skip(0) =~= ctes_list@);
                }
                while i < n
                    invariant
                        n == ctes_list@.len(),
                        i <= n,
                        self.catalog == old(self).catalog,
                        self.tables@ == old(self).tables@,
                        str_views(self.select_aliases@) == str_views(old(self).select_aliases@),
                        spec_resolve_ctes(
                            *old(self).catalog,
                            RState {
                                tables: old(self).tables@,
                                ctes: self.ctes@,
                                aliases: str_views(old(self).select_aliases@),
                            },
                            recursive,
                            ctes_list@.skip(i as int),
                        ).0 == spec_resolve_ctes(
                            *old(self).catalog,
                            old(self).st(),
                            recursive,
                            ctes_list@,
                        ).0,
                        models(self.diagnostics@) + spec_resolve_ctes(
                            *old(self).catalog,
                            RState {
                                tables: old(self).tables@,
                                ctes: self.ctes@,
                                aliases: str_views(old(self).select_aliases@),
                            },
                            recursive,
                            ctes_list@.skip(i as int),
                        ).1 == models(old(self).diagnostics@) + spec_resolve_ctes(
                            *old(self).catalog,
                            old(self).st(),
                            recursive,
                            ctes_list@,
                        ).1,
                    decreases n - i,
                {
                    proof {
                        assert(ctes_list@.skip(i as int)[0] == ctes_list@[i as int]);
                        assert(ctes_list@.skip(i as int).drop_first() =~= ctes_list@.skip(i + 1));
                    }
                    let ghost st_here = RState {
                        tables: old(self).tables@,
                        ctes: self.ctes@,
                        aliases: str_views(old(self).select_aliases@),
                    };
                    proof {
                        assert(self.st() == st_here);
                    }
                    let cte = &ctes_list[i];
                    let columns: Vec<String> = if cte.columns.len() > 0 {
                        ident_values(&cte.columns)
                    } else {
                        self.infer_cte_columns(&cte.query.body)
                    };
                    if recursive {
                        self.ctes.upsert(cte.name.value.clone(), clone_strings(&columns));
                    }
                    let ghost st_body = RState {
                        tables: old(self).tables@,
                        ctes: self.ctes@,
                        aliases: str_views(old(self).select_aliases@),
                    };
                    proof {
                        assert(self.st() == st_body);
                    }
                    let saved_tables = self.tables.clone();
                    self.resolve_set_expr(&cte.query.body);
                    self.tables = saved_tables;
                    self.ctes.upsert(cte.name.value.clone(), columns);
                    proof {
                        let step = spec_resolve_cte(
                            *old(self).catalog,
                            st_here,
                            recursive,
                            ctes_list@[i as int],
                        );
                        assert(self.ctes@ == step.0);
                        assert(models(self.diagnostics@) + spec_resolve_ctes(
                            *old(self).catalog,
                            RState {
                                tables: old(self).tables@,
                                ctes: self.ctes@,
                                aliases: str_views(old(self).select_aliases@),
                            },
                            recursive,
                            ctes_list@.skip(i + 1),
                        ).1 =~= models(old(self).diagnostics@) + spec_resolve_ctes(
                            *old(self).catalog,
                            old(self).st(),
                            recursive,
                            ctes_list@,
                        ).1);
                    }
                    i += 1;
                }
                proof {
                    assert(ctes_list@.skip(n as int) =~= Seq::<Cte>::empty());
                    assert(models(self.diagnostics@) + Seq::<DiagModel>::empty() =~= models(
                        self.diagnostics@,
                    ));
                }
            }
            None => {
                proof {
                    assert(models(self.diagnostics@) + Seq::<DiagModel>::empty() =~= models(
                        self.diagnostics@,
                    ));
                }
            }
        }
        let ghost ctes2 = self.ctes@;
        let ghost st1 = RState {
            tables: old(self).tables@,
            ctes: ctes2,
            aliases: str_views(old(self).select_aliases@),
        };
        proof {
            assert(self.st() == st1);
        }
        self.resolve_set_expr(&query.body);
        let ghost tables2 = self.tables@;
        let saved_aliases = clone_strings(&self.select_aliases);
        let aliases2 = self.collect_select_aliases(&query.body);
        self.select_aliases = aliases2;
        let ghost st2 = RState {
            tables: tables2,
            ctes: ctes2,
            aliases: spec_collect_select_aliases(query.body),
        };
        proof {
            assert(self.st() == st2);
        }
        self.resolve_expr_vec(&query.order_by);
        self.select_aliases = saved_aliases;
        self.ctes = saved_ctes;
        proof {
            assert(models(self.diagnostics@) =~= models(old(self).diagnostics@) + expected.1);
        }
    }

    /// Resolve one statement: SELECT, INSERT, UPDATE and DELETE forms are
    /// validated; other statements produce no diagnostics.
    pub fn resolve_statement(&mut self, stmt: &crate::ast::Statement)
        ensures
            final(self).catalog == old(self).catalog,
            final(self).tables@ == spec_resolve_statement(
                *old(self).catalog,
                old(self).st(),
                *stmt,
            ).0.tables,
            final(self).ctes@ == spec_resolve_statement(
                *old(self).catalog,
                old(self).st(),
                *stmt,
            ).0.ctes,
            str_views(final(self).select_aliases@) == spec_resolve_statement(
                *old(self).catalog,
                old(self).st(),
                *stmt,
            ).0.aliases,
            models(final(self).diagnostics@) == models(old(self).diagnostics@)
                + spec_resolve_statement(*old(self).catalog, old(self).st(), *stmt).1,
        decreases *stmt,
    {
        match stmt {
            crate::ast::Statement::Query(q) => {
                self.resolve_query(&**q);
            }
            crate::ast::Statement::Insert(ins) => {
                self.resolve_insert(ins);
            }
            crate::ast::Statement::Update(up) => {
                self.resolve_update(up);
            }
            crate::ast::Statement::Delete(del) => {
                self.resolve_delete(del);
            }
            _ => {
                proof {
                    assert(models(self.diagnostics@) + Seq::<DiagModel>::empty() =~= models(
                        self.diagnostics@,
                    ));
                }
            }
        }
    }

    /// Resolve an INSERT statement.
    #[verifier::rlimit(100)]
    fn resolve_insert(&mut self, insert: &crate::ast::Insert)
        ensures
            final(self).catalog == old(self).catalog,
            final(self).tables@ == spec_resolve_insert(
                *old(self).catalog,
                old(self).st(),
                *insert,
            ).0,
            final(self).ctes@ == old(self).ctes@,
            str_views(final(self).select_aliases@) == str_views(old(self).select_aliases@),
            models(final(self).diagnostics@) == models(old(self).diagnostics@)
                + spec_resolve_insert(*old(self).catalog, old(self).st(), *insert).1,
        decreases *insert,
    {
        let ghost expected = spec_resolve_insert(*old(self).catalog, old(self).st(), *insert);
        let table_name = object_name_to_qualified(&insert.table_name);
        let cat = self.catalog;
        let td = match cat.get_table(&table_name) {
            Some(td) => td,
            None => {
                let rendered = table_name.render();
                let msg = concat3("Table '", rendered.as_str(), "' not found");
                let mut d = Diagnostic::error(DiagnosticKind::TableNotFound, msg).with_help(
                    String::from_str("Check that the table exists in your schema definition"),
                );
                if insert.table_name.0.len() > 0 {
                    d = d.with_span(insert.table_name.0[insert.table_name.0.len() - 1].span);
                    proof {
                        assert(insert.table_name.0@[insert.table_name.0@.len() - 1]
                            == insert.table_name.0@.last());
                    }
                }
                proof {
                    assert(expected.1 =~= seq![d@]);
                }
                self.diagnostics.push(d);
                proof {
                    assert(models(self.diagnostics@) =~= models(old(self).diagnostics@)
                        + expected.1);
                }
                return ;
            }
        };
        let cols = &insert.columns;
        let n = cols.len();
        let mut i: usize = 0;
        proof {
            assert(cols@.skip(0) =~= cols@);
        }
        while i < n
            invariant
                n == cols@.len(),
                i <= n,
                self.catalog == old(self).catalog,
                self.tables == old(self).tables,
                self.ctes == old(self).ctes,
                self.select_aliases == old(self).select_aliases,
                models(self.diagnostics@) + spec_insert_col_diags(
                    *td,
                    table_name@,
                    cols@.skip(i as int),
                ) == models(old(self).diagnostics@) + spec_insert_col_diags(
                    *td,
                    table_name@,
                    cols@,
                ),
            decreases n - i,
        {
            proof {
                assert(cols@.skip(i as int)[0] == cols@[i as int]);
                assert(cols@.skip(i as int).drop_first() =~= cols@.skip(i + 1));
            }
            let col = &cols[i];
            if !td.column_exists(col.value.as_str()) {
                let similar = find_similar_column(td, col.value.as_str());
                let rendered = table_name.render();
                let msg = concat5(
                    "Column '",
                    col.value.as_str(),
                    "' not found in table '",
                    rendered.as_str(),
                    "'",
                );
                let mut d = Diagnostic::error(DiagnosticKind::ColumnNotFound, msg).with_span(
                    col.span,
                );
                if let Some(s) = similar {
                    d = d.with_help(concat3("Did you mean '", s.as_str(), "'?"));
                }
                self.diagnostics.push(d);
            }
            proof {
                assert(models(self.diagnostics@) + spec_insert_col_diags(
                    *td,
                    table_name@,
                    cols@.skip(i + 1),
                ) =~= models(old(self).diagnostics@) + spec_insert_col_diags(
                    *td,
                    table_name@,
                    cols@,
                ));
            }
            i += 1;
        }
        proof {
            assert(cols@.skip(n as int) =~= Seq::<Ident>::empty());
        }
        let ghost d1 = spec_insert_col_diags(*td, table_name@, cols@);
        match &insert.source {
            Some(src) => {
                match &src.body {
                    SetExpr::Values(rows) => {
                        let expected_count: usize = if cols.len() == 0 {
                            td.columns.len()
                        } else {
                            cols.len()
                        };
                        let nr = rows.len();
                        let mut r: usize = 0;
                        proof {
                            assert(rows@.skip(0) =~= rows@);
                        }
                        while r < nr
                            invariant
                                nr == rows@.len(),
                                r <= nr,
                                self.catalog == old(self).catalog,
                                self.tables@ == old(self).tables@,
                                self.ctes@ == old(self).ctes@,
                                str_views(self.select_aliases@) == str_views(
                                    old(self).select_aliases@,
                                ),
                                models(self.diagnostics@) + spec_insert_rows_diags(
                                    *old(self).catalog,
                                    old(self).st(),
                                    expected_count as int,
                                    cols@.len() > 0,
                                    table_name@,
                                    rows@.skip(r as int),
                                ) == models(old(self).diagnostics@) + d1 + spec_insert_rows_diags(
                                    *old(self).catalog,
                                    old(self).st(),
                                    expected_count as int,
                                    cols@.len() > 0,
                                    table_name@,
                                    rows@,
                                ),
                            decreases nr - r,
                        {
                            proof {
                                assert(rows@.skip(r as int)[0] == rows@[r as int]);
                                assert(rows@.skip(r as int).drop_first() =~= rows@.skip(r + 1));
                            }
                            let row = &rows[r];
                            if row.len() != expected_count {
                                let got_s = usize_to_string(row.len());
                                let exp_s = usize_to_string(expected_count);
                                let msg = concat5(
                                    "INSERT has ",
                                    got_s.as_str(),
                                    " value(s) but ",
                                    exp_s.as_str(),
                                    " column(s) were specified",
                                );
                                let help = if cols.len() > 0 {
                                    concat3(
                                        "Provide ",
                                        exp_s.as_str(),
                                        " value(s) to match the column list",
                                    )
                                } else {
                                    let rendered = table_name.render();
                                    concat7(
                                        "Table '",
                                        rendered.as_str(),
                                        "' has ",
                                        exp_s.as_str(),
                                        " columns. Specify columns explicitly or provide ",
                                        exp_s.as_str(),
                                        " values",
                                    )
                                };
                                let d = Diagnostic::error(
                                    DiagnosticKind::ColumnCountMismatch,
                                    msg,
                                ).with_help(help);
                                proof {
                                    assert(d@ == spec_row_mismatch_diag(
                                        rows@[r as int]@.len() as int,
                                        expected_count as int,
                                        cols@.len() > 0,
                                        table_name@,
                                    ));
                                }
                                self.diagnostics.push(d);
                            }
                            proof {
                                assert(self.st() == old(self).st());
                            }
                            self.resolve_expr_vec(row);
                            proof {
                                assert(models(self.diagnostics@) + spec_insert_rows_diags(
                                    *old(self).catalog,
                                    old(self).st(),
                                    expected_count as int,
                                    cols@.len() > 0,
                                    table_name@,
                                    rows@.skip(r + 1),
                                ) =~= models(old(self).diagnostics@) + d1
                                    + spec_insert_rows_diags(
                                    *old(self).catalog,
                                    old(self).st(),
                                    expected_count as int,
                                    cols@.len() > 0,
                                    table_name@,
                                    rows@,
                                ));
                            }
                            r += 1;
                        }
                        proof {
                            assert(rows@.skip(nr as int) =~= Seq::<Vec<Expr>>::empty());
                            assert(models(self.diagnostics@) =~= models(old(self).diagnostics@)
                                + expected.1);
                        }
                    }
                    _ => {
                        proof {
                            assert(self.st() == old(self).st());
                        }
                        self.resolve_set_expr(&src.body);
                        proof {
                            assert(models(self.diagnostics@) =~= models(old(self).diagnostics@)
                                + expected.1);
                        }
                    }
                }
            }
            None => {
                proof {
                    assert(models(self.diagnostics@) =~= models(old(self).diagnostics@)
                        + expected.1);
                }
            }
        }
    }

    /// Resolve an UPDATE statement.
    #[verifier::rlimit(100)]
    fn resolve_update(&mut self, update: &crate::ast::Update)
        ensures
            final(self).catalog == old(self).catalog,
            final(self).tables@ == spec_resolve_update(
                *old(self).catalog,
                old(self).st(),
                *update,
            ).0,
            final(self).ctes@ == old(self).ctes@,
            str_views(final(self).select_aliases@) == str_views(old(self).select_aliases@),
            models(final(self).diagnostics@) == models(old(self).diagnostics@)
                + spec_resolve_update(*old(self).catalog, old(self).st(), *update).1,
        decreases *update,
    {
        let ghost expected = spec_resolve_update(*old(self).catalog, old(self).st(), *update);
        self.resolve_table_with_joins(&update.table);
        match &update.from {
            Some(f) => {
                self.resolve_table_with_joins(f);
            }
            None => {}
        }
        let ghost st2 = RState {
            tables: self.tables@,
            ctes: old(self).ctes@,
            aliases: str_views(old(self).select_aliases@),
        };
        proof {
            assert(self.st() == st2);
            assert(st2.tables == expected.0);
        }
        let table_name: Option<QualifiedName> = match &update.table.relation {
            TableFactor::Table { name, alias, has_args } => Some(object_name_to_qualified(name)),
            _ => None,
        };
        let cat = self.catalog;
        let td: Option<&TableDef> = match &table_name {
            Some(q) => cat.get_table(q),
            None => None,
        };
        let ghost tqm: Option<QNameModel> = match &table_name {
            Option::Some(q) => Option::Some(q@),
            Option::None => Option::None,
        };
        let ghost tdm: Option<TableDef> = match td {
            Option::Some(t) => Option::Some(*t),
            Option::None => Option::None,
        };
        let ghost dpre = models(self.diagnostics@);
        let asgs = &update.assignments;
        let n = asgs.len();
        let mut i: usize = 0;
        proof {
            assert(asgs@.skip(0) =~= asgs@);
        }
        while i < n
            invariant
                n == asgs@.len(),
                i <= n,
                self.catalog == old(self).catalog,
                self.tables@ == st2.tables,
                self.ctes@ == old(self).ctes@,
                str_views(self.select_aliases@) == str_views(old(self).select_aliases@),
                models(self.diagnostics@) + spec_resolve_assignments(
                    *old(self).catalog,
                    st2,
                    tqm,
                    tdm,
                    asgs@.skip(i as int),
                ) == dpre + spec_resolve_assignments(*old(self).catalog, st2, tqm, tdm, asgs@),
            decreases n - i,
        {
            proof {
                assert(asgs@.skip(i as int)[0] == asgs@[i as int]);
                assert(asgs@.skip(i as int).drop_first() =~= asgs@.skip(i + 1));
            }
            let asg = &asgs[i];
            match &asg.target {
                crate::ast::AssignTarget::Column(ids) => {
                    if ids.len() > 0 {
                        match td {
                            Some(t) => {
                                let col = &ids[ids.len() - 1];
                                proof {
                                    assert(ids@[ids@.len() - 1] == ids@.last());
                                }
                                if !t.column_exists(col.value.as_str()) {
                                    let similar = find_similar_column(t, col.value.as_str());
                                    let rendered: String = match &table_name {
                                        Some(q) => q.render(),
                                        None => String::new(),
                                    };
                                    let msg = concat5(
                                        "Column '",
                                        col.value.as_str(),
                                        "' not found in table '",
                                        rendered.as_str(),
                                        "'",
                                    );
                                    let mut d = Diagnostic::error(
                                        DiagnosticKind::ColumnNotFound,
                                        msg,
                                    ).with_span(col.span);
                                    if let Some(s) = similar {
                                        d = d.with_help(
                                            concat3("Did you mean '", s.as_str(), "'?"),
                                        );
                                    }
                                    self.diagnostics.push(d);
                                }
                            }
                            None => {}
                        }
                    }
                }
                crate::ast::AssignTarget::Tuple => {}
            }
            proof {
                assert(self.st() == st2);
            }
            self.resolve_expr(&asg.value);
            proof {
                assert(models(self.diagnostics@) + spec_resolve_assignments(
                    *old(self).catalog,
                    st2,
                    tqm,
                    tdm,
                    asgs@.skip(i + 1),
                ) =~= dpre + spec_resolve_assignments(*old(self).catalog, st2, tqm, tdm, asgs@));
            }
            i += 1;
        }
        proof {
            assert(asgs@.skip(n as int) =~= Seq::<crate::ast::Assignment>::empty());
        }
        match &update.selection {
            Some(e) => {
                proof {
                    assert(self.st() == st2);
                }
                self.resolve_expr(e);
            }
            None => {}
        }
        proof {
            assert(models(self.diagnostics@) =~= models(old(self).diagnostics@) + expected.1);
        }
    }

    /// Resolve a DELETE statement.
    fn resolve_delete(&mut self, delete: &crate::ast::Delete)
        ensures
            final(self).catalog == old(self).catalog,
            final(self).tables@ == spec_resolve_delete(
                *old(self).catalog,
                old(self).st(),
                *delete,
            ).0,
            final(self).ctes@ == old(self).ctes@,
            str_views(final(self).select_aliases@) == str_views(old(self).select_aliases@),
            models(final(self).diagnostics@) == models(old(self).diagnostics@)
                + spec_resolve_delete(*old(self).catalog, old(self).st(), *delete).1,
        decreases *delete,
    {
        let ghost expected = spec_resolve_delete(*old(self).catalog, old(self).st(), *delete);
        self.resolve_twj_vec(&delete.from);
        let ghost st1 = RState {
            tables: self.tables@,
            ctes: old(self).ctes@,
            aliases: str_views(old(self).select_aliases@),
        };
        proof {
            assert(self.st() == st1);
        }
        self.resolve_twj_vec(&delete.using);
        let ghost st2 = RState {
            tables: self.tables@,
            ctes: old(self).ctes@,
            aliases: str_views(old(self).select_aliases@),
        };
        proof {
            assert(self.st() == st2);
        }
        match &delete.selection {
            Some(e) => {
                self.resolve_expr(e);
            }
            None => {}
        }
        proof {
            assert(models(self.diagnostics@) =~= models(old(self).diagnostics@) + expected.1);
        }
    }

    /// Resolve a list of FROM items, left to right.
    fn resolve_twj_vec(&mut self, twjs: &Vec<TableWithJoins>)
        ensures
            final(self).catalog == old(self).catalog,
            final(self).tables@ == spec_resolve_twj_list(
                *old(self).catalog,
                old(self).st(),
                twjs@,
            ).0,
            final(self).ctes@ == old(self).ctes@,
            str_views(final(self).select_aliases@) == str_views(old(self).select_aliases@),
            models(final(self).diagnostics@) == models(old(self).diagnostics@)
                + spec_resolve_twj_list(*old(self).catalog, old(self).st(), twjs@).1,
        decreases twjs@,
    {
        let n = twjs.len();
        let mut i: usize = 0;
        proof {
            assert(twjs@.skip(0) =~= twjs@);
        }
        while i < n
            invariant
                n == twjs@.len(),
                i <= n,
                self.catalog == old(self).catalog,
                self.ctes@ == old(self).ctes@,
                str_views(self.select_aliases@) == str_views(old(self).select_aliases@),
                spec_resolve_twj_list(
                    *old(self).catalog,
                    RState {
                        tables: self.tables@,
                        ctes: old(self).ctes@,
                        aliases: str_views(old(self).select_aliases@),
                    },
                    twjs@.skip(i as int),
                ).0 == spec_resolve_twj_list(*old(self).catalog, old(self).st(), twjs@).0,
                models(self.diagnostics@) + spec_resolve_twj_list(
                    *old(self).catalog,
                    RState {
                        tables: self.tables@,
                        ctes: old(self).ctes@,
                        aliases: str_views(old(self).select_aliases@),
                    },
                    twjs@.skip(i as int),
                ).1 == models(old(self).diagnostics@) + spec_resolve_twj_list(
                    *old(self).catalog,
                    old(self).st(),
                    twjs@,
                ).1,
            decreases n - i,
        {
            proof {
                assert(twjs@.skip(i as int)[0] == twjs@[i as int]);
                assert(twjs@.skip(i as int).drop_first() =~= twjs@.skip(i + 1));
                assert(self.st() == RState {
                    tables: self.tables@,
                    ctes: old(self).ctes@,
                    aliases: str_views(old(self).select_aliases@),
                });
            }
            self.resolve_table_with_joins(&twjs[i]);
            proof {
                assert(models(self.diagnostics@) + spec_resolve_twj_list(
                    *old(self).catalog,
                    RState {
                        tables: self.tables@,
                        ctes: old(self).ctes@,
                        aliases: str_views(old(self).select_aliases@),
                    },
                    twjs@.skip(i + 1),
                ).1 =~= models(old(self).diagnostics@) + spec_resolve_twj_list(
                    *old(self).catalog,
                    old(self).st(),
                    twjs@,
                ).1);
            }
            i += 1;
        }
        proof {
            assert(twjs@.skip(n as int) =~= Seq::<TableWithJoins>::empty());
            assert(models(self.diagnostics@) + Seq::<DiagModel>::empty() =~= models(
                self.diagnostics@,
            ));
        }
    }

    /// Resolve one column reference, qualified by a table or alias name
    /// or not, and record its diagnostics.
    fn resolve_column(&mut self, table_ident: Option<&Ident>, column_ident: &Ident)
        ensures
            final(self).catalog == old(self).catalog,
            final(self).tables == old(self).tables,
            final(self).ctes == old(self).ctes,
            final(self).select_aliases == old(self).select_aliases,
            models(final(self).diagnostics@) == models(old(self).diagnostics@)
                + spec_resolve_column(
                *old(self).catalog,
                old(self).st(),
                deref_ident_opt(table_ident),
                *column_ident,
            ),
    {
        let ghost expected = spec_resolve_column(
            *old(self).catalog,
            old(self).st(),
            deref_ident_opt(table_ident),
            *column_ident,
        );
        let column_span = column_ident.span;
        match table_ident {
            Some(table_id) => {
                match self.tables.get(table_id.value.as_str()) {
                    Some(tr) => {
                        let ghost ti = find_idx(
                            old(self).st().tables,
                            scope_name_pred(table_id.value@),
                        );
                        proof {
                            assert(expected == spec_qualified_col_diags(
                                *old(self).catalog,
                                old(self).st().ctes,
                                table_id.value@,
                                old(self).st().tables[ti].re,
                                *column_ident,
                            ));
                        }
                        if let Some(dc) = &tr.derived_columns {
                            if dc.len() != 0 && !contains_ieq(dc, column_ident.value.as_str())
                                && !any_placeholder(dc) {
                                let msg = concat5(
                                    "Column '",
                                    column_ident.value.as_str(),
                                    "' not found in subquery '",
                                    table_id.value.as_str(),
                                    "'",
                                );
                                let d = Diagnostic::error(
                                    DiagnosticKind::ColumnNotFound,
                                    msg,
                                ).with_span(column_span);
                                proof {
                                    assert(expected =~= seq![d@]);
                                }
                                self.diagnostics.push(d);
                                proof {
                                    assert(models(self.diagnostics@) =~= models(
                                        old(self).diagnostics@,
                                    ) + expected);
                                }
                            } else {
                                proof {
                                    assert(expected =~= Seq::<DiagModel>::empty());
                                    assert(models(self.diagnostics@) =~= models(
                                        old(self).diagnostics@,
                                    ) + expected);
                                }
                            }
                        } else {
                            match self.ctes.get(tr.table.name.as_str()) {
                                Some(cte) => {
                                    if !contains_exact(
                                        &cte.columns,
                                        column_ident.value.as_str(),
                                    ) {
                                        let rendered = tr.table.render();
                                        let msg = concat5(
                                            "Column '",
                                            column_ident.value.as_str(),
                                            "' not found in CTE '",
                                            rendered.as_str(),
                                            "'",
                                        );
                                        let d = Diagnostic::error(
                                            DiagnosticKind::ColumnNotFound,
                                            msg,
                                        ).with_span(column_span);
                                        proof {
                                            assert(expected =~= seq![d@]);
                                        }
                                        self.diagnostics.push(d);
                                        proof {
                                            assert(models(self.diagnostics@) =~= models(
                                                old(self).diagnostics@,
                                            ) + expected);
                                        }
                                    } else {
                                        proof {
                                            assert(expected =~= Seq::<DiagModel>::empty());
                                            assert(models(self.diagnostics@) =~= models(
                                                old(self).diagnostics@,
                                            ) + expected);
                                        }
                                    }
                                }
                                None => {
                                    if let Some(vc) = &tr.view_columns {
                                        if !contains_ieq(vc, column_ident.value.as_str()) {
                                            let rendered = tr.table.render();
                                            let msg = concat5(
                                                "Column '",
                                                column_ident.value.as_str(),
                                                "' not found in view '",
                                                rendered.as_str(),
                                                "'",
                                            );
                                            let d = Diagnostic::error(
                                                DiagnosticKind::ColumnNotFound,
                                                msg,
                                            ).with_span(column_span);
                                            proof {
                                                assert(expected =~= seq![d@]);
                                            }
                                            self.diagnostics.push(d);
                                            proof {
                                                assert(models(self.diagnostics@) =~= models(
                                                    old(self).diagnostics@,
                                                ) + expected);
                                            }
                                        } else {
                                            proof {
                                                assert(expected =~= Seq::<DiagModel>::empty());
                                                assert(models(self.diagnostics@) =~= models(
                                                    old(self).diagnostics@,
                                                ) + expected);
                                            }
                                        }
                                    } else {
                                        match self.catalog.get_table(&tr.table) {
                                            Some(td) => {
                                                if !td.column_exists(
                                                    column_ident.value.as_str(),
                                                ) {
                                                    let similar = find_similar_column(
                                                        td,
                                                        column_ident.value.as_str(),
                                                    );
                                                    let rendered = tr.table.render();
                                                    let msg = concat5(
                                                        "Column '",
                                                        column_ident.value.as_str(),
                                                        "' not found in table '",
                                                        rendered.as_str(),
                                                        "'",
                                                    );
                                                    let mut d = Diagnostic::error(
                                                        DiagnosticKind::ColumnNotFound,
                                                        msg,
                                                    ).with_span(column_span);
                                                    if let Some(s) = similar {
                                                        d = d.with_help(
                                                            concat3(
                                                                "Did you mean '",
                                                                s.as_str(),
                                                                "'?",
                                                            ),
                                                        );
                                                    }
                                                    proof {
                                                        assert(expected =~= seq![d@]);
                                                    }
                                                    self.diagnostics.push(d);
                                                    proof {
                                                        assert(models(self.diagnostics@)
                                                            =~= models(old(self).diagnostics@)
                                                            + expected);
                                                    }
                                                } else {
                                                    proof {
                                                        assert(expected =~= Seq::<
                                                            DiagModel,
                                                        >::empty());
                                                        assert(models(self.diagnostics@)
                                                            =~= models(old(self).diagnostics@)
                                                            + expected);
                                                    }
                                                }
                                            }
                                            None => {
                                                proof {
                                                    assert(expected =~= Seq::<DiagModel>::empty());
                                                    assert(models(self.diagnostics@) =~= models(
                                                        old(self).diagnostics@,
                                                    ) + expected);
                                                }
                                            }
                                        }
                                    }
                                }
                            }
                        }
                    }
                    None => {
                        let msg = concat3(
                            "Table or alias '",
                            table_id.value.as_str(),
                            "' not found in FROM clause",
                        );
                        let d = Diagnostic::error(DiagnosticKind::TableNotFound, msg).with_span(
                            table_id.span,
                        );
                        proof {
                            assert(expected =~= seq![d@]);
                        }
                        self.diagnostics.push(d);
                        proof {
                            assert(models(self.diagnostics@) =~= models(old(self).diagnostics@)
                                + expected);
                        }
                    }
                }
            }
            None => {
                let found = found_in_scope(
                    self.catalog,
                    &self.ctes,
                    &self.tables,
                    column_ident.value.as_str(),
                );
                if found.len() == 0 {
                    if contains_ieq(&self.select_aliases, column_ident.value.as_str()) {
                        proof {
                            assert(expected =~= Seq::<DiagModel>::empty());
                            assert(models(self.diagnostics@) =~= models(old(self).diagnostics@)
                                + expected);
                        }
                    } else {
                        let sug = first_suggestion(
                            self.catalog,
                            &self.tables,
                            column_ident.value.as_str(),
                        );
                        let msg = concat3("Column '", column_ident.value.as_str(), "' not found");
                        let mut d = Diagnostic::error(DiagnosticKind::ColumnNotFound, msg)
                            .with_span(column_span);
                        if let Some(s) = sug {
                            d = d.with_help(concat3("Did you mean '", s.as_str(), "'?"));
                        }
                        proof {
                            assert(expected =~= seq![d@]);
                        }
                        self.diagnostics.push(d);
                        proof {
                            assert(models(self.diagnostics@) =~= models(old(self).diagnostics@)
                                + expected);
                        }
                    }
                } else if found.len() == 1 {
                    proof {
                        assert(expected =~= Seq::<DiagModel>::empty());
                        assert(models(self.diagnostics@) =~= models(old(self).diagnostics@)
                            + expected);
                    }
                } else {
                    let joined = join_with(&found, ", ");
                    let msg = concat5(
                        "Column '",
                        column_ident.value.as_str(),
                        "' is ambiguous (found in tables: ",
                        joined.as_str(),
                        ")",
                    );
                    let help = concat4(
                        "Qualify the column with a table name: ",
                        found[0].as_str(),
                        ".",
                        column_ident.value.as_str(),
                    );
                    let d = Diagnostic::error(DiagnosticKind::AmbiguousColumn, msg).with_span(
                        column_span,
                    ).with_help(help);
                    proof {
                        assert(str_views(found@)[0] == found@[0]@);
                        assert(expected =~= seq![d@]);
                    }
                    self.diagnostics.push(d);
                    proof {
                        assert(models(self.diagnostics@) =~= models(old(self).diagnostics@)
                            + expected);
                    }
                }
            }
        }
    }
}

} // verus!
