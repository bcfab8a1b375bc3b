//! The per-statement scope: relations visible while resolving one
//! statement, and the CTEs of the enclosing queries.
//!
//! Both maps preserve insertion order and replace in place on re-insert,
//! which keeps every scan over them — in particular ambiguity reporting —
//! deterministic.

use vstd::prelude::*;

verus! {

use crate::catalog::QNameModel;
use crate::catalog::QualifiedName;
use crate::seqx::find_idx;
use crate::seqx::lemma_find_idx_at;
use crate::strutil::str_eq;

/// A relation visible in scope: a base table, or a view / CTE / derived
/// table whose exposed column list is carried along.
#[derive(Debug)]
pub struct TableRef {
    /// The qualified name the relation resolves under in the catalog.
    pub table: QualifiedName,
    /// For a view reference: the view's exposed column names.
    pub view_columns: Option<Vec<String>>,
    /// For a derived table or table function: the inferred column names;
    /// an empty list means the columns are unknown and checks are skipped.
    pub derived_columns: Option<Vec<String>>,
}

/// Mathematical model of a [`TableRef`].
pub struct TableRefModel {
    pub table: QNameModel,
    pub view_columns: Option<Seq<Seq<char>>>,
    pub derived_columns: Option<Seq<Seq<char>>>,
}

impl View for TableRef {
    type V = TableRefModel;

    open spec fn view(&self) -> TableRefModel {
        TableRefModel {
            table: self.table@,
            view_columns: match self.view_columns {
                Option::Some(v) => Option::Some(crate::catalog::str_views(v@)),
                Option::None => Option::None,
            },
            derived_columns: match self.derived_columns {
                Option::Some(v) => Option::Some(crate::catalog::str_views(v@)),
                Option::None => Option::None,
            },
        }
    }
}

impl Clone for TableRef {
    fn clone(&self) -> (r: Self)
        ensures
            r@ == self@,
    {
        let r = TableRef {
            table: self.table.clone(),
            view_columns: match &self.view_columns {
                Some(v) => Some(clone_strings(v)),
                None => None,
            },
            derived_columns: match &self.derived_columns {
                Some(v) => Some(clone_strings(v)),
                None => None,
            },
        };
        r
    }
}

/// A fresh copy of a string list, holding the same characters.
pub fn clone_strings(v: &Vec<String>) -> (r: Vec<String>)
    ensures
        crate::catalog::str_views(r@) == crate::catalog::str_views(v@),
        r@.len() == v@.len(),
{
    let n = v.len();
    let mut r: Vec<String> = Vec::new();
    let mut i: usize = 0;
    while i < n
        invariant
            n == v.len(),
            i <= n,
            r@.len() == i,
            forall|j: int| 0 <= j < i ==> r@[j]@ == v@[j]@,
        decreases n - i,
    {
        r.push(v[i].clone());
        i += 1;
    }
    proof {
        assert(crate::catalog::str_views(r@) =~= crate::catalog::str_views(v@));
    }
    r
}

/// One scope entry: the lookup name (alias or table name) and the
/// relation it denotes.
#[derive(Debug)]
pub struct ScopeEntry {
    pub name: String,
    pub re: TableRef,
}

/// Mathematical model of a [`ScopeEntry`].
pub struct ScopeEntryModel {
    pub name: Seq<char>,
    pub re: TableRefModel,
}

impl View for ScopeEntry {
    type V = ScopeEntryModel;

    open spec fn view(&self) -> ScopeEntryModel {
        ScopeEntryModel { name: self.name@, re: self.re@ }
    }
}

/// The relations in scope, in insertion order.
#[derive(Debug)]
pub struct Scope {
    pub entries: Vec<ScopeEntry>,
}

impl View for Scope {
    type V = Seq<ScopeEntryModel>;

    open spec fn view(&self) -> Seq<ScopeEntryModel> {
        Seq::new(self.entries@.len(), |i: int| self.entries@[i]@)
    }
}

/// Predicate: a scope entry has exactly this lookup name.
pub open spec fn scope_name_pred(name: Seq<char>) -> spec_fn(ScopeEntryModel) -> bool {
    |e: ScopeEntryModel| e.name == name
}

/// Insert a relation under a lookup name: replace the entry of the same
/// name in place, else append.
pub open spec fn spec_scope_upsert(
    s: Seq<ScopeEntryModel>,
    name: Seq<char>,
    re: TableRefModel,
) -> Seq<ScopeEntryModel> {
    let i = find_idx(s, scope_name_pred(name));
    if i == -1 {
        s.push(ScopeEntryModel { name, re })
    } else {
        s.update(i, ScopeEntryModel { name, re })
    }
}

impl Scope {
    /// An empty scope.
    pub fn new() -> (s: Scope)
        ensures
            s@ =~= Seq::<ScopeEntryModel>::empty(),
    {
        Scope { entries: Vec::new() }
    }

    /// How many relations are in scope.
    pub fn len(&self) -> (n: usize)
        ensures
            n == self@.len(),
    {
        self.entries.len()
    }

    /// Whether no relation is in scope.
    pub fn is_empty(&self) -> (r: bool)
        ensures
            r == (self@.len() == 0),
    {
        self.entries.len() == 0
    }

    /// Drop every relation from scope.
    pub fn clear(&mut self)
        ensures
            final(self)@ =~= Seq::<ScopeEntryModel>::empty(),
    {
        self.entries.clear();
    }

    /// Register a relation, replacing any entry of the same name in place.
    pub fn upsert(&mut self, name: String, re: TableRef)
        ensures
            final(self)@ == spec_scope_upsert(old(self)@, name@, re@),
    {
        let ghost p = scope_name_pred(name@);
        let n = self.entries.len();
        let mut i: usize = 0;
        while i < n
            invariant
                n == self.entries.len(),
                *self == *old(self),
                i <= n,
                forall|j: int| 0 <= j < i ==> !p(self@[j]),
            decreases n - i,
        {
            if str_eq(self.entries[i].name.as_str(), name.as_str()) {
                proof {
                    assert(p(self@[i as int]));
                    lemma_find_idx_at(self@, p, i as int);
                }
                let _ = self.entries.remove(i);
                self.entries.insert(i, ScopeEntry { name, re });
                proof {
                    assert(final(self)@ =~= spec_scope_upsert(old(self)@, name@, re@));
                }
                return ;
            }
            proof {
                assert(!p(self@[i as int]));
            }
            i += 1;
        }
        proof {
            lemma_find_idx_at(self@, p, n as int);
        }
        self.entries.push(ScopeEntry { name, re });
        proof {
            assert(final(self)@ =~= spec_scope_upsert(old(self)@, name@, re@));
        }
    }

    /// The relation registered under this name, if any.
    pub fn get(&self, name: &str) -> (r: Option<&TableRef>)
        ensures
            ({
                let i = find_idx(self@, scope_name_pred(name@));
                match r {
                    Option::Some(re) => i >= 0 && re@ == self@[i].re,
                    Option::None => i == -1,
                }
            }),
    {
        let ghost p = scope_name_pred(name@);
        let n = self.entries.len();
        let mut i: usize = 0;
        while i < n
            invariant
                n == self.entries.len(),
                i <= n,
                forall|j: int| 0 <= j < i ==> !p(self@[j]),
            decreases n - i,
        {
            if str_eq(self.entries[i].name.as_str(), name) {
                proof {
                    assert(p(self@[i as int]));
                    lemma_find_idx_at(self@, p, i as int);
                }
                return Some(&self.entries[i].re);
            }
            proof {
                assert(!p(self@[i as int]));
            }
            i += 1;
        }
        proof {
            lemma_find_idx_at(self@, p, n as int);
        }
        None
    }

    /// Whether a relation is registered under this name.
    pub fn contains(&self, name: &str) -> (r: bool)
        ensures
            r == (find_idx(self@, scope_name_pred(name@)) >= 0),
    {
        let r = self.get(name);
        proof {
            crate::seqx::lemma_find_idx(self@, scope_name_pred(name@));
        }
        r.is_some()
    }
}

impl Clone for Scope {
    fn clone(&self) -> (r: Self)
        ensures
            r@ == self@,
    {
        let n = self.entries.len();
        let mut entries: Vec<ScopeEntry> = Vec::new();
        let mut i: usize = 0;
        while i < n
            invariant
                n == self.entries.len(),
                i <= n,
                entries@.len() == i,
                forall|j: int| 0 <= j < i ==> entries@[j]@ == self.entries@[j]@,
            decreases n - i,
        {
            let e = &self.entries[i];
            entries.push(ScopeEntry { name: e.name.clone(), re: e.re.clone() });
            i += 1;
        }
        let r = Scope { entries };
        proof {
            assert(r@ =~= self@);
        }
        r
    }
}

/// One CTE visible in scope: its name and inferred column list.
#[derive(Debug)]
pub struct CteEntry {
    pub name: String,
    pub columns: Vec<String>,
}

/// Mathematical model of a [`CteEntry`].
pub struct CteEntryModel {
    pub name: Seq<char>,
    pub columns: Seq<Seq<char>>,
}

impl View for CteEntry {
    type V = CteEntryModel;

    open spec fn view(&self) -> CteEntryModel {
        CteEntryModel { name: self.name@, columns: crate::catalog::str_views(self.columns@) }
    }
}

/// The CTEs visible in scope, in registration order.
#[derive(Debug)]
pub struct CteMap {
    pub entries: Vec<CteEntry>,
}

impl View for CteMap {
    type V = Seq<CteEntryModel>;

    open spec fn view(&self) -> Seq<CteEntryModel> {
        Seq::new(self.entries@.len(), |i: int| self.entries@[i]@)
    }
}

/// Predicate: a CTE entry has exactly this name.
pub open spec fn cte_name_pred(name: Seq<char>) -> spec_fn(CteEntryModel) -> bool {
    |e: CteEntryModel| e.name == name
}

/// Insert a CTE under its name: replace the entry of the same name in
/// place, else append.
pub open spec fn spec_cte_upsert(
    s: Seq<CteEntryModel>,
    name: Seq<char>,
    columns: Seq<Seq<char>>,
) -> Seq<CteEntryModel> {
    let i = find_idx(s, cte_name_pred(name));
    if i == -1 {
        s.push(CteEntryModel { name, columns })
    } else {
        s.update(i, CteEntryModel { name, columns })
    }
}

impl CteMap {
    /// An empty CTE map.
    pub fn new() -> (s: CteMap)
        ensures
            s@ =~= Seq::<CteEntryModel>::empty(),
    {
        CteMap { entries: Vec::new() }
    }

    /// Register a CTE, replacing any entry of the same name in place.
    pub fn upsert(&mut self, name: String, columns: Vec<String>)
        ensures
            final(self)@ == spec_cte_upsert(old(self)@, name@, crate::catalog::str_views(columns@)),
    {
        let ghost p = cte_name_pred(name@);
        let n = self.entries.len();
        let mut i: usize = 0;
        while i < n
            invariant
                n == self.entries.len(),
                *self == *old(self),
                i <= n,
                forall|j: int| 0 <= j < i ==> !p(self@[j]),
            decreases n - i,
        {
            if str_eq(self.entries[i].name.as_str(), name.as_str()) {
                proof {
                    assert(p(self@[i as int]));
                    lemma_find_idx_at(self@, p, i as int);
                }
                let _ = self.entries.remove(i);
                self.entries.insert(i, CteEntry { name, columns });
                proof {
                    assert(final(self)@ =~= spec_cte_upsert(
                        old(self)@,
                        name@,
                        crate::catalog::str_views(columns@),
                    ));
                }
                return ;
            }
            proof {
                assert(!p(self@[i as int]));
            }
            i += 1;
        }
        proof {
            lemma_find_idx_at(self@, p, n as int);
        }
        self.entries.push(CteEntry { name, columns });
        proof {
            assert(final(self)@ =~= spec_cte_upsert(
                old(self)@,
                name@,
                crate::catalog::str_views(columns@),
            ));
        }
    }

    /// The CTE registered under this name, if any.
    pub fn get(&self, name: &str) -> (r: Option<&CteEntry>)
        ensures
            ({
                let i = find_idx(self@, cte_name_pred(name@));
                match r {
                    Option::Some(e) => i >= 0 && e@ == self@[i],
                    Option::None => i == -1,
                }
            }),
    {
        let ghost p = cte_name_pred(name@);
        let n = self.entries.len();
        let mut i: usize = 0;
        while i < n
            invariant
                n == self.entries.len(),
                i <= n,
                forall|j: int| 0 <= j < i ==> !p(self@[j]),
            decreases n - i,
        {
            if str_eq(self.entries[i].name.as_str(), name) {
                proof {
                    assert(p(self@[i as int]));
                    lemma_find_idx_at(self@, p, i as int);
                }
                return Some(&self.entries[i]);
            }
            proof {
                assert(!p(self@[i as int]));
            }
            i += 1;
        }
        proof {
            lemma_find_idx_at(self@, p, n as int);
        }
        None
    }

    /// Whether a CTE is registered under this name.
    pub fn contains(&self, name: &str) -> (r: bool)
        ensures
            r == (find_idx(self@, cte_name_pred(name@)) >= 0),
    {
        let r = self.get(name);
        proof {
            crate::seqx::lemma_find_idx(self@, cte_name_pred(name@));
        }
        r.is_some()
    }
}

impl Clone for CteMap {
    fn clone(&self) -> (r: Self)
        ensures
            r@ == self@,
    {
        let n = self.entries.len();
        let mut entries: Vec<CteEntry> = Vec::new();
        let mut i: usize = 0;
        while i < n
            invariant
                n == self.entries.len(),
                i <= n,
                entries@.len() == i,
                forall|j: int| 0 <= j < i ==> entries@[j]@ == self.entries@[j]@,
            decreases n - i,
        {
            let e = &self.entries[i];
            entries.push(CteEntry { name: e.name.clone(), columns: clone_strings(&e.columns) });
            i += 1;
        }
        let r = CteMap { entries };
        proof {
            assert(r@ =~= self@);
        }
        r
    }
}

} // verus!
