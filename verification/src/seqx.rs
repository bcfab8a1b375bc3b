//! First-match search over sequences, shared by the catalog and the
//! resolver scopes.

use vstd::prelude::*;

verus! {

/// The index of the first element satisfying `p`, or -1 when none does.
pub open spec fn find_idx<T>(s: Seq<T>, p: spec_fn(T) -> bool) -> int
    decreases s.len(),
{
    if s.len() == 0 {
        -1
    } else if p(s[0]) {
        0
    } else {
        let r = find_idx(s.drop_first(), p);
        if r == -1 {
            -1
        } else {
            r + 1
        }
    }
}

/// What `find_idx` returns: -1 exactly when no element matches, else the
/// least matching index.
pub proof fn lemma_find_idx<T>(s: Seq<T>, p: spec_fn(T) -> bool)
    ensures
        find_idx(s, p) >= -1,
        find_idx(s, p) == -1 ==> forall|j: int| 0 <= j < s.len() ==> !p(s[j]),
        find_idx(s, p) >= 0 ==> find_idx(s, p) < s.len() && p(s[find_idx(s, p)]) && forall|j: int|
            0 <= j < find_idx(s, p) ==> !p(s[j]),
    decreases s.len(),
{
    if s.len() == 0 {
    } else if p(s[0]) {
    } else {
        lemma_find_idx(s.drop_first(), p);
        if find_idx(s, p) == -1 {
            assert forall|j: int| 0 <= j < s.len() implies !p(s[j]) by {
                if j > 0 {
                    assert(s.drop_first()[j - 1] == s[j]);
                    assert(!p(s.drop_first()[j - 1]));
                }
            }
        } else {
            let fi = find_idx(s, p);
            assert(fi == find_idx(s.drop_first(), p) + 1);
            assert(s.drop_first()[fi - 1] == s[fi]);
            assert(p(s[fi]));
            assert forall|j: int| 0 <= j < fi implies !p(s[j]) by {
                if j > 0 {
                    assert(s.drop_first()[j - 1] == s[j]);
                    assert(!p(s.drop_first()[j - 1]));
                }
            }
        }
    }
}

/// A scan that saw no match before `i` pins `find_idx` down: it is `i`
/// when the element at `i` matches, and -1 when the scan ran off the end.
pub proof fn lemma_find_idx_at<T>(s: Seq<T>, p: spec_fn(T) -> bool, i: int)
    requires
        0 <= i <= s.len(),
        forall|j: int| 0 <= j < i ==> !p(s[j]),
    ensures
        i < s.len() && p(s[i]) ==> find_idx(s, p) == i,
        i == s.len() ==> find_idx(s, p) == -1,
    decreases i,
{
    if i == 0 {
        if s.len() == 0 {
        }
    } else {
        assert(!p(s[0]));
        assert forall|j: int| 0 <= j < i - 1 implies !p(s.drop_first()[j]) by {
            assert(s.drop_first()[j] == s[j + 1]);
            assert(!p(s[j + 1]));
        }
        lemma_find_idx_at(s.drop_first(), p, i - 1);
        if i < s.len() && p(s[i]) {
            assert(s.drop_first()[i - 1] == s[i]);
            assert(find_idx(s.drop_first(), p) == i - 1);
        }
    }
}

/// Appending an element moves `find_idx` predictably: an existing match
/// stays first; otherwise the new element matches at the end or not at
/// all.
pub proof fn lemma_find_idx_push<T>(s: Seq<T>, p: spec_fn(T) -> bool, x: T)
    ensures
        find_idx(s.push(x), p) == if find_idx(s, p) >= 0 {
            find_idx(s, p)
        } else if p(x) {
            s.len() as int
        } else {
            -1
        },
    decreases s.len(),
{
    let pushed = s.push(x);
    assert(pushed.len() == s.len() + 1);
    if s.len() == 0 {
        assert(pushed[0] == x);
        if !p(x) {
            assert(pushed.drop_first() =~= Seq::<T>::empty());
            assert(find_idx(pushed.drop_first(), p) == -1);
        }
    } else {
        assert(pushed[0] == s[0]);
        if !p(s[0]) {
            assert(pushed.drop_first() =~= s.drop_first().push(x));
            lemma_find_idx_push(s.drop_first(), p, x);
            lemma_find_idx(s.drop_first(), p);
            let rs = find_idx(s.drop_first(), p);
            let rp = find_idx(pushed.drop_first(), p);
            assert(find_idx(s, p) == if rs == -1 {
                -1
            } else {
                rs + 1
            });
            assert(find_idx(pushed, p) == if rp == -1 {
                -1
            } else {
                rp + 1
            });
            if rs >= 0 {
                assert(rp == rs);
                assert(find_idx(s, p) == rs + 1);
                assert(find_idx(pushed, p) == rs + 1);
            } else {
                assert(find_idx(s, p) == -1);
                if p(x) {
                    assert(rp == s.drop_first().len());
                    assert(find_idx(pushed, p) == s.len() as int);
                } else {
                    assert(rp == -1);
                    assert(find_idx(pushed, p) == -1);
                }
            }
        }
    }
}

/// Updating an element whose match status is unchanged leaves `find_idx`
/// unchanged.
pub proof fn lemma_find_idx_update<T>(s: Seq<T>, p: spec_fn(T) -> bool, i: int, x: T)
    requires
        0 <= i < s.len(),
        p(x) == p(s[i]),
    ensures
        find_idx(s.update(i, x), p) == find_idx(s, p),
    decreases s.len(),
{
    let updated = s.update(i, x);
    if i == 0 {
        assert(updated[0] == x);
        if !p(x) {
            assert(updated.drop_first() =~= s.drop_first());
        }
    } else {
        assert(updated[0] == s[0]);
        if !p(s[0]) {
            assert(updated.drop_first() =~= s.drop_first().update(i - 1, x));
            lemma_find_idx_update(s.drop_first(), p, i - 1, x);
        }
    }
}

} // verus!
