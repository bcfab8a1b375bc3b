//! Verified string helpers: character extraction, decimal rendering,
//! ASCII case-insensitive comparison, and substring search.
//!
//! Identifier comparison in SQL is ASCII case-insensitive; the helpers
//! here work on lowered ASCII code points so that both the executable
//! code and the specifications stay in integer space.

use vstd::prelude::*;

verus! {

use vstd::std_specs::iter::IteratorSpec;

/// The characters of a string, in order.
pub fn chars_of(s: &str) -> (v: Vec<char>)
    ensures
        v@ == s@,
{
    broadcast use vstd::string::axiom_spec_iter, vstd::string::next_postcondition;

    let mut it = s.chars();
    let mut v: Vec<char> = Vec::new();
    #[verifier::loop_isolation(true)]
    loop
        invariant
            it.obeys_prophetic_iter_laws(),
            it.decrease() is Some,
            v@ + it.remaining() =~= s@,
        ensures
            v@ =~= s@,
        decreases it.decrease()->0,
    {
        let c = it.next();
        match c {
            Some(c) => {
                v.push(c);
            }
            None => {
                break;
            }
        }
    }
    proof {
        assert(v@ =~= s@);
    }
    v
}

/// The decimal digit character for a value below ten.
pub open spec fn digit_char(d: nat) -> char {
    if d == 0 {
        '0'
    } else if d == 1 {
        '1'
    } else if d == 2 {
        '2'
    } else if d == 3 {
        '3'
    } else if d == 4 {
        '4'
    } else if d == 5 {
        '5'
    } else if d == 6 {
        '6'
    } else if d == 7 {
        '7'
    } else if d == 8 {
        '8'
    } else {
        '9'
    }
}

/// The decimal rendering of a natural number, without sign or padding.
pub open spec fn spec_digits(n: nat) -> Seq<char>
    decreases n,
{
    if n < 10 {
        seq![digit_char(n)]
    } else {
        spec_digits(n / 10).push(digit_char(n % 10))
    }
}

fn digit_str(d: u64) -> (r: &'static str)
    requires
        d < 10,
    ensures
        r@ =~= seq![digit_char(d as nat)],
{
    proof {
        reveal_strlit("0");
        reveal_strlit("1");
        reveal_strlit("2");
        reveal_strlit("3");
        reveal_strlit("4");
        reveal_strlit("5");
        reveal_strlit("6");
        reveal_strlit("7");
        reveal_strlit("8");
        reveal_strlit("9");
    }
    if d == 0 {
        "0"
    } else if d == 1 {
        "1"
    } else if d == 2 {
        "2"
    } else if d == 3 {
        "3"
    } else if d == 4 {
        "4"
    } else if d == 5 {
        "5"
    } else if d == 6 {
        "6"
    } else if d == 7 {
        "7"
    } else if d == 8 {
        "8"
    } else {
        "9"
    }
}

/// The decimal rendering of a number as a fresh string.
pub fn u64_to_string(n: u64) -> (s: String)
    ensures
        s@ == spec_digits(n as nat),
    decreases n,
{
    if n < 10 {
        let s = String::from_str(digit_str(n));
        proof {
            assert(s@ =~= spec_digits(n as nat));
        }
        s
    } else {
        let mut s = u64_to_string(n / 10);
        s.append(digit_str(n % 10));
        proof {
            assert(s@ =~= spec_digits(n as nat));
        }
        s
    }
}

/// The code point of a character with ASCII upper-case letters lowered.
pub open spec fn char_lower_code(c: char) -> int {
    if 65 <= c as u32 && c as u32 <= 90 {
        c as u32 + 32
    } else {
        c as u32 as int
    }
}

/// The lowered code points of a character sequence.
pub open spec fn lower_codes(s: Seq<char>) -> Seq<u32> {
    Seq::new(s.len(), |i: int| char_lower_code(s[i]) as u32)
}

/// Two character sequences are equal up to ASCII case.
pub open spec fn str_ieq(a: Seq<char>, b: Seq<char>) -> bool {
    lower_codes(a) == lower_codes(b)
}

/// The lowered code points of a string, for case-insensitive work.
pub fn lower_codes_of(s: &str) -> (v: Vec<u32>)
    ensures
        v@ == lower_codes(s@),
{
    let chars = chars_of(s);
    let mut v: Vec<u32> = Vec::new();
    let n = chars.len();
    let mut i: usize = 0;
    while i < n
        invariant
            n == chars.len(),
            chars@ == s@,
            i <= n,
            v@ =~= lower_codes(s@).take(i as int),
        decreases n - i,
    {
        let c = chars[i];
        let code: u32 = c as u32;
        let lowered: u32 = if 65 <= code && code <= 90 {
            code + 32
        } else {
            code
        };
        v.push(lowered);
        proof {
            let ci = i as int;
            assert(s@[ci] == c);
            assert(lowered == char_lower_code(c) as u32);
            assert(lower_codes(s@)[ci] == lowered);
            assert(v@ =~= lower_codes(s@).take(ci + 1));
        }
        i += 1;
    }
    proof {
        assert(v@ =~= lower_codes(s@));
    }
    v
}

/// Two strings are equal up to ASCII case.
pub fn eq_ignore_case(a: &str, b: &str) -> (r: bool)
    ensures
        r == str_ieq(a@, b@),
{
    let va = lower_codes_of(a);
    let vb = lower_codes_of(b);
    let r = eq_code_vecs(&va, &vb);
    r
}

fn eq_code_vecs(a: &Vec<u32>, b: &Vec<u32>) -> (r: bool)
    ensures
        r == (a@ == b@),
{
    if a.len() != b.len() {
        return false;
    }
    let n = a.len();
    let mut i: usize = 0;
    while i < n
        invariant
            n == a.len() && n == b.len(),
            i <= n,
            a@.take(i as int) =~= b@.take(i as int),
        decreases n - i,
    {
        if a[i] != b[i] {
            proof {
                assert(a@[i as int] != b@[i as int]);
            }
            return false;
        }
        i += 1;
    }
    proof {
        assert(a@ =~= a@.take(n as int));
        assert(b@ =~= b@.take(n as int));
        assert(a@ =~= b@);
    }
    true
}

/// Two strings hold the same characters.
pub fn str_eq(a: &str, b: &str) -> (r: bool)
    ensures
        r == (a@ == b@),
{
    let va = chars_of(a);
    let vb = chars_of(b);
    if va.len() != vb.len() {
        proof {
            assert(a@.len() != b@.len());
        }
        return false;
    }
    let n = va.len();
    let mut i: usize = 0;
    while i < n
        invariant
            n == va.len() && n == vb.len(),
            va@ == a@ && vb@ == b@,
            i <= n,
            a@.take(i as int) =~= b@.take(i as int),
        decreases n - i,
    {
        if va[i] != vb[i] {
            proof {
                assert(a@[i as int] != b@[i as int]);
            }
            return false;
        }
        i += 1;
    }
    proof {
        assert(a@ =~= a@.take(n as int));
        assert(b@ =~= b@.take(n as int));
        assert(a@ =~= b@);
    }
    true
}

/// A sequence starts with the given prefix.
pub open spec fn spec_starts_with(s: Seq<char>, prefix: Seq<char>) -> bool {
    s.len() >= prefix.len() && s.take(prefix.len() as int) == prefix
}

/// Whether a string starts with the given prefix.
pub fn str_starts_with(s: &str, prefix: &str) -> (r: bool)
    ensures
        r == spec_starts_with(s@, prefix@),
{
    let vs = chars_of(s);
    let vp = chars_of(prefix);
    if vs.len() < vp.len() {
        return false;
    }
    let n = vp.len();
    let mut i: usize = 0;
    while i < n
        invariant
            n == vp.len(),
            n <= vs.len(),
            vs@ == s@ && vp@ == prefix@,
            i <= n,
            s@.take(i as int) =~= prefix@.take(i as int),
        decreases n - i,
    {
        if vs[i] != vp[i] {
            proof {
                assert(s@[i as int] != prefix@[i as int]);
                assert(!spec_starts_with(s@, prefix@)) by {
                    if spec_starts_with(s@, prefix@) {
                        assert(s@.take(prefix@.len() as int)[i as int] == prefix@[i as int]);
                    }
                }
            }
            return false;
        }
        i += 1;
    }
    proof {
        assert(s@.take(n as int) =~= prefix@);
    }
    true
}

/// A code-point sequence contains the given pattern somewhere.
pub open spec fn spec_contains_codes(h: Seq<u32>, n: Seq<u32>) -> bool {
    exists|i: int|
        0 <= i && i + n.len() <= h.len() && #[trigger] h.subrange(i, i + n.len() as int) == n
}

/// Whether a code-point sequence contains the given pattern.
pub fn contains_codes(h: &Vec<u32>, n: &Vec<u32>) -> (r: bool)
    ensures
        r == spec_contains_codes(h@, n@),
{
    if n.len() > h.len() {
        return false;
    }
    if n.len() == 0 {
        proof {
            assert(h@.subrange(0, 0 + n@.len() as int) =~= n@);
        }
        return true;
    }
    let last = h.len() - n.len();
    let mut i: usize = 0;
    while i <= last
        invariant
            1 <= n.len() <= h.len(),
            last == h.len() - n.len(),
            last < h.len(),
            i <= last + 1,
            forall|j: int|
                0 <= j < i ==> #[trigger] h@.subrange(j, j + n@.len() as int) != n@,
        decreases last + 1 - i,
    {
        if matches_at(h, n, i) {
            proof {
                assert(h@.subrange(i as int, i as int + n@.len() as int) == n@);
            }
            return true;
        }
        i += 1;
    }
    false
}

fn matches_at(h: &Vec<u32>, n: &Vec<u32>, at: usize) -> (r: bool)
    requires
        at + n@.len() <= h@.len(),
    ensures
        r == (h@.subrange(at as int, at as int + n@.len() as int) == n@),
{
    let m = n.len();
    let mut k: usize = 0;
    while k < m
        invariant
            m == n.len(),
            at + m <= h.len(),
            k <= m,
            forall|j: int| 0 <= j < k ==> h@[at + j] == n@[j],
        decreases m - k,
    {
        if h[at + k] != n[k] {
            proof {
                let sub = h@.subrange(at as int, at as int + n@.len() as int);
                assert(sub[k as int] == h@[at + k]);
                assert(sub != n@);
            }
            return false;
        }
        k += 1;
    }
    proof {
        assert(h@.subrange(at as int, at as int + n@.len() as int) =~= n@);
    }
    true
}

} // verus!
