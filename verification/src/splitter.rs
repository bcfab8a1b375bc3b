//! Splitting SQL text into individual statements at semicolons, while
//! respecting single-quoted strings, dollar-quoted blocks, and line and
//! block comments.
//!
//! This lets a schema file containing statements the parser does not
//! understand still be processed statement by statement.  Statements that
//! are only whitespace (ASCII) are dropped.

use vstd::prelude::*;

verus! {

use crate::catalog::str_views;
use crate::strutil::chars_of;

/// Whether a character is ASCII whitespace.
pub open spec fn spec_is_ws(c: char) -> bool {
    c == ' ' || c == '\t' || c == '\n' || c == '\r' || c == '\u{b}' || c == '\u{c}'
}

/// Whether a sequence is all whitespace.
pub open spec fn spec_all_ws(s: Seq<char>) -> bool {
    forall|j: int| 0 <= j < s.len() ==> spec_is_ws(#[trigger] s[j])
}

/// The position just after a single-quoted string whose body starts at
/// `i`: a doubled quote is an escape; an unterminated string runs to the
/// end.
pub open spec fn spec_after_quote(s: Seq<char>, i: int) -> int
    decreases s.len() - i when 0 <= i <= s.len()
{
    if i >= s.len() {
        i
    } else if s[i] == '\'' {
        if i + 1 < s.len() && s[i + 1] == '\'' {
            spec_after_quote(s, i + 2)
        } else {
            i + 1
        }
    } else {
        spec_after_quote(s, i + 1)
    }
}

/// Where `spec_after_quote` lands: no earlier than its start, no later
/// than the end.
pub proof fn lemma_after_quote_bounds(s: Seq<char>, i: int)
    requires
        0 <= i <= s.len(),
    ensures
        i <= spec_after_quote(s, i) <= s.len(),
    decreases s.len() - i,
{
    if i < s.len() && s[i] == '\'' && i + 1 < s.len() && s[i + 1] == '\'' {
        lemma_after_quote_bounds(s, i + 2);
    } else if i < s.len() && s[i] != '\'' {
        lemma_after_quote_bounds(s, i + 1);
    }
}

/// The position just after a line comment starting at `i`: the first
/// newline at or after `i`, or the end.
pub open spec fn spec_after_line_comment(s: Seq<char>, i: int) -> int
    decreases s.len() - i when 0 <= i <= s.len()
{
    if i >= s.len() {
        i
    } else if s[i] == '\n' {
        i
    } else {
        spec_after_line_comment(s, i + 1)
    }
}

/// Where `spec_after_line_comment` lands.
pub proof fn lemma_after_line_bounds(s: Seq<char>, i: int)
    requires
        0 <= i <= s.len(),
    ensures
        i <= spec_after_line_comment(s, i) <= s.len(),
    decreases s.len() - i,
{
    if i < s.len() && s[i] != '\n' {
        lemma_after_line_bounds(s, i + 1);
    }
}

/// The position just after a block comment whose body starts at `i`: just
/// past the closing `*/`, or where the scan ran out of room.
pub open spec fn spec_after_block_comment(s: Seq<char>, i: int) -> int
    decreases s.len() - i when 0 <= i <= s.len()
{
    if i + 1 >= s.len() {
        i
    } else if s[i] == '*' && s[i + 1] == '/' {
        i + 2
    } else {
        spec_after_block_comment(s, i + 1)
    }
}

/// Where `spec_after_block_comment` lands.
pub proof fn lemma_after_block_bounds(s: Seq<char>, i: int)
    requires
        0 <= i <= s.len(),
    ensures
        i <= spec_after_block_comment(s, i) <= s.len(),
    decreases s.len() - i,
{
    if i + 1 < s.len() && !(s[i] == '*' && s[i + 1] == '/') {
        lemma_after_block_bounds(s, i + 1);
    }
}

/// Whether a character may appear inside a dollar-quote tag.
pub open spec fn spec_is_tag_char(c: char) -> bool {
    ('a' <= c && c <= 'z') || ('A' <= c && c <= 'Z') || ('0' <= c && c <= '9') || c == '_'
}

/// The scan for the closing `$` of a dollar-quote tag, from `j`.
pub open spec fn spec_scan_tag(s: Seq<char>, j: int) -> int
    decreases s.len() - j when 0 <= j <= s.len()
{
    if j >= s.len() {
        -1
    } else if s[j] == '$' {
        j
    } else if spec_is_tag_char(s[j]) {
        spec_scan_tag(s, j + 1)
    } else {
        -1
    }
}

/// Where `spec_scan_tag` lands, when it finds the closing dollar sign.
pub proof fn lemma_scan_tag_bounds(s: Seq<char>, j: int)
    requires
        0 <= j <= s.len(),
    ensures
        spec_scan_tag(s, j) == -1 || (j <= spec_scan_tag(s, j) < s.len() && s[spec_scan_tag(s, j)]
            == '$'),
    decreases s.len() - j,
{
    if j < s.len() && s[j] != '$' && spec_is_tag_char(s[j]) {
        lemma_scan_tag_bounds(s, j + 1);
    }
}

/// The index of the closing `$` of a dollar-quote tag opening at `start`,
/// or -1 when no valid tag starts there: `$$` closes immediately; a
/// `$tag$` form scans identifier characters up to the closing `$`.
pub open spec fn spec_dollar_tag_end(s: Seq<char>, start: int) -> int {
    if start + 1 < s.len() && s[start + 1] == '$' {
        start + 1
    } else {
        spec_scan_tag(s, start + 1)
    }
}

/// The first occurrence of `tag` at or after `from`, or -1.
pub open spec fn spec_find_at(s: Seq<char>, tag: Seq<char>, from: int) -> int
    decreases s.len() + 1 - from when 0 <= from <= s.len() + 1
{
    if from + tag.len() > s.len() {
        -1
    } else if s.subrange(from, from + tag.len() as int) == tag {
        from
    } else {
        spec_find_at(s, tag, from + 1)
    }
}

/// Where `spec_find_at` lands, when it finds the tag.
pub proof fn lemma_find_at_bounds(s: Seq<char>, tag: Seq<char>, from: int)
    requires
        0 <= from <= s.len() + 1,
    ensures
        spec_find_at(s, tag, from) == -1 || (from <= spec_find_at(s, tag, from) && spec_find_at(
            s,
            tag,
            from,
        ) + tag.len() <= s.len()),
    decreases s.len() + 1 - from,
{
    if from + tag.len() <= s.len() && s.subrange(from, from + tag.len() as int) != tag {
        lemma_find_at_bounds(s, tag, from + 1);
    }
}

/// A scan that saw no occurrence before `j` pins `spec_find_at` down.
pub proof fn lemma_find_at_from(s: Seq<char>, tag: Seq<char>, from: int, j: int)
    requires
        0 <= from <= j,
        from <= s.len() + 1,
        forall|k: int|
            from <= k < j ==> #[trigger] s.subrange(k, k + tag.len() as int) != tag,
    ensures
        j + tag.len() <= s.len() && s.subrange(j, j + tag.len() as int) == tag ==> spec_find_at(
            s,
            tag,
            from,
        ) == j,
        j + tag.len() > s.len() && (forall|k: int|
            j <= k ==> k + tag.len() > s.len() || #[trigger] s.subrange(k, k + tag.len() as int)
                != tag) ==> spec_find_at(s, tag, from) == -1,
    decreases j - from,
{
    if from < j {
        if from + tag.len() <= s.len() {
            assert(s.subrange(from, from + tag.len() as int) != tag);
            lemma_find_at_from(s, tag, from + 1, j);
        } else {
            assert(j + tag.len() > s.len());
        }
    }
}

/// The statement pieces of the text from position `i`, with the current
/// statement having started at `start`.
pub open spec fn spec_split_from(s: Seq<char>, i: int, start: int) -> Seq<Seq<char>>
    decreases s.len() - i
        when 0 <= start <= i <= s.len()
        via spec_split_from_decreases
{
    if i >= s.len() {
        let last = s.subrange(start, s.len() as int);
        if !spec_all_ws(last) {
            seq![last]
        } else {
            Seq::empty()
        }
    } else if s[i] == '\'' {
        spec_split_from(s, spec_after_quote(s, i + 1), start)
    } else if s[i] == '$' {
        let te = spec_dollar_tag_end(s, i);
        if te >= 0 {
            let tag = s.subrange(i, te + 1);
            let cp = spec_find_at(s, tag, te + 1);
            let ni: int = if cp >= 0 {
                cp + tag.len()
            } else {
                s.len() as int
            };
            spec_split_from(s, ni, start)
        } else {
            spec_split_from(s, i + 1, start)
        }
    } else if s[i] == '-' && i + 1 < s.len() && s[i + 1] == '-' {
        spec_split_from(s, spec_after_line_comment(s, i), start)
    } else if s[i] == '/' && i + 1 < s.len() && s[i + 1] == '*' {
        spec_split_from(s, spec_after_block_comment(s, i + 2), start)
    } else if s[i] == ';' {
        let stmt = s.subrange(start, i);
        let head: Seq<Seq<char>> = if !spec_all_ws(stmt) {
            seq![stmt]
        } else {
            Seq::empty()
        };
        head + spec_split_from(s, i + 1, i + 1)
    } else {
        spec_split_from(s, i + 1, start)
    }
}

#[via_fn]
proof fn spec_split_from_decreases(s: Seq<char>, i: int, start: int) {
    if i < s.len() {
        if s[i] == '\'' {
            lemma_after_quote_bounds(s, i + 1);
        } else if s[i] == '$' {
            let te = spec_dollar_tag_end(s, i);
            if te >= 0 {
                lemma_scan_tag_bounds(s, i + 1);
                assert(i + 1 <= te < s.len());
                let tag = s.subrange(i, te + 1);
                lemma_find_at_bounds(s, tag, te + 1);
            }
        } else if s[i] == '-' && i + 1 < s.len() && s[i + 1] == '-' {
            lemma_after_line_bounds(s, i + 1);
            assert(s[i] != '\n');
            assert(spec_after_line_comment(s, i) == spec_after_line_comment(s, i + 1));
        } else if s[i] == '/' && i + 1 < s.len() && s[i + 1] == '*' {
            lemma_after_block_bounds(s, i + 2);
        }
    }
}

/// The statements of a SQL text: the pieces between top-level semicolons,
/// quotes and comments respected, whitespace-only pieces dropped.
pub open spec fn spec_split(s: Seq<char>) -> Seq<Seq<char>> {
    spec_split_from(s, 0, 0)
}

fn all_ws_range(chars: &Vec<char>, start: usize, end: usize) -> (r: bool)
    requires
        start <= end <= chars@.len(),
    ensures
        r == spec_all_ws(chars@.subrange(start as int, end as int)),
{
    let mut j = start;
    while j < end
        invariant
            start <= j <= end <= chars@.len(),
            forall|k: int| start <= k < j ==> spec_is_ws(#[trigger] chars@[k]),
        decreases end - j,
    {
        let c = chars[j];
        let ws = c == ' ' || c == '\t' || c == '\n' || c == '\r' || c == '\u{b}' || c == '\u{c}';
        if !ws {
            proof {
                assert(chars@.subrange(start as int, end as int)[j - start] == chars@[j as int]);
            }
            return false;
        }
        j += 1;
    }
    proof {
        assert forall|k: int| 0 <= k < end - start implies spec_is_ws(
            #[trigger] chars@.subrange(start as int, end as int)[k],
        ) by {
            assert(chars@.subrange(start as int, end as int)[k] == chars@[start + k]);
        }
    }
    true
}

/// The index of the closing `$` of a dollar-quote tag opening at `start`,
/// if a valid tag starts there.
pub fn find_dollar_tag_end(sql: &str, start: usize) -> (r: Option<usize>)
    requires
        start < sql@.len(),
    ensures
        match r {
            Option::Some(j) => spec_dollar_tag_end(sql@, start as int) == j as int,
            Option::None => spec_dollar_tag_end(sql@, start as int) == -1,
        },
{
    let chars = chars_of(sql);
    find_tag_end_chars(&chars, start)
}

fn find_tag_end_chars(chars: &Vec<char>, start: usize) -> (r: Option<usize>)
    requires
        start < chars@.len(),
    ensures
        match r {
            Option::Some(j) => spec_dollar_tag_end(chars@, start as int) == j as int,
            Option::None => spec_dollar_tag_end(chars@, start as int) == -1,
        },
{
    let n = chars.len();
    if start + 1 < n && chars[start + 1] == '$' {
        return Some(start + 1);
    }
    let mut j = start + 1;
    while j < n
        invariant
            start + 1 <= j <= n,
            n == chars@.len(),
            spec_scan_tag(chars@, j as int) == spec_scan_tag(chars@, start + 1),
        decreases n - j,
    {
        let c = chars[j];
        if c == '$' {
            return Some(j);
        }
        let tagc = ('a' <= c && c <= 'z') || ('A' <= c && c <= 'Z') || ('0' <= c && c <= '9')
            || c == '_';
        if !tagc {
            return None;
        }
        j += 1;
    }
    None
}

fn find_tag_at(chars: &Vec<char>, tag_start: usize, tag_end: usize, from: usize) -> (r: Option<
    usize,
>)
    requires
        tag_start < tag_end <= chars@.len(),
        from <= chars@.len(),
    ensures
        ({
            let tag = chars@.subrange(tag_start as int, tag_end as int);
            match r {
                Option::Some(j) => spec_find_at(chars@, tag, from as int) == j as int && j
                    + (tag_end - tag_start) <= chars@.len(),
                Option::None => spec_find_at(chars@, tag, from as int) == -1,
            }
        }),
{
    let ghost tag = chars@.subrange(tag_start as int, tag_end as int);
    let tag_len = tag_end - tag_start;
    let n = chars.len();
    if tag_len > n {
        return None;
    }
    if from > n - tag_len {
        return None;
    }
    let mut j = from;
    while j <= n - tag_len
        invariant
            from <= j,
            j <= n + 1 - tag_len,
            1 <= tag_len <= n,
            n == chars@.len(),
            tag == chars@.subrange(tag_start as int, tag_end as int),
            tag_len == tag_end - tag_start,
            forall|k: int|
                from <= k < j ==> #[trigger] chars@.subrange(k, k + tag.len() as int) != tag,
        decreases n + 1 - tag_len - j,
    {
        let mut k: usize = 0;
        let mut is_match = true;
        while k < tag_len
            invariant
                k <= tag_len,
                j + tag_len <= n,
                n == chars@.len(),
                tag == chars@.subrange(tag_start as int, tag_end as int),
                tag_len == tag_end - tag_start,
                is_match ==> forall|m: int| 0 <= m < k ==> chars@[j + m] == tag[m],
                !is_match ==> chars@.subrange(j as int, j + tag.len() as int) != tag,
            decreases tag_len - k,
        {
            if chars[j + k] != chars[tag_start + k] {
                proof {
                    assert(tag[k as int] == chars@[tag_start + k]);
                    assert(chars@.subrange(j as int, j + tag.len() as int)[k as int] == chars@[j
                        + k]);
                }
                is_match = false;
                proof {
                    assert(chars@.subrange(j as int, j + tag.len() as int) != tag);
                }
                k = tag_len;
            } else {
                proof {
                    assert(tag[k as int] == chars@[tag_start + k]);
                }
                k += 1;
            }
        }
        if is_match {
            proof {
                assert(chars@.subrange(j as int, j + tag.len() as int) =~= tag);
                lemma_find_at_from(chars@, tag, from as int, j as int);
            }
            return Some(j);
        }
        j += 1;
    }
    proof {
        lemma_find_at_from(chars@, tag, from as int, j as int);
        assert forall|k: int|
            j <= k implies k + tag.len() > chars@.len() || #[trigger] chars@.subrange(
            k,
            k + tag.len() as int,
        ) != tag by {}
    }
    None
}

/// Split SQL text into individual statements by semicolons, respecting
/// string literals, dollar-quoted strings, and comments; pieces that are
/// only whitespace are dropped.
pub fn split_sql_statements(sql: &str) -> (r: Vec<String>)
    ensures
        str_views(r@) == spec_split(sql@),
{
    let ghost s = sql@;
    let chars = chars_of(sql);
    let n = chars.len();
    let mut out: Vec<String> = Vec::new();
    let mut i: usize = 0;
    let mut start: usize = 0;
    proof {
        assert(str_views(out@) =~= Seq::<Seq<char>>::empty());
    }
    while i < n
        invariant
            n == s.len(),
            chars@ == s,
            0 <= start <= i <= n,
            str_views(out@) + spec_split_from(s, i as int, start as int) == spec_split(s),
        decreases n - i,
    {
        let c = chars[i];
        if c == '\'' {
            let mut j = i + 1;
            #[verifier::loop_isolation(true)]
            while j < n
                invariant_except_break
                    spec_after_quote(s, j as int) == spec_after_quote(s, i + 1),
                invariant
                    i + 1 <= j <= n,
                    n == s.len(),
                    chars@ == s,
                ensures
                    j == spec_after_quote(s, i + 1),
                decreases n - j,
            {
                if chars[j] == '\'' {
                    if j + 1 < n && chars[j + 1] == '\'' {
                        j += 2;
                    } else {
                        j += 1;
                        proof {
                            assert(j - 1 < s.len() && s[j - 1] == '\'');
                        }
                        break ;
                    }
                } else {
                    j += 1;
                }
            }
            proof {
                lemma_after_quote_bounds(s, i + 1);
            }
            i = j;
        } else if c == '$' {
            match find_tag_end_chars(&chars, i) {
                Some(te) => {
                    proof {
                        lemma_scan_tag_bounds(s, i + 1);
                        assert(i + 1 <= te < n);
                        lemma_find_at_bounds(s, s.subrange(i as int, te + 1), te + 1);
                    }
                    match find_tag_at(&chars, i, te + 1, te + 1) {
                        Some(cp) => {
                            i = cp + (te + 1 - i);
                        }
                        None => {
                            i = n;
                        }
                    }
                }
                None => {
                    i += 1;
                }
            }
        } else if c == '-' && i + 1 < n && chars[i + 1] == '-' {
            let mut j = i;
            #[verifier::loop_isolation(true)]
            while j < n
                invariant
                    i <= j <= n,
                    n == s.len(),
                    chars@ == s,
                    spec_after_line_comment(s, j as int) == spec_after_line_comment(s, i as int),
                ensures
                    j == spec_after_line_comment(s, i as int),
                decreases n - j,
            {
                if chars[j] == '\n' {
                    break ;
                }
                j += 1;
            }
            proof {
                lemma_after_line_bounds(s, i + 1);
                assert(s[i as int] != '\n');
                assert(spec_after_line_comment(s, i as int) == spec_after_line_comment(s, i + 1));
            }
            i = j;
        } else if c == '/' && i + 1 < n && chars[i + 1] == '*' {
            let mut j = i + 2;
            #[verifier::loop_isolation(true)]
            while j < n - 1
                invariant_except_break
                    spec_after_block_comment(s, j as int) == spec_after_block_comment(s, i + 2),
                invariant
                    i + 2 <= j,
                    j <= n,
                    2 <= n == s.len(),
                    chars@ == s,
                ensures
                    j == spec_after_block_comment(s, i + 2),
                decreases n - j,
            {
                if chars[j] == '*' && chars[j + 1] == '/' {
                    j += 2;
                    proof {
                        assert(s[j - 2] == '*' && s[j - 1] == '/');
                    }
                    break ;
                }
                j += 1;
            }
            proof {
                lemma_after_block_bounds(s, i + 2);
            }
            i = j;
        } else if c == ';' {
            if !all_ws_range(&chars, start, i) {
                let piece = sql.substring_char(start, i).to_owned();
                let ghost prev = str_views(out@);
                out.push(piece);
                proof {
                    assert(str_views(out@) =~= prev.push(s.subrange(start as int, i as int)));
                }
            }
            proof {
                let head: Seq<Seq<char>> = if !spec_all_ws(s.subrange(start as int, i as int)) {
                    seq![s.subrange(start as int, i as int)]
                } else {
                    Seq::empty()
                };
                assert(str_views(out@) + spec_split_from(s, i + 1, i + 1) =~= spec_split(s));
            }
            i += 1;
            start = i;
        } else {
            i += 1;
        }
    }
    if !all_ws_range(&chars, start, n) {
        let piece = sql.substring_char(start, n).to_owned();
        let ghost prev = str_views(out@);
        out.push(piece);
        proof {
            assert(str_views(out@) =~= prev.push(s.subrange(start as int, n as int)));
        }
    }
    proof {
        assert(str_views(out@) =~= spec_split(s));
    }
    out
}

} // verus!
