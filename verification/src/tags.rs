//! Scanning for self-closing tags `<NAME ... with="VALUE" ... />`: a tag
//! opens with `<` and the name at a word boundary, runs to the first `>`,
//! which must close as `/>`, and sits on a single line. Its `with`
//! attribute is the last one in the tag whose value closes with a quote.

use vstd::prelude::*;

use crate::date::is_digit;
use crate::hydrate::is_alpha;
use crate::text::{find_char, find_char_from, lemma_find_char_from};

verus! {

pub open spec fn is_word_char(c: char) -> bool {
    is_alpha(c) || is_digit(c) || c == '_'
}

pub fn is_word_char_exec(c: char) -> (r: bool)
    ensures
        r == is_word_char(c),
{
    let u = c as u32;
    (97 <= u && u <= 122) || (65 <= u && u <= 90) || (48 <= u && u <= 57) || c == '_'
}

/// The pattern `pat` occurs at position `i` of `s`.
pub open spec fn pat_at(s: Seq<char>, i: int, pat: Seq<char>) -> bool {
    &&& 0 <= i
    &&& i + pat.len() <= s.len()
    &&& s.subrange(i, i + pat.len()) == pat
}

pub fn range_eq(s: &Vec<char>, at: usize, pat: &Vec<char>) -> (r: bool)
    ensures
        r == pat_at(s@, at as int, pat@),
{
    let n = s.len();
    let pl = pat.len();
    if at > n || pl > n - at {
        return false;
    }
    let mut k: usize = 0;
    while k < pl
        invariant
            k <= pl,
            pl == pat@.len(),
            at + pl <= n,
            n == s@.len(),
            forall|m: int| 0 <= m < k ==> s@[at + m] == pat@[m],
        decreases pl - k,
    {
        if s[at + k] != pat[k] {
            proof {
                assert(s@.subrange(at as int, at + pl)[k as int] == s@[at + k]);
            }
            return false;
        }
        k = k + 1;
    }
    proof {
        assert(s@.subrange(at as int, at + pl) =~= pat@);
    }
    true
}

/// `<NAME` stands at `i` with a word boundary after the name.
pub open spec fn name_at(s: Seq<char>, name: Seq<char>, i: int) -> bool {
    &&& 0 <= i
    &&& i + 1 + name.len() <= s.len()
    &&& s[i] == '<'
    &&& pat_at(s, i + 1, name)
    &&& (i + 1 + name.len() == s.len() || !is_word_char(s[i + 1 + name.len()]))
}

/// A whole tag stands at `i`: the name, then a first `>` closing as `/>`,
/// with no line break inside.
pub open spec fn tag_at(s: Seq<char>, name: Seq<char>, i: int) -> bool {
    &&& name_at(s, name, i)
    &&& match find_char_from(s, '>', i) {
        None => false,
        Some(j) => j >= 1 && s[j - 1] == '/' && (match find_char_from(s, '\n', i) {
            None => true,
            Some(nl) => nl > j,
        }),
    }
}

/// One past the closing `>` of the tag at `i`.
pub open spec fn tag_end(s: Seq<char>, i: int) -> int {
    match find_char_from(s, '>', i) {
        None => s.len() as int,
        Some(j) => j + 1,
    }
}

pub fn tag_probe(s: &Vec<char>, name: &Vec<char>, i: usize) -> (r: bool)
    requires
        i <= s@.len(),
    ensures
        r == tag_at(s@, name@, i as int),
{
    let n = s.len();
    let nl = name.len();
    if i >= n || nl > n - i - 1 {
        return false;
    }
    if s[i] != '<' {
        return false;
    }
    if !range_eq(s, i + 1, name) {
        return false;
    }
    if i + 1 + nl < n && is_word_char_exec(s[i + 1 + nl]) {
        return false;
    }
    let j = match find_char(s, '>', i) {
        None => {
            return false;
        },
        Some(j) => j,
    };
    if !(j >= 1 && s[j - 1] == '/') {
        return false;
    }
    match find_char(s, '\n', i) {
        None => true,
        Some(p) => p > j,
    }
}

/// The first position at or after `from` where a tag of `name` stands.
pub open spec fn find_tag_from(s: Seq<char>, name: Seq<char>, from: int) -> Option<int>
    decreases s.len() - from,
{
    if from >= s.len() {
        None
    } else if tag_at(s, name, from) {
        Some(from)
    } else {
        find_tag_from(s, name, from + 1)
    }
}

/// Scans `s` for the first tag of `name`.
pub fn find_tag(s: &Vec<char>, name: &Vec<char>) -> (r: Option<usize>)
    ensures
        match r {
            Some(t) => find_tag_from(s@, name@, 0) == Some(t as int) && t < s@.len() && tag_at(
                s@,
                name@,
                t as int,
            ),
            None => find_tag_from(s@, name@, 0) is None,
        },
{
    let n = s.len();
    let mut i: usize = 0;
    while i < n
        invariant
            i <= n,
            n == s@.len(),
            find_tag_from(s@, name@, 0) == find_tag_from(s@, name@, i as int),
        decreases n - i,
    {
        if tag_probe(s, name, i) {
            return Some(i);
        }
        i = i + 1;
    }
    None
}

/// The attribute mark searched for inside a tag.
pub open spec fn with_mark() -> Seq<char> {
    seq!['w', 'i', 't', 'h', '=', '"']
}

/// `with="` stands at `k`, at a word boundary.
pub open spec fn with_at(s: Seq<char>, k: int) -> bool {
    &&& 1 <= k
    &&& pat_at(s, k, with_mark())
    &&& !is_word_char(s[k - 1])
}

/// A `with` attribute at `k` is usable within a tag closing at `j`: its
/// value ends at a quote before `j`.
pub open spec fn with_ok(s: Seq<char>, k: int, j: int) -> bool {
    &&& with_at(s, k)
    &&& match find_char_from(s, '"', k + 6) {
        None => false,
        Some(q) => q < j,
    }
}

/// The last usable `with` attribute below `hi`, at or after `lo`.
pub open spec fn find_with_below(s: Seq<char>, lo: int, j: int, hi: int) -> Option<int>
    decreases hi - lo,
{
    if hi <= lo {
        None
    } else if with_ok(s, hi - 1, j) {
        Some(hi - 1)
    } else {
        find_with_below(s, lo, j, hi - 1)
    }
}

/// The value of the tag's `with` attribute: the last usable candidate
/// wins, its value running to the next quote.
pub open spec fn tag_with(s: Seq<char>, i: int) -> Option<Seq<char>> {
    let j = match find_char_from(s, '>', i) {
        None => s.len() as int,
        Some(j) => j,
    };
    match find_with_below(s, i, j, j) {
        None => None,
        Some(k) => {
            let q = match find_char_from(s, '"', k + 6) {
                None => s.len() as int,
                Some(q) => q,
            };
            Some(s.subrange(k + 6, q))
        },
    }
}

fn with_probe(s: &Vec<char>, k: usize, j: usize) -> (r: bool)
    requires
        j <= s@.len(),
    ensures
        r == with_ok(s@, k as int, j as int),
{
    if k < 1 {
        return false;
    }
    let n = s.len();
    let mark = with_mark_vec();
    if !range_eq(s, k, &mark) {
        return false;
    }
    if is_word_char_exec(s[k - 1]) {
        return false;
    }
    proof {
        assert(with_mark().len() == 6);
    }
    match find_char(s, '"', k + 6) {
        None => false,
        Some(q) => q < j,
    }
}

fn with_mark_vec() -> (r: Vec<char>)
    ensures
        r@ == with_mark(),
{
    let mut r: Vec<char> = Vec::new();
    r.push('w');
    r.push('i');
    r.push('t');
    r.push('h');
    r.push('=');
    r.push('"');
    proof {
        assert(r@ =~= with_mark());
    }
    r
}

/// Looks for the `with` value of the tag at `t`, whose closing `>` is at
/// `j`; `Some((a, b))` bounds the value within `s`.
pub fn find_with(s: &Vec<char>, t: usize, j: usize) -> (r: Option<(usize, usize)>)
    requires
        t <= j <= s@.len(),
        find_char_from(s@, '>', t as int) == Some(j as int),
    ensures
        match r {
            Some(ab) => {
                &&& find_with_below(s@, t as int, j as int, j as int) == Some(ab.0 - 6)
                &&& find_char_from(s@, '"', ab.0 as int) == Some(ab.1 as int)
                &&& ab.0 <= ab.1 <= s@.len()
                &&& tag_with(s@, t as int) == Some(s@.subrange(ab.0 as int, ab.1 as int))
            },
            None => find_with_below(s@, t as int, j as int, j as int) is None && tag_with(
                s@,
                t as int,
            ) is None,
        },
{
    let n = s.len();
    let mut hi: usize = j;
    while hi > t
        invariant
            t <= hi <= j <= n,
            n == s@.len(),
            find_char_from(s@, '>', t as int) == Some(j as int),
            find_with_below(s@, t as int, j as int, j as int) == find_with_below(
                s@,
                t as int,
                j as int,
                hi as int,
            ),
        decreases hi,
    {
        if with_probe(s, hi - 1, j) {
            let k = hi - 1;
            proof {
                assert(with_mark().len() == 6);
            }
            let q = match find_char(s, '"', k + 6) {
                Some(q) => q,
                None => vstd::pervasive::unreached(),
            };
            return Some((k + 6, q));
        }
        hi = hi - 1;
    }
    None
}

} // verus!
