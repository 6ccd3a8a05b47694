//! Character-level text helpers shared by the whole engine.

use vstd::prelude::*;

verus! {

/// Collects the characters of a string slice into a vector.
pub fn chars_of(s: &str) -> (r: Vec<char>)
    ensures
        r@ == s@,
{
    let n = s.unicode_len();
    let mut r: Vec<char> = Vec::new();
    let mut i: usize = 0;
    while i < n
        invariant
            i <= n,
            n == s@.len(),
            r@ == s@.take(i as int),
        decreases n - i,
    {
        r.push(s.get_char(i));
        i = i + 1;
        proof {
            assert(r@ =~= s@.take(i as int));
        }
    }
    proof {
        assert(r@ =~= s@);
    }
    r
}

/// Relies on `String`'s `FromIterator<char>`: collecting characters yields a
/// string made of exactly those characters, in order.
#[verifier::external_body]
pub fn string_from_chars(v: &Vec<char>) -> (r: String)
    ensures
        r@ == v@,
{
    v.iter().collect()
}

/// The first position at or after `from` holding the character `c`, if any.
pub open spec fn find_char_from(s: Seq<char>, c: char, from: int) -> Option<int>
    decreases s.len() - from,
{
    if from >= s.len() {
        None
    } else if s[from] == c {
        Some(from)
    } else {
        find_char_from(s, c, from + 1)
    }
}

pub proof fn lemma_find_char_from(s: Seq<char>, c: char, from: int)
    requires
        0 <= from <= s.len(),
    ensures
        match find_char_from(s, c, from) {
            Some(i) => from <= i < s.len() && s[i] == c && forall|k: int|
                from <= k < i ==> s[k] != c,
            None => forall|k: int| from <= k < s.len() ==> s[k] != c,
        },
    decreases s.len() - from,
{
    if from < s.len() && s[from] != c {
        lemma_find_char_from(s, c, from + 1);
    }
}

/// The first occurrence is pinned down by its characteristic properties.
pub proof fn lemma_find_char_from_unique(s: Seq<char>, c: char, from: int, r: Option<int>)
    requires
        0 <= from <= s.len(),
        match r {
            Some(i) => from <= i < s.len() && s[i] == c && forall|k: int|
                from <= k < i ==> s[k] != c,
            None => forall|k: int| from <= k < s.len() ==> s[k] != c,
        },
    ensures
        find_char_from(s, c, from) == r,
    decreases s.len() - from,
{
    if from < s.len() && s[from] != c {
        lemma_find_char_from_unique(s, c, from + 1, r);
    }
}

/// Scans `s` from `from` for the character `c`.
pub fn find_char(s: &Vec<char>, c: char, from: usize) -> (r: Option<usize>)
    requires
        from <= s@.len(),
    ensures
        match r {
            Some(i) => find_char_from(s@, c, from as int) == Some(i as int) && from <= i
                < s@.len(),
            None => find_char_from(s@, c, from as int) is None,
        },
{
    let n = s.len();
    let mut i: usize = from;
    while i < n
        invariant
            from <= i <= n,
            n == s@.len(),
            forall|k: int| from <= k < i ==> s@[k] != c,
        decreases n - i,
    {
        if s[i] == c {
            proof {
                lemma_find_char_from_unique(s@, c, from as int, Some(i as int));
            }
            return Some(i);
        }
        i = i + 1;
    }
    proof {
        lemma_find_char_from_unique(s@, c, from as int, None);
    }
    None
}

/// The characters `s[from..to]` as a new vector.
pub fn sub_vec(s: &Vec<char>, from: usize, to: usize) -> (r: Vec<char>)
    requires
        from <= to <= s@.len(),
    ensures
        r@ == s@.subrange(from as int, to as int),
{
    let mut out: Vec<char> = Vec::new();
    push_range(&mut out, s, from, to);
    out
}

/// Appends the characters `s[from..to]` to `out`.
pub fn push_range(out: &mut Vec<char>, s: &Vec<char>, from: usize, to: usize)
    requires
        from <= to <= s@.len(),
    ensures
        final(out)@ == old(out)@ + s@.subrange(from as int, to as int),
{
    let mut i: usize = from;
    while i < to
        invariant
            from <= i <= to,
            to <= s@.len(),
            out@ == old(out)@ + s@.subrange(from as int, i as int),
        decreases to - i,
    {
        out.push(s[i]);
        i = i + 1;
        proof {
            assert(out@ =~= old(out)@ + s@.subrange(from as int, i as int));
        }
    }
}

/// The substring `s[from..to]` as an owned string.
pub fn sub_string(s: &Vec<char>, from: usize, to: usize) -> (r: String)
    requires
        from <= to <= s@.len(),
    ensures
        r@ == s@.subrange(from as int, to as int),
{
    let mut out: Vec<char> = Vec::new();
    push_range(&mut out, s, from, to);
    string_from_chars(&out)
}

/// Every line break replaced by a single space; all other characters kept.
pub open spec fn spaced(s: Seq<char>) -> Seq<char> {
    s.map_values(|c: char| if c == '\n' { ' ' } else { c })
}

/// The literal ellipsis appended by truncation.
pub open spec fn ellipsis() -> Seq<char> {
    seq!['.', '.', '.']
}

/// The first `max` characters (all of them when the text is shorter), line
/// breaks turned into spaces, with the ellipsis always appended.
pub open spec fn truncate_spec(s: Seq<char>, max: nat) -> Seq<char> {
    spaced(s.take(if max <= s.len() { max as int } else { s.len() as int })) + ellipsis()
}

/// What strict truncation yields: the ellipsis appears only when the text
/// was actually cut.
pub open spec fn truncate_strict_spec(s: Seq<char>, max: nat) -> Seq<char> {
    if s.len() <= max {
        spaced(s)
    } else {
        truncate_spec(s, max)
    }
}

/// The opt-in strict variant of truncation, a named configuration choice:
/// line breaks still become spaces, but the ellipsis is appended only when
/// characters were actually cut.
pub fn truncate_content_strict(content: &str, max_length: usize) -> (r: String)
    ensures
        r@ == truncate_strict_spec(content@, max_length as nat),
{
    let cs = chars_of(content);
    let was_cut = max_length < cs.len();
    let trimmed = truncate_content(content, max_length);
    if was_cut {
        trimmed
    } else {
        let tc = chars_of(trimmed.as_str());
        proof {
            assert(content@.take(content@.len() as int) =~= content@);
            assert(tc@.subrange(0, tc@.len() - 3) =~= spaced(content@));
        }
        sub_string(&tc, 0, tc.len() - 3)
    }
}

/// Cuts `content` down to at most `max_length` characters for use as a feed
/// or preview description. The ellipsis is appended even when nothing was
/// cut; this mirrors the engine's documented behaviour.
pub fn truncate_content(content: &str, max_length: usize) -> (r: String)
    ensures
        r@ == truncate_spec(content@, max_length as nat),
{
    let cs = chars_of(content);
    let n = if max_length <= cs.len() { max_length } else { cs.len() };
    let mut out: Vec<char> = Vec::new();
    let mut i: usize = 0;
    while i < n
        invariant
            i <= n,
            n <= cs@.len(),
            cs@ == content@,
            n == (if max_length as nat <= content@.len() {
                max_length as int
            } else {
                content@.len() as int
            }),
            out@ == spaced(content@.take(n as int)).take(i as int),
        decreases n - i,
    {
        let c = cs[i];
        if c == '\n' {
            out.push(' ');
        } else {
            out.push(c);
        }
        i = i + 1;
        proof {
            assert(out@ =~= spaced(content@.take(n as int)).take(i as int));
        }
    }
    out.push('.');
    out.push('.');
    out.push('.');
    proof {
        assert(out@ =~= truncate_spec(content@, max_length as nat));
    }
    string_from_chars(&out)
}

} // verus!
