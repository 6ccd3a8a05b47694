//! Path text helpers: joining a fragment name onto a directory, the parent
//! directory of a page, and swapping a document's extension for the
//! rendered-page extension.

use vstd::prelude::*;

use crate::text::{chars_of, push_range, string_from_chars};

verus! {

/// The last position before `hi` holding `c`, if any.
pub open spec fn rfind_char(s: Seq<char>, c: char, hi: int) -> Option<int>
    decreases hi,
{
    if hi <= 0 {
        None
    } else if hi > s.len() {
        rfind_char(s, c, s.len() as int)
    } else if s[hi - 1] == c {
        Some(hi - 1)
    } else {
        rfind_char(s, c, hi - 1)
    }
}

fn rfind(s: &Vec<char>, c: char) -> (r: Option<usize>)
    ensures
        match r {
            Some(i) => rfind_char(s@, c, s@.len() as int) == Some(i as int) && i < s@.len(),
            None => rfind_char(s@, c, s@.len() as int) is None,
        },
{
    let n = s.len();
    let mut hi: usize = n;
    while hi > 0
        invariant
            hi <= n,
            n == s@.len(),
            rfind_char(s@, c, n as int) == rfind_char(s@, c, hi as int),
        decreases hi,
    {
        if s[hi - 1] == c {
            return Some(hi - 1);
        }
        hi = hi - 1;
    }
    None
}

/// The directory holding `p`: the text before the last slash; the root for
/// a top-level absolute path; empty when `p` has no slash at all.
pub open spec fn parent_dir(p: Seq<char>) -> Seq<char> {
    match rfind_char(p, '/', p.len() as int) {
        None => Seq::empty(),
        Some(l) => if l == 0 {
            seq!['/']
        } else {
            p.take(l)
        },
    }
}

pub fn parent_dir_of(p: &str) -> (r: String)
    ensures
        r@ == parent_dir(p@),
{
    let cs = chars_of(p);
    let mut out: Vec<char> = Vec::new();
    match rfind(&cs, '/') {
        None => {},
        Some(l) => {
            if l == 0 {
                out.push('/');
            } else {
                push_range(&mut out, &cs, 0, l);
            }
        },
    }
    proof {
        assert(out@ =~= parent_dir(p@));
    }
    string_from_chars(&out)
}

pub open spec fn html_ext() -> Seq<char> {
    seq!['h', 't', 'm', 'l']
}

/// `p` with its extension replaced by the rendered-page extension: the
/// text after the last dot of the final path component is replaced, or
/// `.html` is appended when that component has no extension.
pub open spec fn html_path(p: Seq<char>) -> Seq<char> {
    let comp = match rfind_char(p, '/', p.len() as int) {
        None => 0,
        Some(l) => l + 1,
    };
    match rfind_char(p, '.', p.len() as int) {
        Some(d) => if d > comp {
            p.take(d + 1) + html_ext()
        } else {
            p + seq!['.'] + html_ext()
        },
        None => p + seq!['.'] + html_ext(),
    }
}

pub fn html_path_of(p: &str) -> (r: String)
    ensures
        r@ == html_path(p@),
{
    let cs = chars_of(p);
    let n = cs.len();
    let comp: usize = match rfind(&cs, '/') {
        None => 0,
        Some(l) => l + 1,
    };
    let mut out: Vec<char> = Vec::new();
    match rfind(&cs, '.') {
        Some(d) if d > comp => {
            push_range(&mut out, &cs, 0, d + 1);
        },
        _ => {
            push_range(&mut out, &cs, 0, n);
            out.push('.');
        },
    }
    out.push('h');
    out.push('t');
    out.push('m');
    out.push('l');
    proof {
        assert(out@ =~= html_path(p@));
    }
    string_from_chars(&out)
}

/// A fragment name resolved against the components directory: an absolute
/// name stands alone; otherwise the two are joined with a single slash.
pub open spec fn joined_path(base: Seq<char>, name: Seq<char>) -> Seq<char> {
    if name.len() > 0 && name[0] == '/' {
        name
    } else if base.len() == 0 {
        name
    } else if base.last() == '/' {
        base + name
    } else {
        base + seq!['/'] + name
    }
}

pub fn join_path(base: &str, name: &str) -> (r: String)
    ensures
        r@ == joined_path(base@, name@),
{
    let bs = chars_of(base);
    let ns = chars_of(name);
    let mut out: Vec<char> = Vec::new();
    if ns.len() > 0 && ns[0] == '/' {
        push_range(&mut out, &ns, 0, ns.len());
    } else if bs.len() == 0 {
        push_range(&mut out, &ns, 0, ns.len());
    } else {
        push_range(&mut out, &bs, 0, bs.len());
        if bs[bs.len() - 1] != '/' {
            out.push('/');
        }
        push_range(&mut out, &ns, 0, ns.len());
    }
    proof {
        assert(bs@.subrange(0, bs@.len() as int) =~= bs@);
        assert(ns@.subrange(0, ns@.len() as int) =~= ns@);
        assert(out@ =~= joined_path(base@, name@));
    }
    string_from_chars(&out)
}

} // verus!
