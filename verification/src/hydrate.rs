//! Field hydration: substituting `{NAME}` placeholders in a fragment
//! template from a per-call map of field values. Unknown placeholders are
//! kept verbatim, and substituted values are never re-scanned.

use vstd::prelude::*;

use crate::store::StrMap;
use crate::text::{chars_of, push_range, string_from_chars, sub_string};

verus! {

/// An ASCII letter, the only characters allowed in a placeholder name.
pub open spec fn is_alpha(c: char) -> bool {
    (97 <= c as u32 && c as u32 <= 122) || (65 <= c as u32 && c as u32 <= 90)
}

pub fn is_alpha_char(c: char) -> (r: bool)
    ensures
        r == is_alpha(c),
{
    let u = c as u32;
    (97 <= u && u <= 122) || (65 <= u && u <= 90)
}

/// The first position at or after `i` whose character is not an ASCII
/// letter, or the end of the text.
pub open spec fn alpha_run_end(s: Seq<char>, i: int) -> int
    decreases s.len() - i,
{
    if i >= s.len() {
        s.len() as int
    } else if !is_alpha(s[i]) {
        i
    } else {
        alpha_run_end(s, i + 1)
    }
}

pub proof fn lemma_alpha_run_end(s: Seq<char>, i: int)
    requires
        0 <= i <= s.len(),
    ensures
        i <= alpha_run_end(s, i) <= s.len(),
        forall|k: int| i <= k < alpha_run_end(s, i) ==> is_alpha(s[k]),
        alpha_run_end(s, i) < s.len() ==> !is_alpha(s[alpha_run_end(s, i)]),
    decreases s.len() - i,
{
    if i < s.len() && is_alpha(s[i]) {
        lemma_alpha_run_end(s, i + 1);
    }
}

/// The run end is pinned down by its characteristic properties.
pub proof fn lemma_alpha_run_end_unique(s: Seq<char>, i: int, e: int)
    requires
        0 <= i <= e <= s.len(),
        forall|k: int| i <= k < e ==> is_alpha(s[k]),
        e < s.len() ==> !is_alpha(s[e]),
    ensures
        alpha_run_end(s, i) == e,
    decreases s.len() - i,
{
    if i < s.len() && is_alpha(s[i]) {
        lemma_alpha_run_end_unique(s, i + 1, e);
    }
}

/// A placeholder `{NAME}` with a non-empty all-letter name stands at the
/// very start of `s`.
pub open spec fn placeholder_at_start(s: Seq<char>) -> bool {
    &&& s.len() >= 3
    &&& s[0] == '{'
    &&& {
        let e = alpha_run_end(s, 1);
        &&& e > 1
        &&& e < s.len()
        &&& s[e] == '}'
    }
}

/// The hydrated text: placeholders whose name is a key of `m` are replaced
/// by the mapped value, all other characters (unknown placeholders
/// included) are copied through. Values are spliced, never re-scanned.
pub open spec fn hydrate_spec(s: Seq<char>, m: Map<Seq<char>, Seq<char>>) -> Seq<char>
    decreases s.len(),
{
    if s.len() == 0 {
        Seq::empty()
    } else if placeholder_at_start(s) {
        let e = alpha_run_end(s, 1);
        let name = s.subrange(1, e);
        let rest = hydrate_spec(s.subrange(e + 1, s.len() as int), m);
        if m.contains_key(name) {
            m[name] + rest
        } else {
            s.subrange(0, e + 1) + rest
        }
    } else {
        seq![s[0]] + hydrate_spec(s.subrange(1, s.len() as int), m)
    }
}

/// Substitutes `{NAME}` placeholders in `component` from `fields`, leaving
/// unknown placeholders untouched. Total: no failure mode.
pub fn hydrate_component(component: &str, fields: &StrMap) -> (r: String)
    requires
        fields.wf(),
    ensures
        r@ == hydrate_spec(component@, fields@),
{
    let cs = chars_of(component);
    let n = cs.len();
    let mut out: Vec<char> = Vec::new();
    let mut i: usize = 0;
    proof {
        assert(component@.subrange(0, n as int) =~= component@);
        assert(out@ + hydrate_spec(component@, fields@) =~= hydrate_spec(component@, fields@));
    }
    while i < n
        invariant
            fields.wf(),
            i <= n,
            n == cs@.len(),
            cs@ == component@,
            hydrate_spec(component@, fields@) == out@ + hydrate_spec(
                component@.subrange(i as int, n as int),
                fields@,
            ),
        decreases n - i,
    {
        let ghost t = component@.subrange(i as int, n as int);
        if cs[i] == '{' {
            let mut j: usize = i + 1;
            while j < n && is_alpha_char(cs[j])
                invariant
                    i + 1 <= j <= n,
                    n == cs@.len(),
                    forall|k: int| i + 1 <= k < j ==> is_alpha(cs@[k]),
                decreases n - j,
            {
                j = j + 1;
            }
            proof {
                assert forall|k: int| 1 <= k < j - i implies is_alpha(t[k]) by {
                    assert(t[k] == cs@[i + k]);
                }
                if j - i < t.len() {
                    assert(t[j - i] == cs@[j as int]);
                }
                lemma_alpha_run_end_unique(t, 1, j - i);
            }
            if j < n && j > i + 1 && cs[j] == '}' {
                proof {
                    assert(placeholder_at_start(t));
                }
                let name = sub_string(&cs, i + 1, j);
                proof {
                    assert(name@ =~= t.subrange(1, j - i));
                }
                let looked = fields.lookup(name.as_str());
                match looked {
                    Some(v) => {
                        let mut vchars = chars_of(v.as_str());
                        out.append(&mut vchars);
                    },
                    None => {
                        push_range(&mut out, &cs, i, j + 1);
                        proof {
                            assert(cs@.subrange(i as int, j + 1) =~= t.subrange(0, j - i + 1));
                        }
                    },
                }
                proof {
                    assert(t.subrange(j - i + 1, t.len() as int) =~= component@.subrange(
                        j + 1,
                        n as int,
                    ));
                }
                i = j + 1;
            } else {
                proof {
                    assert(!placeholder_at_start(t));
                    assert(t.subrange(1, t.len() as int) =~= component@.subrange(
                        i + 1,
                        n as int,
                    ));
                }
                out.push(cs[i]);
                i = i + 1;
            }
        } else {
            proof {
                assert(!placeholder_at_start(t));
                assert(t.subrange(1, t.len() as int) =~= component@.subrange(i + 1, n as int));
            }
            out.push(cs[i]);
            i = i + 1;
        }
    }
    proof {
        assert(component@.subrange(n as int, n as int) =~= Seq::<char>::empty());
        assert(out@ =~= hydrate_spec(component@, fields@));
    }
    string_from_chars(&out)
}

} // verus!
