//! The tag substitution engine: the fragment-inclusion pass over `REPLACE`
//! tags, the feed-inclusion pass over `FEED` tags, and their composition,
//! which expands a whole page.

use vstd::prelude::*;

use crate::date::{date_text, format_date};
use crate::hydrate::{hydrate_component, hydrate_spec};
use crate::index::{
    doc_views, lemma_sort_feed_ensures, sort_documents, sort_feed, MdError, MdInfo, MdInfoV,
};
use crate::paths::{html_path, html_path_of, join_path, joined_path, parent_dir, parent_dir_of};
use crate::store::StrMap;
use crate::tags::{find_tag, find_tag_from, find_with, tag_end, tag_with};
use crate::text::{
    chars_of, find_char, push_range, string_from_chars, sub_string, sub_vec, truncate_content,
    truncate_spec,
};

verus! {

broadcast use vstd::seq_lib::group_to_multiset_ensures;

/// The errors of page expansion.
#[derive(Debug, PartialEq, Eq)]
pub enum HTMLError {
    /// A fragment file could not be read; carries its path.
    Io { path: String },
    /// Building the document index failed; carries the underlying error.
    Index { error: MdError },
    /// A tag is missing its `with` attribute, or what it names cannot be
    /// resolved; carries the attribute name or the offending path.
    UnresolvedTag { tag: String },
}

pub open spec fn replace_name() -> Seq<char> {
    seq!['R', 'E', 'P', 'L', 'A', 'C', 'E']
}

pub open spec fn feed_name() -> Seq<char> {
    seq!['F', 'E', 'E', 'D']
}

fn replace_name_vec() -> (r: Vec<char>)
    ensures
        r@ == replace_name(),
{
    let mut r: Vec<char> = Vec::new();
    r.push('R');
    r.push('E');
    r.push('P');
    r.push('L');
    r.push('A');
    r.push('C');
    r.push('E');
    proof {
        assert(r@ =~= replace_name());
    }
    r
}

fn feed_name_vec() -> (r: Vec<char>)
    ensures
        r@ == feed_name(),
{
    let mut r: Vec<char> = Vec::new();
    r.push('F');
    r.push('E');
    r.push('E');
    r.push('D');
    proof {
        assert(r@ =~= feed_name());
    }
    r
}

/// The end of the tag at `t`, kept inside `[1, s.len()]`.
pub open spec fn splice_end(s: Seq<char>, t: int) -> int {
    let e = tag_end(s, t);
    if e > s.len() {
        s.len() as int
    } else if e < 1 {
        1
    } else {
        e
    }
}

/// What the fragment-inclusion pass yields.
pub enum SubstOutcome {
    /// The expanded text.
    Done { text: Seq<char> },
    /// Some tag lacks its `with` attribute.
    MissingWith,
    /// A fragment path that the component cache does not hold.
    Unresolved { path: Seq<char> },
}

/// The fragment-inclusion pass: each `REPLACE` tag is replaced by the
/// cached text of the fragment its `with` attribute names, resolved
/// against `dir`; everything outside tags is copied through unchanged.
pub open spec fn replace_pass(
    s: Seq<char>,
    cache: Map<Seq<char>, Seq<char>>,
    dir: Seq<char>,
) -> SubstOutcome
    decreases s.len(),
{
    if s.len() == 0 {
        SubstOutcome::Done { text: s }
    } else {
        match find_tag_from(s, replace_name(), 0) {
            None => SubstOutcome::Done { text: s },
            Some(t) => {
                let e = splice_end(s, t);
                match tag_with(s, t) {
                    None => SubstOutcome::MissingWith,
                    Some(w) => {
                        let p = joined_path(dir, w);
                        if !cache.contains_key(p) {
                            SubstOutcome::Unresolved { path: p }
                        } else {
                            match replace_pass(s.subrange(e, s.len() as int), cache, dir) {
                                SubstOutcome::Done { text } => SubstOutcome::Done {
                                    text: s.subrange(0, t) + cache[p] + text,
                                },
                                o => o,
                            }
                        }
                    },
                }
            },
        }
    }
}

/// A processed prefix placed before the rest of a pass's outcome.
pub open spec fn subst_combine(prefix: Seq<char>, o: SubstOutcome) -> SubstOutcome {
    match o {
        SubstOutcome::Done { text } => SubstOutcome::Done { text: prefix + text },
        o2 => o2,
    }
}

/// Replaces every fragment-inclusion tag `<REPLACE ... with="NAME" ... />`
/// by the cached fragment `NAME`, resolved against `components_dir`. Fails
/// when a tag has no usable `with` attribute, or when a named fragment is
/// not in the cache; the surrounding text is never touched.
pub fn substitute_replace(contents: &str, components_dir: &str, components: &StrMap) -> (r: Result<
    String,
    HTMLError,
>)
    requires
        components.wf(),
    ensures
        match replace_pass(contents@, components@, components_dir@) {
            SubstOutcome::Done { text } => r matches Ok(out) && out@ == text,
            SubstOutcome::MissingWith => r matches Err(HTMLError::UnresolvedTag { tag }) && tag@
                == "with"@,
            SubstOutcome::Unresolved { path } => r matches Err(HTMLError::UnresolvedTag { tag })
                && tag@ == path,
        },
{
    let name = replace_name_vec();
    let mut rest = chars_of(contents);
    let mut out: Vec<char> = Vec::new();
    let mut done = false;
    proof {
        match replace_pass(rest@, components@, components_dir@) {
            SubstOutcome::Done { text } => {
                assert(out@ + text =~= text);
            },
            _ => {},
        }
    }
    while !done
        invariant
            components.wf(),
            name@ == replace_name(),
            !done ==> subst_combine(out@, replace_pass(rest@, components@, components_dir@))
                == replace_pass(contents@, components@, components_dir@),
            done ==> replace_pass(contents@, components@, components_dir@) == (SubstOutcome::Done {
                text: out@,
            }),
        decreases rest@.len() + (if done {
            0int
        } else {
            1int
        }),
    {
        match find_tag(&rest, &name) {
            None => {
                let n = rest.len();
                push_range(&mut out, &rest, 0, n);
                proof {
                    assert(rest@.subrange(0, n as int) =~= rest@);
                }
                done = true;
            },
            Some(t) => {
                let j = match find_char(&rest, '>', t) {
                    Some(j) => j,
                    None => vstd::pervasive::unreached(),
                };
                match find_with(&rest, t, j) {
                    None => {
                        return Err(HTMLError::UnresolvedTag { tag: String::from_str("with") });
                    },
                    Some((a, b)) => {
                        let w = sub_string(&rest, a, b);
                        let path = join_path(components_dir, w.as_str());
                        match components.lookup(path.as_str()) {
                            None => {
                                return Err(HTMLError::UnresolvedTag { tag: path });
                            },
                            Some(frag) => {
                                let ghost old_out = out@;
                                let ghost old_rest = rest@;
                                push_range(&mut out, &rest, 0, t);
                                let mut fc = chars_of(frag.as_str());
                                out.append(&mut fc);
                                let n = rest.len();
                                let newrest = sub_vec(&rest, j + 1, n);
                                proof {
                                    assert(splice_end(old_rest, t as int) == j + 1);
                                    match replace_pass(newrest@, components@, components_dir@) {
                                        SubstOutcome::Done { text } => {
                                            assert(old_out + (old_rest.subrange(0, t as int)
                                                + frag@ + text) =~= out@ + text);
                                        },
                                        _ => {},
                                    }
                                }
                                rest = newrest;
                            },
                        }
                    },
                }
            },
        }
    }
    Ok(string_from_chars(&out))
}

/// The rendered location of `target`, relative to the directory `base`,
/// as the path-difference computation yields it.
pub uninterp spec fn rel_path_of(target: Seq<char>, base: Seq<char>) -> Option<Seq<char>>;

/// Relies on pathdiff::diff_paths: the relative path from `base` to
/// `target`, a function of the two paths' text alone; `None` when no
/// relative path leads from one to the other.
#[verifier::external_body]
fn relative_path(target: &str, base: &str) -> (r: Option<String>)
    ensures
        match r {
            Some(p) => rel_path_of(target@, base@) == Some(p@),
            None => rel_path_of(target@, base@) is None,
        },
{
    pathdiff::diff_paths(target, base).map(|p| p.to_string_lossy().to_string())
}

/// The placeholder values drawn from one document: its title, its date in
/// the canonical rendering, its body cut to the preview length, and its
/// rendered location relative to the page being expanded.
pub open spec fn field_map(doc: MdInfoV, rel: Seq<char>) -> Map<Seq<char>, Seq<char>> {
    Map::empty().insert("TITLE"@, doc.title).insert("DATE"@, date_text(doc.date)).insert(
        "CONTENT"@,
        truncate_spec(doc.content, 160),
    ).insert("PATH"@, rel)
}

pub open spec fn feed_fields(doc: MdInfoV, page_dir: Seq<char>) -> Option<
    Map<Seq<char>, Seq<char>>,
> {
    match rel_path_of(html_path(doc.path), page_dir) {
        None => None,
        Some(rel) => Some(field_map(doc, rel)),
    }
}

/// The feed block: one hydrated copy of `tpl` per document, in the given
/// order, joined by single line breaks; `Err` carries the path of the
/// first document whose rendered location cannot be made relative.
pub open spec fn feed_entries(tpl: Seq<char>, docs: Seq<MdInfoV>, page_dir: Seq<char>) -> Result<
    Seq<char>,
    Seq<char>,
>
    decreases docs.len(),
{
    if docs.len() == 0 {
        Ok(Seq::empty())
    } else {
        match feed_fields(docs[0], page_dir) {
            None => Err(docs[0].path),
            Some(m) => match feed_entries(tpl, docs.skip(1), page_dir) {
                Err(p) => Err(p),
                Ok(rest) => Ok(
                    hydrate_spec(tpl, m) + (if docs.len() == 1 {
                        Seq::<char>::empty()
                    } else {
                        seq!['\n']
                    }) + rest,
                ),
            },
        }
    }
}

/// The separator standing between the first `idx` hydrated entries and
/// the rest, out of `n`.
pub open spec fn entry_sep(idx: int, n: int) -> Seq<char> {
    if 0 < idx && idx < n {
        seq!['\n']
    } else {
        Seq::empty()
    }
}

fn build_fields(doc: &MdInfo, rel: String) -> (m: StrMap)
    requires
        doc@.date.wf(),
    ensures
        m.wf(),
        m@ == field_map(doc@, rel@),
{
    let mut m = StrMap::new();
    proof {
        reveal_strlit("TITLE");
        reveal_strlit("DATE");
        reveal_strlit("CONTENT");
        reveal_strlit("PATH");
    }
    m.insert(String::from_str("TITLE"), doc.title.clone());
    m.insert(String::from_str("DATE"), format_date(&doc.date));
    m.insert(String::from_str("CONTENT"), truncate_content(doc.content.as_str(), 160));
    m.insert(String::from_str("PATH"), rel);
    proof {
        reveal_strlit("TITLE");
        reveal_strlit("DATE");
        reveal_strlit("CONTENT");
        reveal_strlit("PATH");
        assert("TITLE"@.len() == 5 && "DATE"@.len() == 4 && "CONTENT"@.len() == 7 && "PATH"@.len()
            == 4);
        assert("DATE"@[0] == 'D' && "PATH"@[0] == 'P');
        assert("DATE"@ != "TITLE"@);
        assert("CONTENT"@ != "TITLE"@ && "CONTENT"@ != "DATE"@);
        assert("PATH"@ != "TITLE"@ && "PATH"@ != "DATE"@ && "PATH"@ != "CONTENT"@);
        assert(m@ == field_map(doc@, rel@));
    }
    m
}

/// Builds the feed block for one tag: every document of `sorted`, in
/// order, hydrated into `tpl` and joined by line breaks. `Err` carries
/// the path of the first document whose location cannot be made relative.
fn build_feed_block(tpl: &str, sorted: &Vec<MdInfo>, pd: &str) -> (r: Result<String, String>)
    requires
        forall|k: int| 0 <= k < sorted@.len() ==> sorted@[k]@.date.wf(),
    ensures
        match r {
            Ok(b) => feed_entries(tpl@, doc_views(sorted@), pd@) == Ok::<Seq<char>, Seq<char>>(
                b@,
            ),
            Err(p) => feed_entries(tpl@, doc_views(sorted@), pd@) == Err::<Seq<char>, Seq<char>>(
                p@,
            ),
        },
{
    let ghost docs_v = doc_views(sorted@);
    let nd = sorted.len();
    let mut block: Vec<char> = Vec::new();
    let mut idx: usize = 0;
    proof {
        assert(docs_v.skip(0) =~= docs_v);
        match feed_entries(tpl@, docs_v, pd@) {
            Ok(rest_e) => {
                assert(block@ + entry_sep(0, nd as int) + rest_e =~= rest_e);
            },
            _ => {},
        }
    }
    while idx < nd
        invariant
            idx <= nd,
            nd == sorted@.len(),
            docs_v == doc_views(sorted@),
            forall|k: int| 0 <= k < sorted@.len() ==> sorted@[k]@.date.wf(),
            match feed_entries(tpl@, docs_v.skip(idx as int), pd@) {
                Ok(rest_e) => feed_entries(tpl@, docs_v, pd@) == Ok::<Seq<char>, Seq<char>>(
                    block@ + entry_sep(idx as int, nd as int) + rest_e,
                ),
                Err(p) => feed_entries(tpl@, docs_v, pd@) == Err::<Seq<char>, Seq<char>>(p),
            },
        decreases nd - idx,
    {
        let ghost tail = docs_v.skip(idx as int);
        proof {
            assert(tail[0] == docs_v[idx as int]);
            assert(tail.skip(1) =~= docs_v.skip(idx + 1));
        }
        let doc = &sorted[idx];
        let target = html_path_of(doc.path.as_str());
        match relative_path(target.as_str(), pd) {
            None => {
                return Err(doc.path.clone());
            },
            Some(rel) => {
                let fields = build_fields(doc, rel);
                let h = hydrate_component(tpl, &fields);
                let ghost old_block = block@;
                if idx > 0 {
                    block.push('\n');
                }
                let mut hc = chars_of(h.as_str());
                block.append(&mut hc);
                proof {
                    match feed_entries(tpl@, docs_v.skip(idx + 1), pd@) {
                        Ok(rest_e) => {
                            assert(old_block + entry_sep(idx as int, nd as int) + (h@ + (if tail.len() == 1 {
                                Seq::<char>::empty()
                            } else {
                                seq!['\n']
                            }) + rest_e) =~= block@ + entry_sep(idx + 1, nd as int) + rest_e);
                        },
                        _ => {},
                    }
                }
                idx = idx + 1;
            },
        }
    }
    proof {
        assert(docs_v.skip(nd as int) =~= Seq::<MdInfoV>::empty());
    }
    Ok(string_from_chars(&block))
}

/// What the feed-inclusion pass yields.
pub enum FeedOutcome {
    /// The expanded text.
    Done { text: Seq<char> },
    /// Some tag lacks its `with` attribute.
    MissingWith,
    /// A fragment path that the component cache does not hold.
    Unresolved { path: Seq<char> },
    /// A document whose rendered location cannot be made relative to the
    /// page.
    NoRelative { path: Seq<char> },
}

/// The feed-inclusion pass: each `FEED` tag is replaced by the feed block
/// built from its fragment and the documents in feed order; everything
/// outside tags is copied through unchanged. A tag with no documents
/// yields an empty block.
pub open spec fn feed_pass(
    s: Seq<char>,
    cache: Map<Seq<char>, Seq<char>>,
    dir: Seq<char>,
    docs: Seq<MdInfoV>,
    page_dir: Seq<char>,
) -> FeedOutcome
    decreases s.len(),
{
    if s.len() == 0 {
        FeedOutcome::Done { text: s }
    } else {
        match find_tag_from(s, feed_name(), 0) {
            None => FeedOutcome::Done { text: s },
            Some(t) => {
                let e = splice_end(s, t);
                match tag_with(s, t) {
                    None => FeedOutcome::MissingWith,
                    Some(w) => {
                        let p = joined_path(dir, w);
                        if !cache.contains_key(p) {
                            FeedOutcome::Unresolved { path: p }
                        } else {
                            match feed_entries(cache[p], docs, page_dir) {
                                Err(dp) => FeedOutcome::NoRelative { path: dp },
                                Ok(block) => match feed_pass(
                                    s.subrange(e, s.len() as int),
                                    cache,
                                    dir,
                                    docs,
                                    page_dir,
                                ) {
                                    FeedOutcome::Done { text } => FeedOutcome::Done {
                                        text: s.subrange(0, t) + block + text,
                                    },
                                    o => o,
                                },
                            }
                        }
                    },
                }
            },
        }
    }
}

/// A processed prefix placed before the rest of the feed pass's outcome.
pub open spec fn feed_combine(prefix: Seq<char>, o: FeedOutcome) -> FeedOutcome {
    match o {
        FeedOutcome::Done { text } => FeedOutcome::Done { text: prefix + text },
        o2 => o2,
    }
}

/// Replaces every feed-inclusion tag `<FEED ... with="NAME" ... />` by the
/// feed built over the documents of `posts`, sorted into feed order, one
/// hydrated copy of fragment `NAME` per document. Fails when a tag has no
/// usable `with` attribute, when a named fragment is not in the cache, or
/// when a document's rendered location cannot be made relative to
/// `curr_path`'s directory.
#[verifier::rlimit(60)]
pub fn substitute_feed(
    contents: &str,
    curr_path: &str,
    components_dir: &str,
    components: &StrMap,
    posts: &Vec<MdInfo>,
) -> (r: Result<String, HTMLError>)
    requires
        components.wf(),
        forall|k: int| 0 <= k < posts@.len() ==> posts@[k]@.date.wf(),
    ensures
        match feed_pass(
            contents@,
            components@,
            components_dir@,
            sort_feed(doc_views(posts@)),
            parent_dir(curr_path@),
        ) {
            FeedOutcome::Done { text } => r matches Ok(out) && out@ == text,
            FeedOutcome::MissingWith => r matches Err(HTMLError::UnresolvedTag { tag }) && tag@
                == "with"@,
            FeedOutcome::Unresolved { path } => r matches Err(HTMLError::UnresolvedTag { tag })
                && tag@ == path,
            FeedOutcome::NoRelative { path } => r matches Err(HTMLError::UnresolvedTag { tag })
                && tag@ == path,
        },
{
    let sorted = sort_documents(posts);
    proof {
        lemma_sort_feed_ensures(doc_views(posts@));
        assert forall|k: int| 0 <= k < sorted@.len() implies sorted@[k]@.date.wf() by {
            let sv = doc_views(sorted@);
            let pv = doc_views(posts@);
            assert(sv[k] == sorted@[k]@);
            assert(sv.contains(sv[k]));
            assert(sv.to_multiset().count(sv[k]) > 0);
            assert(pv.contains(sv[k]));
            let i = choose|i: int| 0 <= i < pv.len() && pv[i] == sv[k];
            assert(posts@[i]@ == sv[k]);
        }
    }
    let pd = parent_dir_of(curr_path);
    let name = feed_name_vec();
    let ghost docs_v = sort_feed(doc_views(posts@));
    let ghost pdv = parent_dir(curr_path@);
    let mut rest = chars_of(contents);
    let mut out: Vec<char> = Vec::new();
    let mut done = false;
    proof {
        match feed_pass(rest@, components@, components_dir@, docs_v, pdv) {
            FeedOutcome::Done { text } => {
                assert(out@ + text =~= text);
            },
            _ => {},
        }
    }
    while !done
        invariant
            components.wf(),
            name@ == feed_name(),
            pd@ == pdv,
            pdv == parent_dir(curr_path@),
            docs_v == doc_views(sorted@),
            docs_v == sort_feed(doc_views(posts@)),
            forall|k: int| 0 <= k < sorted@.len() ==> sorted@[k]@.date.wf(),
            !done ==> feed_combine(
                out@,
                feed_pass(rest@, components@, components_dir@, docs_v, pdv),
            ) == feed_pass(contents@, components@, components_dir@, docs_v, pdv),
            done ==> feed_pass(contents@, components@, components_dir@, docs_v, pdv)
                == (FeedOutcome::Done { text: out@ }),
        decreases rest@.len() + (if done {
            0int
        } else {
            1int
        }),
    {
        match find_tag(&rest, &name) {
            None => {
                let n = rest.len();
                push_range(&mut out, &rest, 0, n);
                proof {
                    assert(rest@.subrange(0, n as int) =~= rest@);
                }
                done = true;
            },
            Some(t) => {
                let j = match find_char(&rest, '>', t) {
                    Some(j) => j,
                    None => vstd::pervasive::unreached(),
                };
                match find_with(&rest, t, j) {
                    None => {
                        return Err(HTMLError::UnresolvedTag { tag: String::from_str("with") });
                    },
                    Some((a, b)) => {
                        let w = sub_string(&rest, a, b);
                        let path = join_path(components_dir, w.as_str());
                        match components.lookup(path.as_str()) {
                            None => {
                                return Err(HTMLError::UnresolvedTag { tag: path });
                            },
                            Some(frag) => {
                                let block = match build_feed_block(frag.as_str(), &sorted, pd.as_str()) {
                                    Err(p) => {
                                        return Err(HTMLError::UnresolvedTag { tag: p });
                                    },
                                    Ok(b) => b,
                                };
                                let ghost old_out = out@;
                                let ghost old_rest = rest@;
                                push_range(&mut out, &rest, 0, t);
                                let mut bc = chars_of(block.as_str());
                                out.append(&mut bc);
                                let n = rest.len();
                                let newrest = sub_vec(&rest, j + 1, n);
                                proof {
                                    assert(splice_end(old_rest, t as int) == j + 1);
                                    match feed_pass(newrest@, components@, components_dir@, docs_v, pdv) {
                                        FeedOutcome::Done { text } => {
                                            assert(old_out + (old_rest.subrange(0, t as int)
                                                + block@ + text) =~= out@ + text);
                                        },
                                        _ => {},
                                    }
                                }
                                rest = newrest;
                            },
                        }
                    },
                }
            },
        }
    }
    Ok(string_from_chars(&out))
}

/// Expands a page: the fragment-inclusion pass first, then the
/// feed-inclusion pass over its output, so that braces produced by feed
/// hydration are never reinterpreted. Everything outside matched tags is
/// returned byte for byte; on any failure the page yields no partial
/// output, only the error.
pub fn expand(
    page_text: &str,
    components_dir: &str,
    posts: &Vec<MdInfo>,
    page_path: &str,
    components: &StrMap,
) -> (r: Result<String, HTMLError>)
    requires
        components.wf(),
        forall|k: int| 0 <= k < posts@.len() ==> posts@[k]@.date.wf(),
    ensures
        match replace_pass(page_text@, components@, components_dir@) {
            SubstOutcome::Done { text } => match feed_pass(
                text,
                components@,
                components_dir@,
                sort_feed(doc_views(posts@)),
                parent_dir(page_path@),
            ) {
                FeedOutcome::Done { text: t2 } => r matches Ok(out) && out@ == t2,
                FeedOutcome::MissingWith => r matches Err(HTMLError::UnresolvedTag { tag })
                    && tag@ == "with"@,
                FeedOutcome::Unresolved { path } => r matches Err(
                    HTMLError::UnresolvedTag { tag },
                ) && tag@ == path,
                FeedOutcome::NoRelative { path } => r matches Err(
                    HTMLError::UnresolvedTag { tag },
                ) && tag@ == path,
            },
            SubstOutcome::MissingWith => r matches Err(HTMLError::UnresolvedTag { tag }) && tag@
                == "with"@,
            SubstOutcome::Unresolved { path } => r matches Err(HTMLError::UnresolvedTag { tag })
                && tag@ == path,
        },
{
    let first = match substitute_replace(page_text, components_dir, components) {
        Ok(t) => t,
        Err(e) => {
            return Err(e);
        },
    };
    substitute_feed(first.as_str(), page_path, components_dir, components, posts)
}

/// Law: a page containing no tag of either form expands to itself, byte
/// for byte, whatever the cache, the directories and the documents hold.
pub proof fn lemma_expand_no_tags(
    s: Seq<char>,
    cache: Map<Seq<char>, Seq<char>>,
    dir: Seq<char>,
    docs: Seq<MdInfoV>,
    page_dir: Seq<char>,
)
    requires
        find_tag_from(s, replace_name(), 0) is None,
        find_tag_from(s, feed_name(), 0) is None,
    ensures
        replace_pass(s, cache, dir) == (SubstOutcome::Done { text: s }),
        feed_pass(s, cache, dir, docs, page_dir) == (FeedOutcome::Done { text: s }),
{
}

} // verus!
