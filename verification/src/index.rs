//! The document index: parsed document records, the feed order (date
//! descending, ties broken by source path), a verified sort, and the
//! per-root snapshot cache.

use vstd::prelude::*;
use vstd::multiset::Multiset;

use crate::date::{date_before, date_lt, Date};
use crate::store::str_eq;
use crate::text::chars_of;

verus! {

broadcast use vstd::seq_lib::group_to_multiset_ensures;

/// One parsed document: its front-matter date and title, the body text
/// after the front matter, and the source file's path.
#[derive(Debug)]
#[verifier::ext_equal]
pub struct MdInfo {
    pub date: Date,
    pub title: String,
    pub content: String,
    pub path: String,
}

/// The mathematical value of a document record.
#[verifier::ext_equal]
pub struct MdInfoV {
    pub date: Date,
    pub title: Seq<char>,
    pub content: Seq<char>,
    pub path: Seq<char>,
}

impl View for MdInfo {
    type V = MdInfoV;

    open spec fn view(&self) -> MdInfoV {
        MdInfoV { date: self.date, title: self.title@, content: self.content@, path: self.path@ }
    }
}

impl Clone for MdInfo {
    fn clone(&self) -> (r: Self)
        ensures
            r == *self,
    {
        let r = MdInfo {
            date: self.date,
            title: self.title.clone(),
            content: self.content.clone(),
            path: self.path.clone(),
        };
        proof {
            assert(r =~= *self);
        }
        r
    }
}

/// The errors of document indexing, each carrying the offending path.
#[derive(Debug, PartialEq, Eq)]
pub enum MdError {
    /// The document file could not be read.
    Io { path: String },
    /// The document does not open with a delimited front-matter block.
    MissingFrontMatter { path: String },
    /// The front-matter block is present but not key/value lines carrying
    /// at least `title` and `date`.
    FrontMatterSyntax { path: String },
    /// The `date` value matches neither accepted date shape.
    DateParse { path: String, date: String },
}

/// Lexicographic order on character sequences, read from position `i` on.
pub open spec fn lex_le_from(a: Seq<char>, b: Seq<char>, i: int) -> bool
    decreases a.len() - i,
{
    if i >= a.len() {
        true
    } else if i >= b.len() {
        false
    } else if (a[i] as u32) != (b[i] as u32) {
        (a[i] as u32) < (b[i] as u32)
    } else {
        lex_le_from(a, b, i + 1)
    }
}

pub open spec fn lex_le(a: Seq<char>, b: Seq<char>) -> bool {
    lex_le_from(a, b, 0)
}

pub fn lex_le_chars(a: &Vec<char>, b: &Vec<char>) -> (r: bool)
    ensures
        r == lex_le(a@, b@),
{
    let na = a.len();
    let nb = b.len();
    let mut i: usize = 0;
    while i < na
        invariant
            i <= na,
            na == a@.len(),
            nb == b@.len(),
            lex_le(a@, b@) == lex_le_from(a@, b@, i as int),
        decreases na - i,
    {
        if i >= nb {
            return false;
        }
        if (a[i] as u32) != (b[i] as u32) {
            return (a[i] as u32) < (b[i] as u32);
        }
        i = i + 1;
    }
    true
}

proof fn lemma_lex_le_total_from(a: Seq<char>, b: Seq<char>, i: int)
    requires
        0 <= i,
    ensures
        lex_le_from(a, b, i) || lex_le_from(b, a, i),
    decreases a.len() - i,
{
    if i < a.len() && i < b.len() && (a[i] as u32) == (b[i] as u32) {
        lemma_lex_le_total_from(a, b, i + 1);
    }
}

proof fn lemma_lex_le_trans_from(a: Seq<char>, b: Seq<char>, c: Seq<char>, i: int)
    requires
        0 <= i,
        lex_le_from(a, b, i),
        lex_le_from(b, c, i),
    ensures
        lex_le_from(a, c, i),
    decreases a.len() - i,
{
    if i < a.len() && i < b.len() && i < c.len() && (a[i] as u32) == (b[i] as u32) && (b[i]
        as u32) == (c[i] as u32) {
        lemma_lex_le_trans_from(a, b, c, i + 1);
    }
}

/// The feed order: later dates come first; equal dates are ordered by
/// source path, ascending.
pub open spec fn feed_before(a: MdInfoV, b: MdInfoV) -> bool {
    ||| date_before(b.date, a.date)
    ||| (a.date == b.date && lex_le(a.path, b.path))
}

/// The feed order relates every pair, one way or the other.
pub proof fn lemma_feed_before_total(a: MdInfoV, b: MdInfoV)
    ensures
        feed_before(a, b) || feed_before(b, a),
{
    lemma_lex_le_total_from(a.path, b.path, 0);
}

/// The feed order is transitive.
pub proof fn lemma_feed_before_trans(a: MdInfoV, b: MdInfoV, c: MdInfoV)
    requires
        feed_before(a, b),
        feed_before(b, c),
    ensures
        feed_before(a, c),
{
    if a.date == b.date && b.date == c.date {
        lemma_lex_le_trans_from(a.path, b.path, c.path, 0);
    }
}

pub fn feed_before_cmp(a: &MdInfo, b: &MdInfo) -> (r: bool)
    ensures
        r == feed_before(a@, b@),
{
    if date_lt(&b.date, &a.date) {
        true
    } else if a.date == b.date {
        let ap = chars_of(a.path.as_str());
        let bp = chars_of(b.path.as_str());
        lex_le_chars(&ap, &bp)
    } else {
        false
    }
}

/// Where `x` belongs in the (sorted) sequence `s`: the first position whose
/// element `x` precedes.
pub open spec fn insert_pos(x: MdInfoV, s: Seq<MdInfoV>) -> int
    decreases s.len(),
{
    if s.len() == 0 {
        0
    } else if feed_before(x, s[0]) {
        0
    } else {
        1 + insert_pos(x, s.skip(1))
    }
}

pub proof fn lemma_insert_pos(x: MdInfoV, s: Seq<MdInfoV>)
    ensures
        0 <= insert_pos(x, s) <= s.len(),
        forall|k: int| 0 <= k < insert_pos(x, s) ==> !feed_before(x, s[k]),
        insert_pos(x, s) < s.len() ==> feed_before(x, s[insert_pos(x, s)]),
    decreases s.len(),
{
    if s.len() > 0 && !feed_before(x, s[0]) {
        lemma_insert_pos(x, s.skip(1));
        let p = insert_pos(x, s);
        assert forall|k: int| 0 <= k < p implies !feed_before(x, s[k]) by {
            if k > 0 {
                assert(s.skip(1)[k - 1] == s[k]);
            }
        }
        if p < s.len() {
            assert(s.skip(1)[p - 1] == s[p]);
        }
    }
}

/// `x` placed at its position in `s`.
pub open spec fn insert_sorted(x: MdInfoV, s: Seq<MdInfoV>) -> Seq<MdInfoV> {
    s.insert(insert_pos(x, s), x)
}

/// The feed-sorted permutation of `s`, built by repeated insertion.
pub open spec fn sort_feed(s: Seq<MdInfoV>) -> Seq<MdInfoV>
    decreases s.len(),
{
    if s.len() == 0 {
        Seq::empty()
    } else {
        insert_sorted(s[0], sort_feed(s.skip(1)))
    }
}

/// Every pair of entries stands in feed order.
pub open spec fn feed_sorted(s: Seq<MdInfoV>) -> bool {
    forall|i: int, j: int| 0 <= i < j < s.len() ==> feed_before(s[i], s[j])
}

proof fn lemma_insert_sorted_props(x: MdInfoV, s: Seq<MdInfoV>)
    requires
        feed_sorted(s),
    ensures
        feed_sorted(insert_sorted(x, s)),
        insert_sorted(x, s).to_multiset() == s.to_multiset().insert(x),
        insert_sorted(x, s).len() == s.len() + 1,
{
    lemma_insert_pos(x, s);
    let p = insert_pos(x, s);
    let r = s.insert(p, x);
    assert forall|i: int, j: int| 0 <= i < j < r.len() implies feed_before(r[i], r[j]) by {
        if i < p && j == p {
            lemma_feed_before_total(x, s[i]);
        } else if i == p && j > p {
            if j - 1 > p {
                lemma_feed_before_trans(x, s[p], s[j - 1]);
            }
        }
    }
    assert(r.to_multiset() == s.to_multiset().insert(x)) by {
        vstd::seq_lib::to_multiset_insert(s, p, x);
    }
}

/// The law of the document sort: the result is in feed order — dates
/// descending, ties broken by path — and is a permutation of the input.
pub proof fn lemma_sort_feed_ensures(s: Seq<MdInfoV>)
    ensures
        feed_sorted(sort_feed(s)),
        sort_feed(s).to_multiset() == s.to_multiset(),
        sort_feed(s).len() == s.len(),
    decreases s.len(),
{
    if s.len() > 0 {
        lemma_sort_feed_ensures(s.skip(1));
        lemma_insert_sorted_props(s[0], sort_feed(s.skip(1)));
        assert(s =~= seq![s[0]] + s.skip(1));
        vstd::seq_lib::lemma_multiset_commutative(seq![s[0]], s.skip(1));
        assert(seq![s[0]] =~= Seq::<MdInfoV>::empty().push(s[0]));
        assert(seq![s[0]].to_multiset() =~= Multiset::<MdInfoV>::empty().insert(s[0]));
        assert(sort_feed(s).to_multiset() =~= s.to_multiset());
    }
}

/// The views of a sequence of records.
pub open spec fn doc_views(s: Seq<MdInfo>) -> Seq<MdInfoV> {
    s.map_values(|m: MdInfo| m@)
}

fn insert_document(s: &mut Vec<MdInfo>, x: MdInfo)
    ensures
        doc_views(final(s)@) == insert_sorted(x@, doc_views(old(s)@)),
{
    proof {
        lemma_insert_pos(x@, doc_views(s@));
    }
    let n = s.len();
    let mut p: usize = 0;
    while p < n && !feed_before_cmp(&x, &s[p])
        invariant
            p <= n,
            n == s@.len(),
            forall|k: int| 0 <= k < p ==> !feed_before(x@, doc_views(s@)[k]),
        decreases n - p,
    {
        p = p + 1;
    }
    proof {
        let sp = insert_pos(x@, doc_views(s@));
        if sp < p {
            assert(feed_before(x@, doc_views(s@)[sp]));
        }
        if p < sp {
            assert(!feed_before(x@, doc_views(s@)[p as int]));
        }
        assert(p == sp);
    }
    s.insert(p, x);
    proof {
        assert(doc_views(s@) =~= insert_sorted(x@, doc_views(old(s)@)));
    }
}

/// The documents of `posts` in feed order: date descending, ties broken by
/// the source path. The input is left as it is; the result is a sorted
/// permutation of it.
pub fn sort_documents(posts: &Vec<MdInfo>) -> (r: Vec<MdInfo>)
    ensures
        doc_views(r@) == sort_feed(doc_views(posts@)),
{
    let n = posts.len();
    let mut out: Vec<MdInfo> = Vec::new();
    let mut i: usize = n;
    proof {
        assert(doc_views(posts@.skip(n as int)) =~= Seq::<MdInfoV>::empty());
        assert(doc_views(out@) =~= sort_feed(doc_views(posts@.skip(n as int))));
    }
    while i > 0
        invariant
            i <= n,
            n == posts@.len(),
            doc_views(out@) == sort_feed(doc_views(posts@.skip(i as int))),
        decreases i,
    {
        i = i - 1;
        let x = posts[i].clone();
        proof {
            let rest = doc_views(posts@.skip(i as int));
            assert(rest[0] == posts@[i as int]@);
            assert(posts@.skip(i as int).skip(1) =~= posts@.skip(i + 1));
            assert(doc_views(posts@.skip(i as int)).skip(1) =~= doc_views(
                posts@.skip(i as int).skip(1),
            ));
        }
        insert_document(&mut out, x);
    }
    proof {
        assert(posts@.skip(0) =~= posts@);
    }
    out
}

/// Copies a snapshot, record by record.
fn clone_documents(v: &Vec<MdInfo>) -> (r: Vec<MdInfo>)
    ensures
        r@ == v@,
{
    let n = v.len();
    let mut r: Vec<MdInfo> = Vec::new();
    let mut i: usize = 0;
    while i < n
        invariant
            i <= n,
            n == v@.len(),
            r@ == v@.take(i as int),
        decreases n - i,
    {
        r.push(v[i].clone());
        i = i + 1;
        proof {
            assert(r@ =~= v@.take(i as int));
        }
    }
    proof {
        assert(r@ =~= v@);
    }
    r
}

/// The contents of the index's entry list: root path -> snapshot views.
pub open spec fn doc_assoc(entries: Seq<(String, Vec<MdInfo>)>) -> Map<Seq<char>, Seq<MdInfoV>>
    decreases entries.len(),
{
    if entries.len() == 0 {
        Map::empty()
    } else {
        doc_assoc(entries.drop_last()).insert(entries.last().0@, doc_views(entries.last().1@))
    }
}

/// The per-root document index: an append-only cache from a root path to
/// the snapshot of records parsed under it. Snapshots are stored in
/// insertion order; sorting is a query-time concern.
pub struct PostIndex {
    entries: Vec<(String, Vec<MdInfo>)>,
}

impl PostIndex {
    /// No two entries share a root.
    pub closed spec fn wf(self) -> bool {
        forall|i: int, j: int|
            0 <= i < j < self.entries@.len() ==> self.entries@[i].0@ != self.entries@[j].0@
    }

    pub closed spec fn view(self) -> Map<Seq<char>, Seq<MdInfoV>> {
        doc_assoc(self.entries@)
    }

    pub fn new() -> (r: PostIndex)
        ensures
            r.wf(),
            r@ == Map::<Seq<char>, Seq<MdInfoV>>::empty(),
    {
        PostIndex { entries: Vec::new() }
    }

    /// Returns a copy of the snapshot cached for `root`, if one exists.
    pub fn lookup(&self, root: &str) -> (r: Option<Vec<MdInfo>>)
        requires
            self.wf(),
        ensures
            match r {
                Some(v) => self@.contains_key(root@) && doc_views(v@) == self@[root@],
                None => !self@.contains_key(root@),
            },
    {
        let n = self.entries.len();
        let mut i: usize = 0;
        while i < n
            invariant
                self.wf(),
                i <= n,
                n == self.entries@.len(),
                forall|k: int| 0 <= k < i ==> self.entries@[k].0@ != root@,
            decreases n - i,
        {
            if str_eq(self.entries[i].0.as_str(), root) {
                proof {
                    lemma_doc_assoc_get(self.entries@, i as int);
                }
                return Some(clone_documents(&self.entries[i].1));
            }
            i = i + 1;
        }
        proof {
            lemma_doc_assoc_absent(self.entries@, root@);
        }
        None
    }

    /// Caches `docs` as the snapshot for `root` unless one is already
    /// held; a cached snapshot is never replaced.
    pub fn insert(&mut self, root: String, docs: Vec<MdInfo>)
        requires
            old(self).wf(),
        ensures
            final(self).wf(),
            final(self)@ == if old(self)@.contains_key(root@) {
                old(self)@
            } else {
                old(self)@.insert(root@, doc_views(docs@))
            },
    {
        let present = self.lookup(root.as_str());
        match present {
            Some(_) => {},
            None => {
                proof {
                    assert forall|k: int| 0 <= k < self.entries@.len() implies self.entries@[k].0@
                        != root@ by {
                        if self.entries@[k].0@ == root@ {
                            lemma_doc_assoc_get(self.entries@, k);
                        }
                    }
                    let p = (root, docs);
                    assert(self.entries@.push(p).drop_last() =~= self.entries@);
                    assert(self.entries@.push(p).last() == p);
                }
                self.entries.push((root, docs));
            },
        }
    }
}

proof fn lemma_doc_assoc_get(entries: Seq<(String, Vec<MdInfo>)>, i: int)
    requires
        0 <= i < entries.len(),
        forall|p: int, q: int| 0 <= p < q < entries.len() ==> entries[p].0@ != entries[q].0@,
    ensures
        doc_assoc(entries).contains_key(entries[i].0@),
        doc_assoc(entries)[entries[i].0@] == doc_views(entries[i].1@),
    decreases entries.len(),
{
    if i == entries.len() - 1 {
    } else {
        lemma_doc_assoc_get(entries.drop_last(), i);
        assert(entries.drop_last()[i] == entries[i]);
        assert(entries[entries.len() - 1].0@ != entries[i].0@);
    }
}

proof fn lemma_doc_assoc_absent(entries: Seq<(String, Vec<MdInfo>)>, key: Seq<char>)
    requires
        forall|k: int| 0 <= k < entries.len() ==> entries[k].0@ != key,
    ensures
        !doc_assoc(entries).contains_key(key),
    decreases entries.len(),
{
    if entries.len() > 0 {
        lemma_doc_assoc_absent(entries.drop_last(), key);
    }
}

} // verus!
