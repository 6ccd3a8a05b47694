//! Front-matter parsing: a document opens with a line holding exactly the
//! delimiter, then key/value lines up to a second such line, then an
//! optional single blank line, then the body, taken verbatim.

use vstd::prelude::*;

use crate::date::{parse_date, parse_date_spec, Date};
use crate::index::{MdError, MdInfo, MdInfoV};
use crate::store::StrMap;
use crate::text::{chars_of, find_char, find_char_from, sub_string};

verus! {

/// The front-matter delimiter line.
pub open spec fn fm_delim() -> Seq<char> {
    seq!['-', '-', '-']
}

/// The delimiter line together with its line break, opening a document.
pub open spec fn open_mark() -> Seq<char> {
    seq!['-', '-', '-', '\n']
}

/// Where the line starting at `from` ends: the next line break, or the end
/// of the text.
pub open spec fn line_end(s: Seq<char>, from: int) -> int {
    let e = match find_char_from(s, '\n', from) {
        None => s.len() as int,
        Some(i) => i,
    };
    if e < from {
        from
    } else {
        e
    }
}

/// The first line at or after `from` holding exactly the delimiter:
/// `Some((start, tail))` where `tail` is the position just past that
/// line's break.
pub open spec fn find_close_from(s: Seq<char>, from: int) -> Option<(int, int)>
    decreases s.len() - from,
{
    if from > s.len() {
        None
    } else {
        let lend = line_end(s, from);
        if s.subrange(from, lend) == fm_delim() {
            Some((from, if lend < s.len() { lend + 1 } else { s.len() as int }))
        } else if lend >= s.len() {
            None
        } else {
            find_close_from(s, lend + 1)
        }
    }
}

pub open spec fn is_blank(c: char) -> bool {
    c == ' ' || c == '\t'
}

/// `t` with leading blanks removed.
pub open spec fn trim_start(t: Seq<char>) -> Seq<char>
    decreases t.len(),
{
    if t.len() > 0 && is_blank(t[0]) {
        trim_start(t.skip(1))
    } else {
        t
    }
}

/// `t` with trailing blanks removed.
pub open spec fn trim_end(t: Seq<char>) -> Seq<char>
    decreases t.len(),
{
    if t.len() > 0 && is_blank(t.last()) {
        trim_end(t.drop_last())
    } else {
        t
    }
}

/// `t` with blanks removed from both ends.
pub open spec fn trim(t: Seq<char>) -> Seq<char> {
    trim_end(trim_start(t))
}

proof fn lemma_trim_start_skip(t: Seq<char>, j: int)
    requires
        0 <= j <= t.len(),
        forall|k: int| 0 <= k < j ==> is_blank(t[k]),
        j < t.len() ==> !is_blank(t[j]),
    ensures
        trim_start(t) == t.skip(j),
    decreases j,
{
    if j == 0 {
        assert(t.skip(0) =~= t);
    } else {
        lemma_trim_start_skip(t.skip(1), j - 1);
        assert(t.skip(1).skip(j - 1) =~= t.skip(j));
    }
}

proof fn lemma_trim_end_take(t: Seq<char>, j: int)
    requires
        0 <= j <= t.len(),
        forall|k: int| j <= k < t.len() ==> is_blank(t[k]),
        j > 0 ==> !is_blank(t[j - 1]),
    ensures
        trim_end(t) == t.take(j),
    decreases t.len() - j,
{
    if j == t.len() {
        assert(t.take(j) =~= t);
    } else {
        lemma_trim_end_take(t.drop_last(), j);
        assert(t.drop_last().take(j) =~= t.take(j));
    }
}

/// The trimmed slice `s[from..to]`, by its bounds within `s`.
fn trim_range(s: &Vec<char>, from: usize, to: usize) -> (r: (usize, usize))
    requires
        from <= to <= s@.len(),
    ensures
        from <= r.0 <= r.1 <= to,
        trim(s@.subrange(from as int, to as int)) == s@.subrange(r.0 as int, r.1 as int),
{
    let ghost t = s@.subrange(from as int, to as int);
    let mut a: usize = from;
    while a < to && (s[a] == ' ' || s[a] == '\t')
        invariant
            from <= a <= to,
            to <= s@.len(),
            forall|k: int| from <= k < a ==> is_blank(s@[k]),
        decreases to - a,
    {
        a = a + 1;
    }
    proof {
        assert forall|k: int| 0 <= k < a - from implies is_blank(t[k]) by {
            assert(t[k] == s@[from + k]);
        }
        if a < to {
            assert(t[a - from] == s@[a as int]);
        }
        lemma_trim_start_skip(t, a - from);
    }
    let ghost u = trim_start(t);
    proof {
        assert(u =~= s@.subrange(a as int, to as int));
    }
    let mut b: usize = to;
    while b > a && (s[b - 1] == ' ' || s[b - 1] == '\t')
        invariant
            a <= b <= to,
            to <= s@.len(),
            forall|k: int| b <= k < to ==> is_blank(s@[k]),
        decreases b,
    {
        b = b - 1;
    }
    proof {
        assert forall|k: int| b - a <= k < u.len() implies is_blank(u[k]) by {
            assert(u[k] == s@[a + k]);
        }
        if b > a {
            assert(u[b - a - 1] == s@[b - 1]);
        }
        lemma_trim_end_take(u, b - a);
        assert(u.take(b - a) =~= s@.subrange(a as int, b as int));
    }
    (a, b)
}

/// One `key: value` line: the text before the first colon and the text
/// after it, both trimmed; the key must be non-empty.
pub open spec fn line_kv(line: Seq<char>) -> Option<(Seq<char>, Seq<char>)> {
    match find_char_from(line, ':', 0) {
        None => None,
        Some(c) => {
            let k = trim(line.subrange(0, c));
            let v = trim(line.subrange(c + 1, line.len() as int));
            if k.len() == 0 {
                None
            } else {
                Some((k, v))
            }
        },
    }
}

/// Reads the key/value lines of `s[from..to]` into `m`, first occurrence
/// of a key winning; empty lines are skipped; a non-empty line without a
/// colon, or with an empty key, is a syntax error.
pub open spec fn fm_scan(
    s: Seq<char>,
    from: int,
    to: int,
    m: Map<Seq<char>, Seq<char>>,
) -> Option<Map<Seq<char>, Seq<char>>>
    decreases to - from,
{
    if from >= to {
        Some(m)
    } else {
        let lend = line_end(s, from);
        let next = if lend + 1 < to {
            lend + 1
        } else {
            to
        };
        let line = s.subrange(from, if lend > s.len() {
            s.len() as int
        } else {
            lend
        });
        if line.len() == 0 {
            fm_scan(s, next, to, m)
        } else {
            match line_kv(line) {
                None => None,
                Some(kv) => fm_scan(
                    s,
                    next,
                    to,
                    if m.contains_key(kv.0) {
                        m
                    } else {
                        m.insert(kv.0, kv.1)
                    },
                ),
            }
        }
    }
}

/// What parsing a document's text yields.
pub enum DocParse {
    /// The text does not open with a delimiter line, or no closing
    /// delimiter line follows.
    NoFrontMatter,
    /// The delimited block is present but not readable as key/value lines
    /// holding at least `title` and `date`.
    BadSyntax,
    /// The `date` value matches neither accepted shape.
    BadDate { text: Seq<char> },
    /// A well-formed document.
    Parsed { title: Seq<char>, date: Date, body: Seq<char> },
}

/// The meaning of a document file's text.
pub open spec fn parse_doc_spec(s: Seq<char>) -> DocParse {
    if !(s.len() >= 4 && s.subrange(0, 4) == open_mark()) {
        DocParse::NoFrontMatter
    } else {
        match find_close_from(s, 4) {
            None => DocParse::NoFrontMatter,
            Some(ct) => {
                let body_start = if ct.1 < s.len() && s[ct.1] == '\n' {
                    ct.1 + 1
                } else {
                    ct.1
                };
                let body = s.subrange(body_start, s.len() as int);
                match fm_scan(s, 4, ct.0, Map::empty()) {
                    None => DocParse::BadSyntax,
                    Some(m) => {
                        if m.contains_key("title"@) && m.contains_key("date"@) {
                            match parse_date_spec(m["date"@]) {
                                Some(d) => DocParse::Parsed {
                                    title: m["title"@],
                                    date: d,
                                    body,
                                },
                                None => DocParse::BadDate { text: m["date"@] },
                            }
                        } else {
                            DocParse::BadSyntax
                        }
                    },
                }
            },
        }
    }
}

/// Parses one document's text into a record carrying `path` as its
/// identity. Fails exactly as the text's meaning dictates: a missing or
/// unclosed front-matter block, unreadable key/value lines, or a date of
/// neither accepted shape, each error carrying the offending path.
pub fn parse_post(path: &str, contents: &str) -> (r: Result<MdInfo, MdError>)
    ensures
        match parse_doc_spec(contents@) {
            DocParse::Parsed { title, date, body } => r matches Ok(m) && m@ == (MdInfoV {
                date,
                title,
                content: body,
                path: path@,
            }),
            DocParse::NoFrontMatter => r matches Err(MdError::MissingFrontMatter { path: p })
                && p@ == path@,
            DocParse::BadSyntax => r matches Err(MdError::FrontMatterSyntax { path: p }) && p@
                == path@,
            DocParse::BadDate { text } => r matches Err(MdError::DateParse { path: p, date: dt })
                && p@ == path@ && dt@ == text,
        },
{
    let cs = chars_of(contents);
    let n = cs.len();
    if n < 4 || !(cs[0] == '-' && cs[1] == '-' && cs[2] == '-' && cs[3] == '\n') {
        proof {
            if n >= 4 {
                assert(contents@.subrange(0, 4)[0] == contents@[0]);
                assert(contents@.subrange(0, 4)[1] == contents@[1]);
                assert(contents@.subrange(0, 4)[2] == contents@[2]);
                assert(contents@.subrange(0, 4)[3] == contents@[3]);
                assert(contents@.subrange(0, 4) != open_mark());
            }
        }
        return Err(MdError::MissingFrontMatter { path: path.to_owned() });
    }
    proof {
        assert(contents@.subrange(0, 4) =~= open_mark());
    }
    // Find the closing delimiter line.
    let mut pos: usize = 4;
    let mut close: Option<(usize, usize)> = None;
    let mut searching = true;
    while searching
        invariant
            4 <= pos <= n,
            n == cs@.len(),
            cs@ == contents@,
            searching ==> close is None && find_close_from(contents@, 4) == find_close_from(
                contents@,
                pos as int,
            ),
            !searching ==> match close {
                Some(ct) => find_close_from(contents@, 4) == Some((ct.0 as int, ct.1 as int))
                    && ct.0 <= ct.1 <= n,
                None => find_close_from(contents@, 4) is None,
            },
        decreases n - pos + (if searching { 1int } else { 0int }),
    {
        let lend = match find_char(&cs, '\n', pos) {
            Some(i) => i,
            None => n,
        };
        if lend - pos == 3 && cs[pos] == '-' && cs[pos + 1] == '-' && cs[pos + 2] == '-' {
            proof {
                assert(contents@.subrange(pos as int, lend as int) =~= fm_delim());
            }
            let tail = if lend < n {
                lend + 1
            } else {
                n
            };
            close = Some((pos, tail));
            searching = false;
        } else {
            proof {
                assert(fm_delim().len() == 3);
                assert(fm_delim()[0] == '-' && fm_delim()[1] == '-' && fm_delim()[2] == '-');
                if lend - pos == 3 {
                    assert(contents@.subrange(pos as int, lend as int)[0] == contents@[
                        pos as int
                    ]);
                    assert(contents@.subrange(pos as int, lend as int)[1] == contents@[pos + 1]);
                    assert(contents@.subrange(pos as int, lend as int)[2] == contents@[pos + 2]);
                }
                assert(contents@.subrange(pos as int, lend as int) != fm_delim());
            }
            if lend >= n {
                close = None;
                searching = false;
            } else {
                pos = lend + 1;
            }
        }
    }
    let ct = match close {
        Some(ct) => ct,
        None => {
            return Err(MdError::MissingFrontMatter { path: path.to_owned() });
        },
    };
    // Read the key/value lines between the delimiters.
    let mut map = StrMap::new();
    let mut p: usize = 4;
    while p < ct.0
        invariant
            4 <= p,
            ct.0 <= ct.1 <= n,
            n == cs@.len(),
            cs@ == contents@,
            map.wf(),
            contents@.len() >= 4,
            contents@.subrange(0, 4) == open_mark(),
            find_close_from(contents@, 4) == Some((ct.0 as int, ct.1 as int)),
            fm_scan(contents@, 4, ct.0 as int, Map::empty()) == fm_scan(
                contents@,
                p as int,
                ct.0 as int,
                map@,
            ),
        decreases ct.0 - p,
    {
        let lend = match find_char(&cs, '\n', p) {
            Some(i) => i,
            None => n,
        };
        let ghost line = contents@.subrange(p as int, lend as int);
        if lend == p {
            // An empty line inside the block is skipped.
        } else {
            let colon = match find_char(&cs, ':', p) {
                Some(c) if c < lend => Some(c),
                _ => None,
            };
            proof {
                match find_char_from(contents@, ':', p as int) {
                    Some(c) => {
                        crate::text::lemma_find_char_from(contents@, ':', p as int);
                        if c < lend {
                            assert(find_char_from(line, ':', 0) == Some(c - p)) by {
                                assert forall|k: int| 0 <= k < c - p implies line[k] != ':' by {
                                    assert(line[k] == contents@[p + k]);
                                }
                                assert(line[c - p] == contents@[c as int]);
                                crate::text::lemma_find_char_from_unique(
                                    line,
                                    ':',
                                    0,
                                    Some(c - p),
                                );
                            }
                        } else {
                            assert(find_char_from(line, ':', 0) is None) by {
                                assert forall|k: int| 0 <= k < line.len() implies line[k]
                                    != ':' by {
                                    assert(line[k] == contents@[p + k]);
                                }
                                crate::text::lemma_find_char_from_unique(line, ':', 0, None);
                            }
                        }
                    },
                    None => {
                        crate::text::lemma_find_char_from(contents@, ':', p as int);
                        assert(find_char_from(line, ':', 0) is None) by {
                            assert forall|k: int| 0 <= k < line.len() implies line[k] != ':' by {
                                assert(line[k] == contents@[p + k]);
                            }
                            crate::text::lemma_find_char_from_unique(line, ':', 0, None);
                        }
                    },
                }
            }
            match colon {
                None => {
                    return Err(MdError::FrontMatterSyntax { path: path.to_owned() });
                },
                Some(c) => {
                    let (ka, kb) = trim_range(&cs, p, c);
                    proof {
                        assert(contents@.subrange(p as int, c as int) =~= line.subrange(
                            0,
                            c - p,
                        ));
                    }
                    if ka == kb {
                        return Err(MdError::FrontMatterSyntax { path: path.to_owned() });
                    }
                    let (va, vb) = trim_range(&cs, c + 1, lend);
                    proof {
                        assert(contents@.subrange(c + 1, lend as int) =~= line.subrange(
                            c - p + 1,
                            line.len() as int,
                        ));
                    }
                    let key = sub_string(&cs, ka, kb);
                    let val = sub_string(&cs, va, vb);
                    map.insert(key, val);
                },
            }
        }
        p = if lend >= ct.0 {
            ct.0
        } else {
            lend + 1
        };
    }
    proof {
        assert(fm_scan(contents@, 4, ct.0 as int, Map::empty()) == Some(map@));
    }
    // Require the two mandatory fields, then read the date.
    let title = match map.lookup("title") {
        Some(t) => t,
        None => {
            return Err(MdError::FrontMatterSyntax { path: path.to_owned() });
        },
    };
    let datetext = match map.lookup("date") {
        Some(d) => d,
        None => {
            return Err(MdError::FrontMatterSyntax { path: path.to_owned() });
        },
    };
    let date = match parse_date(datetext.as_str()) {
        Some(d) => d,
        None => {
            return Err(MdError::DateParse { path: path.to_owned(), date: datetext });
        },
    };
    let body_start = if ct.1 < n && cs[ct.1] == '\n' {
        ct.1 + 1
    } else {
        ct.1
    };
    let body = sub_string(&cs, body_start, n);
    Ok(MdInfo { date, title, content: body, path: path.to_owned() })
}

} // verus!
