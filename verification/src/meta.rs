//! Metadata stamping: the syndication link and the social-preview block,
//! spliced into a page at every closing head tag.

use vstd::prelude::*;

use crate::index::{MdInfo, MdInfoV};
use crate::text::{chars_of, string_from_chars, truncate_content, truncate_spec};

verus! {

/// Every occurrence of `pat` replaced by `rep`, left to right, without
/// overlap; an empty pattern replaces nothing.
pub open spec fn replace_all(s: Seq<char>, pat: Seq<char>, rep: Seq<char>) -> Seq<char>
    decreases s.len(),
{
    if pat.len() == 0 || pat.len() > s.len() {
        s
    } else if s.subrange(0, pat.len() as int) == pat {
        rep + replace_all(s.skip(pat.len() as int), pat, rep)
    } else {
        seq![s[0]] + replace_all(s.skip(1), pat, rep)
    }
}

fn replace_all_chars(s: &Vec<char>, pat: &Vec<char>, rep: &Vec<char>) -> (r: Vec<char>)
    requires
        pat@.len() >= 1,
    ensures
        r@ == replace_all(s@, pat@, rep@),
{
    let n = s.len();
    let pl = pat.len();
    let mut out: Vec<char> = Vec::new();
    let mut i: usize = 0;
    proof {
        assert(s@.skip(0) =~= s@);
        assert(out@ + replace_all(s@, pat@, rep@) =~= replace_all(s@, pat@, rep@));
    }
    while i < n
        invariant
            i <= n,
            n == s@.len(),
            pl == pat@.len(),
            pl >= 1,
            replace_all(s@, pat@, rep@) == out@ + replace_all(s@.skip(i as int), pat@, rep@),
        decreases n - i,
    {
        let ghost t = s@.skip(i as int);
        if crate::tags::range_eq(s, i, pat) {
            proof {
                assert(t.subrange(0, pl as int) =~= s@.subrange(i as int, i + pl));
                assert(t.skip(pl as int) =~= s@.skip(i + pl));
            }
            let mut rc = crate::text::sub_vec(rep, 0, rep.len());
            proof {
                assert(rc@ =~= rep@);
            }
            out.append(&mut rc);
            i = i + pl;
        } else {
            proof {
                if pl <= t.len() {
                    assert(t.subrange(0, pl as int) =~= s@.subrange(i as int, i + pl));
                }
                assert(t.skip(1) =~= s@.skip(i + 1));
                assert(t[0] == s@[i as int]);
            }
            out.push(s[i]);
            i = i + 1;
        }
    }
    proof {
        assert(s@.skip(n as int) =~= Seq::<char>::empty());
        assert(out@ + replace_all(s@.skip(n as int), pat@, rep@) =~= out@);
    }
    out
}

/// The closing head tag, the anchor both stampers splice at.
pub open spec fn head_close() -> Seq<char> {
    seq!['<', '/', 'h', 'e', 'a', 'd', '>']
}

fn head_close_vec() -> (r: Vec<char>)
    ensures
        r@ == head_close(),
{
    let mut r: Vec<char> = Vec::new();
    r.push('<');
    r.push('/');
    r.push('h');
    r.push('e');
    r.push('a');
    r.push('d');
    r.push('>');
    proof {
        assert(r@ =~= head_close());
    }
    r
}

/// The syndication link block put in place of a closing head tag: the
/// feed address is the site address with the feed file appended.
pub open spec fn rss_meta_block(url: Seq<char>, title: Seq<char>) -> Seq<char> {
    "\n      <link rel=\"alternate\"\n        type=\"application/rss+xml\"\n        href=\""@ + url
        + "/feed.xml\"\n        title=\""@ + title + "\">\n    </head>"@
}

/// Stamps a syndication link onto a page: every closing head tag is
/// replaced by a link block naming the site's feed address and `title`.
pub fn add_rss_meta(contents: &str, url: &str, title: &str) -> (r: String)
    ensures
        r@ == replace_all(contents@, head_close(), rss_meta_block(url@, title@)),
{
    let cs = chars_of(contents);
    let pat = head_close_vec();
    let mut rep = chars_of("\n      <link rel=\"alternate\"\n        type=\"application/rss+xml\"\n        href=\"");
    let mut uc = chars_of(url);
    rep.append(&mut uc);
    let mut fx = chars_of("/feed.xml\"\n        title=\"");
    rep.append(&mut fx);
    let mut tc = chars_of(title);
    rep.append(&mut tc);
    let mut cl = chars_of("\">\n    </head>");
    rep.append(&mut cl);
    proof {
        assert(rep@ =~= rss_meta_block(url@, title@));
    }
    let out = replace_all_chars(&cs, &pat, &rep);
    string_from_chars(&out)
}

/// The social-preview block put in place of a closing head tag: the
/// document's title, the page and image addresses, the body cut to the
/// preview length, and the site name.
pub open spec fn og_meta_block(
    doc: MdInfoV,
    url: Seq<char>,
    og_image_url: Seq<char>,
    site_name: Seq<char>,
) -> Seq<char> {
    "\n            <meta property=\"og:title\" content=\""@ + doc.title
        + "\" />\n            <meta property=\"og:type\" content=\"article\" />\n            <meta property=\"og:url\" content=\""@
        + url + "\" />\n            <meta property=\"og:image\" content=\""@ + og_image_url
        + "\" />\n            <meta property=\"og:description\" content=\""@ + truncate_spec(
        doc.content,
        80,
    ) + "\" />\n            <meta property=\"og:site_name\" content=\""@ + site_name
        + "\" />\n        </head>\n    "@
}

/// Stamps a rendered document page with its social-preview block: every
/// closing head tag is replaced by the block built from the document's
/// record, the page's address, the preview image and the site name.
pub fn add_meta_to_post_html(
    html: String,
    c: &MdInfo,
    url: &str,
    og_image_url: &str,
    site_name: &str,
) -> (r: String)
    ensures
        r@ == replace_all(html@, head_close(), og_meta_block(c@, url@, og_image_url@, site_name@)),
{
    let descr = truncate_content(c.content.as_str(), 80);
    let cs = chars_of(html.as_str());
    let pat = head_close_vec();
    let mut rep = chars_of("\n            <meta property=\"og:title\" content=\"");
    let mut p1 = chars_of(c.title.as_str());
    rep.append(&mut p1);
    let mut p2 = chars_of(
        "\" />\n            <meta property=\"og:type\" content=\"article\" />\n            <meta property=\"og:url\" content=\"",
    );
    rep.append(&mut p2);
    let mut p3 = chars_of(url);
    rep.append(&mut p3);
    let mut p4 = chars_of("\" />\n            <meta property=\"og:image\" content=\"");
    rep.append(&mut p4);
    let mut p5 = chars_of(og_image_url);
    rep.append(&mut p5);
    let mut p6 = chars_of("\" />\n            <meta property=\"og:description\" content=\"");
    rep.append(&mut p6);
    let mut p7 = chars_of(descr.as_str());
    rep.append(&mut p7);
    let mut p8 = chars_of("\" />\n            <meta property=\"og:site_name\" content=\"");
    rep.append(&mut p8);
    let mut p9 = chars_of(site_name);
    rep.append(&mut p9);
    let mut p10 = chars_of("\" />\n        </head>\n    ");
    rep.append(&mut p10);
    proof {
        assert(rep@ =~= og_meta_block(c@, url@, og_image_url@, site_name@));
    }
    let out = replace_all_chars(&cs, &pat, &rep);
    string_from_chars(&out)
}

} // verus!
