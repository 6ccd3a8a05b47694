//! Creating a new document: the file-safe name derived from a title, the
//! front-matter skeleton carrying the current date, and the call that
//! reads the clock.

use vstd::prelude::*;

use crate::date::{date_text, days_in_month, digit_char_exec, two_digits, Date};
use crate::frontmatter::open_mark;
use crate::text::{chars_of, string_from_chars};

verus! {

/// Whether a character counts as alphanumeric under the character
/// classification the standard library applies.
pub uninterp spec fn is_alnum_of(c: char) -> bool;

/// Relies on char::is_alphanumeric: the classification depends on the
/// character alone.
#[verifier::external_body]
fn char_alnum(c: char) -> (r: bool)
    ensures
        r == is_alnum_of(c),
{
    c.is_alphanumeric()
}

/// A title made file-safe: spaces become underscores, and everything that
/// is neither alphanumeric nor an underscore is dropped.
pub open spec fn file_safe(s: Seq<char>) -> Seq<char>
    decreases s.len(),
{
    if s.len() == 0 {
        Seq::empty()
    } else {
        let c = if s[0] == ' ' {
            '_'
        } else {
            s[0]
        };
        (if is_alnum_of(c) || c == '_' {
            seq![c]
        } else {
            Seq::<char>::empty()
        }) + file_safe(s.skip(1))
    }
}

fn file_safe_chars(s: &Vec<char>) -> (r: Vec<char>)
    ensures
        r@ == file_safe(s@),
{
    let n = s.len();
    let mut out: Vec<char> = Vec::new();
    let mut i: usize = 0;
    proof {
        assert(s@.skip(0) =~= s@);
        assert(out@ + file_safe(s@) =~= file_safe(s@));
    }
    while i < n
        invariant
            i <= n,
            n == s@.len(),
            file_safe(s@) == out@ + file_safe(s@.skip(i as int)),
        decreases n - i,
    {
        proof {
            assert(s@.skip(i as int)[0] == s@[i as int]);
            assert(s@.skip(i as int).skip(1) =~= s@.skip(i + 1));
        }
        let c = if s[i] == ' ' {
            '_'
        } else {
            s[i]
        };
        if char_alnum(c) || c == '_' {
            out.push(c);
        }
        i = i + 1;
    }
    proof {
        assert(s@.skip(n as int) =~= Seq::<char>::empty());
        assert(out@ + file_safe(s@.skip(n as int)) =~= out@);
    }
    out
}

/// The file name a new document gets: the date as two-digit year, month
/// and day joined by underscores, then the file-safe title, then the
/// document extension.
pub open spec fn post_file_name(title: Seq<char>, d: Date) -> Seq<char> {
    two_digits((d.year % 100) as u32) + seq!['_'] + two_digits(d.month) + seq!['_'] + two_digits(
        d.day,
    ) + seq!['_'] + file_safe(title) + seq!['.', 'm', 'd']
}

/// The front-matter skeleton a new document gets: the delimiter line, the
/// title and the date in its canonical rendering, the delimiter line
/// again, and no body.
pub open spec fn post_skeleton(title: Seq<char>, d: Date) -> Seq<char> {
    open_mark() + "title: "@ + title + seq!['\n'] + "date: "@ + date_text(d) + seq!['\n']
        + open_mark()
}

/// Plans a new document from its title and a date: the file name the
/// document gets, and the front-matter skeleton it starts with.
pub fn plan_post(post_name: &str, today: &Date) -> (r: (String, String))
    requires
        today.wf(),
    ensures
        r.0@ == post_file_name(post_name@, *today),
        r.1@ == post_skeleton(post_name@, *today),
{
    let cs = chars_of(post_name);
    let safe = file_safe_chars(&cs);
    let mut name: Vec<char> = Vec::new();
    name.push(digit_char_exec((today.year % 100) / 10));
    name.push(digit_char_exec((today.year % 100) % 10));
    name.push('_');
    name.push(digit_char_exec(today.month / 10 % 10));
    name.push(digit_char_exec(today.month % 10));
    name.push('_');
    name.push(digit_char_exec(today.day / 10 % 10));
    name.push(digit_char_exec(today.day % 10));
    name.push('_');
    let mut sc = crate::text::sub_vec(&safe, 0, safe.len());
    proof {
        assert(sc@ =~= safe@);
    }
    name.append(&mut sc);
    name.push('.');
    name.push('m');
    name.push('d');
    proof {
        assert(name@ =~= post_file_name(post_name@, *today));
    }
    let mut body: Vec<char> = Vec::new();
    let mut pieces = chars_of("---\ntitle: ");
    body.append(&mut pieces);
    let mut tc = chars_of(post_name);
    body.append(&mut tc);
    let mut dd = chars_of("\ndate: ");
    body.append(&mut dd);
    let mut dt = chars_of(crate::date::format_date(today).as_str());
    body.append(&mut dt);
    let mut tail = chars_of("\n---\n");
    body.append(&mut tail);
    proof {
        reveal_strlit("---\ntitle: ");
        reveal_strlit("\ndate: ");
        reveal_strlit("\n---\n");
        reveal_strlit("title: ");
        reveal_strlit("date: ");
        assert("title: "@.len() == 7 && "date: "@.len() == 6);
        assert("---\ntitle: "@.len() == 11 && "\ndate: "@.len() == 7 && "\n---\n"@.len() == 5);
        assert(body@ =~= post_skeleton(post_name@, *today));
    }
    (string_from_chars(&name), string_from_chars(&body))
}

/// Relies on chrono::Local::now and chrono::Datelike: the current local
/// calendar date as its year, month and day; the month and day ranges,
/// and the day's fit in its month, hold of every real date the clock can
/// yield.
#[verifier::external_body]
fn today_local() -> (r: (i32, u32, u32))
    ensures
        1 <= r.1 <= 12,
        1 <= r.2 <= 31,
        0 <= r.0 ==> r.2 <= days_in_month(r.0 as u32, r.1),
{
    let now = chrono::Local::now().date_naive();
    (chrono::Datelike::year(&now), chrono::Datelike::month(&now), chrono::Datelike::day(&now))
}

/// Plans a new document dated today: the file name and the front-matter
/// skeleton for some well-formed date — the one the clock gave. `None`
/// only when the clock's year falls outside the supported range.
pub fn plan_post_today(post_name: &str) -> (r: Option<(String, String)>)
    ensures
        r matches Some(p) ==> exists|d: Date|
            d.wf() && p.0@ == post_file_name(post_name@, d) && p.1@ == post_skeleton(
                post_name@,
                d,
            ),
{
    let (y, m, dd) = today_local();
    if y < 1 || y > 9999 {
        return None;
    }
    let today = Date { year: y as u32, month: m, day: dd };
    let planned = plan_post(post_name, &today);
    proof {
        let d0 = today;
        assert(d0.wf() && planned.0@ == post_file_name(post_name@, d0) && planned.1@
            == post_skeleton(post_name@, d0));
    }
    Some(planned)
}

} // verus!
