//! Calendar dates: validity, weekday computation, the canonical
//! "full weekday, zero-padded day, full month, year" rendering, and the
//! front-matter date parser with its two accepted shapes.

use vstd::prelude::*;

use crate::text::{chars_of, find_char, find_char_from, string_from_chars, sub_vec};
use crate::store::str_eq;

verus! {

/// A calendar date of the Gregorian calendar, years 1 through 9999.
#[derive(Clone, Copy, PartialEq, Eq, Structural, Debug)]
pub struct Date {
    pub year: u32,
    pub month: u32,
    pub day: u32,
}

pub open spec fn is_leap_year(y: u32) -> bool {
    y % 4 == 0 && (y % 100 != 0 || y % 400 == 0)
}

pub open spec fn days_in_month(y: u32, m: u32) -> u32 {
    if m == 2 {
        if is_leap_year(y) {
            29
        } else {
            28
        }
    } else if m == 4 || m == 6 || m == 9 || m == 11 {
        30
    } else {
        31
    }
}

impl Date {
    /// A real calendar date within the supported year range.
    pub open spec fn wf(self) -> bool {
        &&& 1 <= self.year <= 9999
        &&& 1 <= self.month <= 12
        &&& 1 <= self.day <= days_in_month(self.year, self.month)
    }
}

/// `a` falls strictly earlier than `b`.
pub open spec fn date_before(a: Date, b: Date) -> bool {
    ||| a.year < b.year
    ||| (a.year == b.year && a.month < b.month)
    ||| (a.year == b.year && a.month == b.month && a.day < b.day)
}

pub fn date_lt(a: &Date, b: &Date) -> (r: bool)
    ensures
        r == date_before(*a, *b),
{
    a.year < b.year || (a.year == b.year && (a.month < b.month || (a.month == b.month && a.day
        < b.day)))
}

/// The month term of the day-of-week congruence.
pub open spec fn month_code(m: u32) -> int {
    if m == 1 {
        0
    } else if m == 2 {
        3
    } else if m == 3 {
        2
    } else if m == 4 {
        5
    } else if m == 5 {
        0
    } else if m == 6 {
        3
    } else if m == 7 {
        5
    } else if m == 8 {
        1
    } else if m == 9 {
        4
    } else if m == 10 {
        6
    } else if m == 11 {
        2
    } else {
        4
    }
}

/// Day of the week of a Gregorian date, 0 for Sunday through 6 for
/// Saturday, by the usual year-shift congruence.
pub open spec fn day_of_week(d: Date) -> int {
    let y: int = if d.month < 3 {
        d.year - 1
    } else {
        d.year as int
    };
    (y + y / 4 - y / 100 + y / 400 + month_code(d.month) + d.day) % 7
}

pub fn weekday_of(d: &Date) -> (w: u32)
    requires
        d.wf(),
    ensures
        w == day_of_week(*d),
        w < 7,
{
    let y: u32 = if d.month < 3 {
        d.year - 1
    } else {
        d.year
    };
    let code: u32 = if d.month == 1 {
        0
    } else if d.month == 2 {
        3
    } else if d.month == 3 {
        2
    } else if d.month == 4 {
        5
    } else if d.month == 5 {
        0
    } else if d.month == 6 {
        3
    } else if d.month == 7 {
        5
    } else if d.month == 8 {
        1
    } else if d.month == 9 {
        4
    } else if d.month == 10 {
        6
    } else if d.month == 11 {
        2
    } else {
        4
    };
    proof {
        vstd::arithmetic::div_mod::lemma_fundamental_div_mod(y as int, 4);
        vstd::arithmetic::div_mod::lemma_fundamental_div_mod(y as int, 100);
        vstd::arithmetic::div_mod::lemma_fundamental_div_mod(y as int, 400);
    }
    let q4: u32 = y / 4;
    let q100: u32 = y / 100;
    let q400: u32 = y / 400;
    let sum: u32 = y + q4 + q400 + code + d.day - q100;
    sum % 7
}

pub open spec fn weekday_name(w: int) -> Seq<char> {
    if w == 0 {
        "Sunday"@
    } else if w == 1 {
        "Monday"@
    } else if w == 2 {
        "Tuesday"@
    } else if w == 3 {
        "Wednesday"@
    } else if w == 4 {
        "Thursday"@
    } else if w == 5 {
        "Friday"@
    } else {
        "Saturday"@
    }
}

pub fn weekday_str(w: u32) -> (r: &'static str)
    requires
        w < 7,
    ensures
        r@ == weekday_name(w as int),
{
    if w == 0 {
        "Sunday"
    } else if w == 1 {
        "Monday"
    } else if w == 2 {
        "Tuesday"
    } else if w == 3 {
        "Wednesday"
    } else if w == 4 {
        "Thursday"
    } else if w == 5 {
        "Friday"
    } else {
        "Saturday"
    }
}

pub open spec fn month_name(m: u32) -> Seq<char> {
    if m == 1 {
        "January"@
    } else if m == 2 {
        "February"@
    } else if m == 3 {
        "March"@
    } else if m == 4 {
        "April"@
    } else if m == 5 {
        "May"@
    } else if m == 6 {
        "June"@
    } else if m == 7 {
        "July"@
    } else if m == 8 {
        "August"@
    } else if m == 9 {
        "September"@
    } else if m == 10 {
        "October"@
    } else if m == 11 {
        "November"@
    } else {
        "December"@
    }
}

pub fn month_str(m: u32) -> (r: &'static str)
    requires
        1 <= m <= 12,
    ensures
        r@ == month_name(m),
{
    if m == 1 {
        "January"
    } else if m == 2 {
        "February"
    } else if m == 3 {
        "March"
    } else if m == 4 {
        "April"
    } else if m == 5 {
        "May"
    } else if m == 6 {
        "June"
    } else if m == 7 {
        "July"
    } else if m == 8 {
        "August"
    } else if m == 9 {
        "September"
    } else if m == 10 {
        "October"
    } else if m == 11 {
        "November"
    } else {
        "December"
    }
}

pub open spec fn digit_char(v: int) -> char {
    if v == 0 {
        '0'
    } else if v == 1 {
        '1'
    } else if v == 2 {
        '2'
    } else if v == 3 {
        '3'
    } else if v == 4 {
        '4'
    } else if v == 5 {
        '5'
    } else if v == 6 {
        '6'
    } else if v == 7 {
        '7'
    } else if v == 8 {
        '8'
    } else {
        '9'
    }
}

pub fn digit_char_exec(v: u32) -> (c: char)
    requires
        v < 10,
    ensures
        c == digit_char(v as int),
{
    if v == 0 {
        '0'
    } else if v == 1 {
        '1'
    } else if v == 2 {
        '2'
    } else if v == 3 {
        '3'
    } else if v == 4 {
        '4'
    } else if v == 5 {
        '5'
    } else if v == 6 {
        '6'
    } else if v == 7 {
        '7'
    } else if v == 8 {
        '8'
    } else {
        '9'
    }
}

/// `n` rendered as exactly two decimal digits, zero-padded.
pub open spec fn two_digits(n: u32) -> Seq<char> {
    seq![digit_char((n as int / 10) % 10), digit_char(n as int % 10)]
}

/// `n` rendered as exactly four decimal digits, zero-padded.
pub open spec fn four_digits(n: u32) -> Seq<char> {
    seq![
        digit_char((n as int / 1000) % 10),
        digit_char((n as int / 100) % 10),
        digit_char((n as int / 10) % 10),
        digit_char(n as int % 10),
    ]
}

/// The canonical rendering of a date: full weekday name, zero-padded
/// two-digit day, full month name, four-digit year, single spaces between.
pub open spec fn date_text(d: Date) -> Seq<char> {
    weekday_name(day_of_week(d)) + seq![' '] + two_digits(d.day) + seq![' '] + month_name(d.month)
        + seq![' '] + four_digits(d.year)
}

/// Renders a date in the canonical feed shape, e.g. a date in September
/// 2025 becomes "Tuesday 16 September 2025" with the day zero-padded.
pub fn format_date(d: &Date) -> (r: String)
    requires
        d.wf(),
    ensures
        r@ == date_text(*d),
{
    let w = weekday_of(d);
    let mut out: Vec<char> = Vec::new();
    let mut wn = chars_of(weekday_str(w));
    out.append(&mut wn);
    out.push(' ');
    out.push(digit_char_exec(d.day / 10 % 10));
    out.push(digit_char_exec(d.day % 10));
    out.push(' ');
    let mut mn = chars_of(month_str(d.month));
    out.append(&mut mn);
    out.push(' ');
    out.push(digit_char_exec(d.year / 1000 % 10));
    out.push(digit_char_exec(d.year / 100 % 10));
    out.push(digit_char_exec(d.year / 10 % 10));
    out.push(digit_char_exec(d.year % 10));
    proof {
        assert(out@ =~= date_text(*d));
    }
    string_from_chars(&out)
}

/// The weekday index named by `t`, if `t` is exactly a full weekday name.
pub open spec fn weekday_of_name(t: Seq<char>) -> Option<int> {
    if t == "Sunday"@ {
        Some(0int)
    } else if t == "Monday"@ {
        Some(1int)
    } else if t == "Tuesday"@ {
        Some(2int)
    } else if t == "Wednesday"@ {
        Some(3int)
    } else if t == "Thursday"@ {
        Some(4int)
    } else if t == "Friday"@ {
        Some(5int)
    } else if t == "Saturday"@ {
        Some(6int)
    } else {
        None
    }
}

fn weekday_lookup(t: &str) -> (r: Option<u32>)
    ensures
        match r {
            Some(v) => weekday_of_name(t@) == Some(v as int) && v < 7,
            None => weekday_of_name(t@) is None,
        },
{
    if str_eq(t, "Sunday") {
        Some(0)
    } else if str_eq(t, "Monday") {
        Some(1)
    } else if str_eq(t, "Tuesday") {
        Some(2)
    } else if str_eq(t, "Wednesday") {
        Some(3)
    } else if str_eq(t, "Thursday") {
        Some(4)
    } else if str_eq(t, "Friday") {
        Some(5)
    } else if str_eq(t, "Saturday") {
        Some(6)
    } else {
        None
    }
}

/// The month number named by `t`, if `t` is exactly a full month name.
pub open spec fn month_of_name(t: Seq<char>) -> Option<int> {
    if t == "January"@ {
        Some(1int)
    } else if t == "February"@ {
        Some(2int)
    } else if t == "March"@ {
        Some(3int)
    } else if t == "April"@ {
        Some(4int)
    } else if t == "May"@ {
        Some(5int)
    } else if t == "June"@ {
        Some(6int)
    } else if t == "July"@ {
        Some(7int)
    } else if t == "August"@ {
        Some(8int)
    } else if t == "September"@ {
        Some(9int)
    } else if t == "October"@ {
        Some(10int)
    } else if t == "November"@ {
        Some(11int)
    } else if t == "December"@ {
        Some(12int)
    } else {
        None
    }
}

fn month_lookup(t: &str) -> (r: Option<u32>)
    ensures
        match r {
            Some(v) => month_of_name(t@) == Some(v as int) && 1 <= v <= 12,
            None => month_of_name(t@) is None,
        },
{
    if str_eq(t, "January") {
        Some(1)
    } else if str_eq(t, "February") {
        Some(2)
    } else if str_eq(t, "March") {
        Some(3)
    } else if str_eq(t, "April") {
        Some(4)
    } else if str_eq(t, "May") {
        Some(5)
    } else if str_eq(t, "June") {
        Some(6)
    } else if str_eq(t, "July") {
        Some(7)
    } else if str_eq(t, "August") {
        Some(8)
    } else if str_eq(t, "September") {
        Some(9)
    } else if str_eq(t, "October") {
        Some(10)
    } else if str_eq(t, "November") {
        Some(11)
    } else if str_eq(t, "December") {
        Some(12)
    } else {
        None
    }
}

pub open spec fn is_digit(c: char) -> bool {
    48 <= c as u32 <= 57
}

pub open spec fn digit_val(c: char) -> int {
    c as u32 - 48
}

pub open spec fn all_digits(t: Seq<char>) -> bool {
    forall|k: int| 0 <= k < t.len() ==> is_digit(t[k])
}

/// The decimal value of a digit string, most significant digit first.
pub open spec fn digits_val(t: Seq<char>) -> int
    decreases t.len(),
{
    if t.len() == 0 {
        0
    } else {
        digits_val(t.drop_last()) * 10 + digit_val(t.last())
    }
}

/// A number of 1 to `maxlen` decimal digits.
pub open spec fn parse_num(t: Seq<char>, maxlen: int) -> Option<int> {
    if 1 <= t.len() <= maxlen && all_digits(t) {
        Some(digits_val(t))
    } else {
        None
    }
}

spec fn pow10(n: nat) -> int
    decreases n,
{
    if n == 0 {
        1
    } else {
        10 * pow10((n - 1) as nat)
    }
}

proof fn lemma_digits_val_range(t: Seq<char>)
    requires
        all_digits(t),
    ensures
        0 <= digits_val(t) < pow10(t.len()),
    decreases t.len(),
{
    if t.len() > 0 {
        assert(all_digits(t.drop_last())) by {
            assert(forall|k: int|
                0 <= k < t.drop_last().len() ==> t.drop_last()[k] == t[k] && is_digit(t[k]));
        }
        lemma_digits_val_range(t.drop_last());
        assert(is_digit(t.last()));
    }
}

proof fn lemma_digits_val_bound(t: Seq<char>)
    requires
        all_digits(t),
        t.len() <= 4,
    ensures
        0 <= digits_val(t) <= 9999,
{
    lemma_digits_val_range(t);
    reveal_with_fuel(pow10, 5);
    assert(pow10(4) == 10000);
}

fn parse_num_exec(t: &Vec<char>, maxlen: usize) -> (r: Option<u32>)
    requires
        1 <= maxlen <= 4,
    ensures
        match r {
            Some(v) => parse_num(t@, maxlen as int) == Some(v as int) && v <= 9999,
            None => parse_num(t@, maxlen as int) is None,
        },
{
    let len = t.len();
    if len < 1 || len > maxlen {
        return None;
    }
    let mut v: u32 = 0;
    let mut i: usize = 0;
    while i < len
        invariant
            i <= len,
            len == t@.len(),
            1 <= len <= 4,
            all_digits(t@.take(i as int)),
            v == digits_val(t@.take(i as int)),
            v <= 9999,
        decreases len - i,
    {
        let u = t[i] as u32;
        if u < 48 || u > 57 {
            proof {
                assert(!is_digit(t@[i as int]));
            }
            return None;
        }
        proof {
            assert(t@.take(i + 1).drop_last() =~= t@.take(i as int));
            assert(all_digits(t@.take(i + 1))) by {
                assert(forall|k: int|
                    0 <= k < i + 1 ==> t@.take(i + 1)[k] == t@[k]);
            }
            lemma_digits_val_bound(t@.take(i + 1));
        }
        v = v * 10 + (u - 48);
        i = i + 1;
    }
    proof {
        assert(t@.take(len as int) =~= t@);
    }
    Some(v)
}

/// Splits at every single space from position `from` on; empty pieces are
/// kept, so consecutive spaces yield empty tokens.
pub open spec fn split_sp_from(s: Seq<char>, from: int) -> Seq<Seq<char>>
    decreases s.len() - from,
{
    if from < 0 {
        Seq::empty()
    } else {
        match find_char_from(s, ' ', from) {
            None => seq![s.subrange(from, s.len() as int)],
            Some(i) => if from <= i < s.len() {
                seq![s.subrange(from, i)] + split_sp_from(s, i + 1)
            } else {
                Seq::empty()
            },
        }
    }
}

/// Splits `cs` at each space character.
pub fn split_spaces(cs: &Vec<char>) -> (toks: Vec<Vec<char>>)
    ensures
        toks@.map_values(|t: Vec<char>| t@) == split_sp_from(cs@, 0),
{
    let n = cs.len();
    let mut toks: Vec<Vec<char>> = Vec::new();
    let mut pos: usize = 0;
    let mut done = false;
    proof {
        assert(toks@.map_values(|t: Vec<char>| t@) + split_sp_from(cs@, 0) =~= split_sp_from(
            cs@,
            0,
        ));
    }
    while !done
        invariant
            pos <= n,
            n == cs@.len(),
            !done ==> split_sp_from(cs@, 0) == toks@.map_values(|t: Vec<char>| t@)
                + split_sp_from(cs@, pos as int),
            done ==> toks@.map_values(|t: Vec<char>| t@) == split_sp_from(cs@, 0),
        decreases n - pos + (if done { 0int } else { 1int }),
    {
        match find_char(cs, ' ', pos) {
            None => {
                let tok = sub_vec(cs, pos, n);
                proof {
                    assert((toks@.push(tok)).map_values(|t: Vec<char>| t@) =~= toks@.map_values(
                        |t: Vec<char>| t@,
                    ).push(tok@));
                    assert(toks@.map_values(|t: Vec<char>| t@).push(cs@.subrange(pos as int, n as int))
                        =~= toks@.map_values(|t: Vec<char>| t@) + split_sp_from(cs@, pos as int));
                }
                toks.push(tok);
                done = true;
            },
            Some(i) => {
                let tok = sub_vec(cs, pos, i);
                proof {
                    assert((toks@.push(tok)).map_values(|t: Vec<char>| t@) =~= toks@.map_values(
                        |t: Vec<char>| t@,
                    ).push(tok@));
                    assert(toks@.map_values(|t: Vec<char>| t@).push(cs@.subrange(pos as int, i as int))
                        + split_sp_from(cs@, i + 1) =~= toks@.map_values(|t: Vec<char>| t@)
                        + split_sp_from(cs@, pos as int));
                }
                toks.push(tok);
                pos = i + 1;
            },
        }
    }
    toks
}

/// The short date shape: day, month name, year.
pub open spec fn parse_date_short(t1: Seq<char>, t2: Seq<char>, t3: Seq<char>) -> Option<Date> {
    let dd = parse_num(t1, 2);
    let mm = month_of_name(t2);
    let yy = parse_num(t3, 4);
    if dd is Some && mm is Some && yy is Some {
        let date = Date { year: yy->0 as u32, month: mm->0 as u32, day: dd->0 as u32 };
        if date.wf() {
            Some(date)
        } else {
            None
        }
    } else {
        None
    }
}

/// The full date shape: weekday name, day, month name, year; the weekday
/// must agree with the date it names.
pub open spec fn parse_date_full(
    t0: Seq<char>,
    t1: Seq<char>,
    t2: Seq<char>,
    t3: Seq<char>,
) -> Option<Date> {
    let w = weekday_of_name(t0);
    let d = parse_date_short(t1, t2, t3);
    if w is Some && d is Some && day_of_week(d->0) == w->0 {
        d
    } else {
        None
    }
}

/// A date as front matter writes it: first the full shape with the weekday
/// name, otherwise the short shape without it; anything else is rejected.
pub open spec fn parse_date_spec(s: Seq<char>) -> Option<Date> {
    let toks = split_sp_from(s, 0);
    if toks.len() == 4 {
        parse_date_full(toks[0], toks[1], toks[2], toks[3])
    } else if toks.len() == 3 {
        parse_date_short(toks[0], toks[1], toks[2])
    } else {
        None
    }
}

fn parse_short_exec(t1: &Vec<char>, t2: &Vec<char>, t3: &Vec<char>) -> (r: Option<Date>)
    ensures
        r == parse_date_short(t1@, t2@, t3@),
{
    let dd = parse_num_exec(t1, 2);
    let m2 = string_from_chars(t2);
    let mm = month_lookup(m2.as_str());
    let yy = parse_num_exec(t3, 4);
    match (dd, mm, yy) {
        (Some(dv), Some(mv), Some(yv)) => {
            let date = Date { year: yv, month: mv, day: dv };
            if date.year >= 1 && date.day >= 1 && date.day <= days_in_month_exec(date.year, date.month) {
                Some(date)
            } else {
                None
            }
        },
        _ => None,
    }
}

fn days_in_month_exec(y: u32, m: u32) -> (r: u32)
    ensures
        r == days_in_month(y, m),
{
    if m == 2 {
        if y % 4 == 0 && (y % 100 != 0 || y % 400 == 0) {
            29
        } else {
            28
        }
    } else if m == 4 || m == 6 || m == 9 || m == 11 {
        30
    } else {
        31
    }
}

/// Parses a front-matter date. The full shape carries the weekday name,
/// e.g. "Tuesday 16 September 2025"; the short shape omits it.
pub fn parse_date(s: &str) -> (r: Option<Date>)
    ensures
        r == parse_date_spec(s@),
        r matches Some(d) ==> d.wf(),
{
    let cs = chars_of(s);
    let toks = split_spaces(&cs);
    let ghost tv = toks@.map_values(|t: Vec<char>| t@);
    if toks.len() == 4 {
        proof {
            assert(tv[0] == toks@[0]@ && tv[1] == toks@[1]@ && tv[2] == toks@[2]@ && tv[3]
                == toks@[3]@);
        }
        let t0 = string_from_chars(&toks[0]);
        let w = weekday_lookup(t0.as_str());
        let d = parse_short_exec(&toks[1], &toks[2], &toks[3]);
        match (w, d) {
            (Some(wv), Some(dv)) => {
                if weekday_of(&dv) == wv {
                    Some(dv)
                } else {
                    None
                }
            },
            _ => None,
        }
    } else if toks.len() == 3 {
        proof {
            assert(tv[0] == toks@[0]@ && tv[1] == toks@[1]@ && tv[2] == toks@[2]@);
        }
        parse_short_exec(&toks[0], &toks[1], &toks[2])
    } else {
        None
    }
}

} // verus!
