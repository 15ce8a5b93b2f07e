//! Calendar dates and the publication-date formats.
//!
//! A [`Date`] is a plain year, month and day.  Publication dates arrive as
//! text in one of three shapes, tried in a fixed priority order:
//!
//! 1. `Month Day, Year` — `July 16, 2019`
//! 2. `Year-Month-Day` — `2019-07-16`
//! 3. `Month, Day Year` — `July, 16 2019`
//!
//! Month names are the full English names, in any letter case.  The first
//! shape that matches wins, and the matched date must exist in the proleptic
//! Gregorian calendar.

use vstd::prelude::*;

use crate::strutil::digit_run;
use crate::strutil::digit_run_len;
use crate::strutil::is_digit;
use crate::strutil::lower;
use crate::strutil::lower_char;
use crate::strutil::run_val;
use crate::strutil::run_value;

verus! {

/// A calendar date.
#[derive(Copy, Clone, Debug, PartialEq, Eq, Hash, Structural)]
pub struct Date {
    pub year: u16,
    pub month: u8,
    pub day: u8,
}

/// The Gregorian leap-year rule.
pub open spec fn is_leap_year(y: int) -> bool {
    y % 4 == 0 && (y % 100 != 0 || y % 400 == 0)
}

/// How many days the given month of the given year has.
pub open spec fn days_in_month(y: int, m: int) -> int {
    if m == 2 {
        if is_leap_year(y) {
            29
        } else {
            28
        }
    } else if m == 4 || m == 6 || m == 9 || m == 11 {
        30
    } else {
        31
    }
}

impl Date {
    /// A date that exists in the calendar, with a four-digit year.
    pub open spec fn wf(self) -> bool {
        &&& self.year <= 9999
        &&& 1 <= self.month <= 12
        &&& 1 <= self.day <= days_in_month(self.year as int, self.month as int)
    }
}

/// Whether `name` (given in lower case) stands at position `i`, compared
/// without regard to letter case.
pub open spec fn name_at(s: Seq<char>, i: int, name: Seq<char>) -> bool {
    &&& 0 <= i
    &&& i + name.len() <= s.len()
    &&& forall|j: int| 0 <= j < name.len() ==> lower_char(s[i + j]) == name[j]
}

/// The month whose full English name stands at position `i`, with the
/// name's length; `None` if no month name stands there.
pub open spec fn spec_month_at(s: Seq<char>, i: int) -> Option<(u8, int)> {
    if name_at(s, i, "january"@) {
        Some((1u8, "january"@.len() as int))
    } else if name_at(s, i, "february"@) {
        Some((2u8, "february"@.len() as int))
    } else if name_at(s, i, "march"@) {
        Some((3u8, "march"@.len() as int))
    } else if name_at(s, i, "april"@) {
        Some((4u8, "april"@.len() as int))
    } else if name_at(s, i, "may"@) {
        Some((5u8, "may"@.len() as int))
    } else if name_at(s, i, "june"@) {
        Some((6u8, "june"@.len() as int))
    } else if name_at(s, i, "july"@) {
        Some((7u8, "july"@.len() as int))
    } else if name_at(s, i, "august"@) {
        Some((8u8, "august"@.len() as int))
    } else if name_at(s, i, "september"@) {
        Some((9u8, "september"@.len() as int))
    } else if name_at(s, i, "october"@) {
        Some((10u8, "october"@.len() as int))
    } else if name_at(s, i, "november"@) {
        Some((11u8, "november"@.len() as int))
    } else if name_at(s, i, "december"@) {
        Some((12u8, "december"@.len() as int))
    } else {
        None
    }
}

/// The date named by year, month and day values, provided it exists in the
/// calendar and the year has at most four digits.
pub open spec fn checked_date(y: int, m: int, d: int) -> Option<Date> {
    if 0 <= y <= 9999 && 1 <= m <= 12 && 1 <= d <= days_in_month(y, m) {
        Some(Date { year: y as u16, month: m as u8, day: d as u8 })
    } else {
        None
    }
}

/// `Year-Month-Day`: four year digits, a hyphen, one or two month digits, a
/// hyphen, one or two day digits, nothing more.
pub open spec fn spec_parse_ymd(s: Seq<char>) -> Option<Date> {
    let ly = digit_run_len(s, 0);
    if ly == 4 && 4 < s.len() && s[4] == '-' {
        let lm = digit_run_len(s, 5);
        if 1 <= lm <= 2 && 5 + lm < s.len() && s[5 + lm] == '-' {
            let ld = digit_run_len(s, 6 + lm);
            if 1 <= ld <= 2 && 6 + lm + ld == s.len() {
                checked_date(run_value(s, 0, 4), run_value(s, 5, lm), run_value(s, 6 + lm, ld))
            } else {
                None
            }
        } else {
            None
        }
    } else {
        None
    }
}

/// `Month Day, Year`: a month name, a space, one or two day digits, a comma,
/// a space, four year digits, nothing more.
pub open spec fn spec_parse_mdy(s: Seq<char>) -> Option<Date> {
    match spec_month_at(s, 0) {
        Some((m, nl)) => if nl < s.len() && s[nl] == ' ' {
            let ld = digit_run_len(s, nl + 1);
            if 1 <= ld <= 2 && nl + 1 + ld < s.len() && s[nl + 1 + ld] == ',' && nl + 2 + ld
                < s.len() && s[nl + 2 + ld] == ' ' && digit_run_len(s, nl + 3 + ld) == 4 && nl + 3
                + ld + 4 == s.len() {
                checked_date(run_value(s, nl + 3 + ld, 4), m as int, run_value(s, nl + 1, ld))
            } else {
                None
            }
        } else {
            None
        },
        None => None,
    }
}

/// `Month, Day Year`: a month name, a comma, a space, one or two day digits,
/// a space, four year digits, nothing more.
pub open spec fn spec_parse_mdy_comma(s: Seq<char>) -> Option<Date> {
    match spec_month_at(s, 0) {
        Some((m, nl)) => if nl + 1 < s.len() && s[nl] == ',' && s[nl + 1] == ' ' {
            let ld = digit_run_len(s, nl + 2);
            if 1 <= ld <= 2 && nl + 2 + ld < s.len() && s[nl + 2 + ld] == ' ' && digit_run_len(
                s,
                nl + 3 + ld,
            ) == 4 && nl + 3 + ld + 4 == s.len() {
                checked_date(run_value(s, nl + 3 + ld, 4), m as int, run_value(s, nl + 2, ld))
            } else {
                None
            }
        } else {
            None
        },
        None => None,
    }
}

/// What parsing a publication date yields: the first matching format wins.
pub open spec fn spec_parse_date(s: Seq<char>) -> Option<Date> {
    if spec_parse_mdy(s) is Some {
        spec_parse_mdy(s)
    } else if spec_parse_ymd(s) is Some {
        spec_parse_ymd(s)
    } else {
        spec_parse_mdy_comma(s)
    }
}

/// Whether `name` (a lower-case literal) stands at `i`, and then its length.
fn name_len_at(chars: &Vec<char>, i: usize, name: &str) -> (r: Option<usize>)
    requires
        i <= chars@.len(),
    ensures
        match r {
            Some(l) => name_at(chars@, i as int, name@) && l == name@.len(),
            None => !name_at(chars@, i as int, name@),
        },
{
    let nm = crate::strutil::str_to_chars(name);
    if nm.len() > chars.len() - i {
        return None;
    }
    let k = nm.len();
    let n = chars.len();
    for j in 0..k
        invariant
            k == nm@.len(),
            nm@ == name@,
            n == chars@.len(),
            i + k <= chars@.len(),
            forall|j2: int| 0 <= j2 < j ==> lower_char(chars@[i + j2]) == nm@[j2],
    {
        if lower(chars[i + j]) != nm[j] {
            return None;
        }
    }
    Some(k)
}

/// The month whose full English name stands at `i`, with the name's length.
fn month_at(chars: &Vec<char>, i: usize) -> (r: Option<(u8, usize)>)
    requires
        i <= chars@.len(),
    ensures
        match r {
            Some((m, l)) => spec_month_at(chars@, i as int) == Some((m, l as int)),
            None => spec_month_at(chars@, i as int) is None,
        },
{
    if let Some(l) = name_len_at(chars, i, "january") {
        return Some((1, l));
    }
    if let Some(l) = name_len_at(chars, i, "february") {
        return Some((2, l));
    }
    if let Some(l) = name_len_at(chars, i, "march") {
        return Some((3, l));
    }
    if let Some(l) = name_len_at(chars, i, "april") {
        return Some((4, l));
    }
    if let Some(l) = name_len_at(chars, i, "may") {
        return Some((5, l));
    }
    if let Some(l) = name_len_at(chars, i, "june") {
        return Some((6, l));
    }
    if let Some(l) = name_len_at(chars, i, "july") {
        return Some((7, l));
    }
    if let Some(l) = name_len_at(chars, i, "august") {
        return Some((8, l));
    }
    if let Some(l) = name_len_at(chars, i, "september") {
        return Some((9, l));
    }
    if let Some(l) = name_len_at(chars, i, "october") {
        return Some((10, l));
    }
    if let Some(l) = name_len_at(chars, i, "november") {
        return Some((11, l));
    }
    if let Some(l) = name_len_at(chars, i, "december") {
        return Some((12, l));
    }
    None
}

/// The date named by the given values, when the calendar has it.
fn make_date(y: u32, m: u32, d: u32) -> (r: Option<Date>)
    ensures
        r == checked_date(y as int, m as int, d as int),
        r is Some ==> r.unwrap().wf(),
{
    if y > 9999 || m < 1 || m > 12 {
        return None;
    }
    let leap: bool = y % 4 == 0 && (y % 100 != 0 || y % 400 == 0);
    let limit: u32 = if m == 2 {
        if leap {
            29
        } else {
            28
        }
    } else if m == 4 || m == 6 || m == 9 || m == 11 {
        30
    } else {
        31
    };
    if 1 <= d && d <= limit {
        Some(Date { year: y as u16, month: m as u8, day: d as u8 })
    } else {
        None
    }
}

/// `Year-Month-Day`, executably.
fn try_ymd(chars: &Vec<char>) -> (r: Option<Date>)
    ensures
        r == spec_parse_ymd(chars@),
        r is Some ==> r.unwrap().wf(),
{
    let ly = digit_run(chars, 0);
    if !(ly == 4 && 4 < chars.len() && chars[4] == '-') {
        return None;
    }
    let lm = digit_run(chars, 5);
    if !(1 <= lm && lm <= 2 && 5 + lm < chars.len() && chars[5 + lm] == '-') {
        return None;
    }
    let ld = digit_run(chars, 6 + lm);
    if !(1 <= ld && ld <= 2 && 6 + lm + ld == chars.len()) {
        return None;
    }
    let y = run_val(chars, 0, 4);
    let m = run_val(chars, 5, lm);
    let d = run_val(chars, 6 + lm, ld);
    make_date(y, m, d)
}

/// `Month Day, Year`, executably.
fn try_mdy(chars: &Vec<char>) -> (r: Option<Date>)
    ensures
        r == spec_parse_mdy(chars@),
        r is Some ==> r.unwrap().wf(),
{
    let (m, nl) = match month_at(chars, 0) {
        Some(p) => p,
        None => {
            return None;
        },
    };
    if !(nl < chars.len() && chars[nl] == ' ') {
        return None;
    }
    let ld = digit_run(chars, nl + 1);
    if !(1 <= ld && ld <= 2 && nl + 1 + ld < chars.len() && chars[nl + 1 + ld] == ',') {
        return None;
    }
    if !(nl + 2 + ld < chars.len() && chars[nl + 2 + ld] == ' ') {
        return None;
    }
    if !(digit_run(chars, nl + 3 + ld) == 4 && nl + 3 + ld + 4 == chars.len()) {
        return None;
    }
    let y = run_val(chars, nl + 3 + ld, 4);
    let d = run_val(chars, nl + 1, ld);
    make_date(y, m as u32, d)
}

/// `Month, Day Year`, executably.
fn try_mdy_comma(chars: &Vec<char>) -> (r: Option<Date>)
    ensures
        r == spec_parse_mdy_comma(chars@),
        r is Some ==> r.unwrap().wf(),
{
    let (m, nl) = match month_at(chars, 0) {
        Some(p) => p,
        None => {
            return None;
        },
    };
    if !(nl < chars.len() && chars[nl] == ',') {
        return None;
    }
    if !(nl + 1 < chars.len() && chars[nl + 1] == ' ') {
        return None;
    }
    let ld = digit_run(chars, nl + 2);
    if !(1 <= ld && ld <= 2 && nl + 2 + ld < chars.len() && chars[nl + 2 + ld] == ' ') {
        return None;
    }
    if !(digit_run(chars, nl + 3 + ld) == 4 && nl + 3 + ld + 4 == chars.len()) {
        return None;
    }
    let y = run_val(chars, nl + 3 + ld, 4);
    let d = run_val(chars, nl + 2, ld);
    make_date(y, m as u32, d)
}

/// Parses a publication date, trying the formats in priority order.
pub fn parse_date(s: &str) -> (r: Option<Date>)
    ensures
        r == spec_parse_date(s@),
        r is Some ==> r.unwrap().wf(),
{
    let chars = crate::strutil::str_to_chars(s);
    if let Some(d) = try_mdy(&chars) {
        return Some(d);
    }
    if let Some(d) = try_ymd(&chars) {
        return Some(d);
    }
    if let Some(d) = try_mdy_comma(&chars) {
        return Some(d);
    }
    None
}

impl Date {
    /// The `YYYY-MM-DD` text of the date, zero padded.
    pub fn to_ymd_string(&self) -> (r: String)
        ensures
            r@ == spec_date_string(*self),
    {
        let y = self.year as u32;
        let m = self.month as u32;
        let d = self.day as u32;
        let mut out: Vec<char> = Vec::new();
        out.push(((48 + ((y / 1000) % 10)) as u8) as char);
        out.push(((48 + ((y / 100) % 10)) as u8) as char);
        out.push(((48 + ((y / 10) % 10)) as u8) as char);
        out.push(((48 + (y % 10)) as u8) as char);
        out.push('-');
        out.push(((48 + ((m / 10) % 10)) as u8) as char);
        out.push(((48 + (m % 10)) as u8) as char);
        out.push('-');
        out.push(((48 + ((d / 10) % 10)) as u8) as char);
        out.push(((48 + (d % 10)) as u8) as char);
        proof {
            assert(out@ =~= spec_date_string(*self));
        }
        crate::strutil::chars_to_string(&out)
    }
}

/// The ten characters `YYYY-MM-DD` of a date, zero padded.
pub open spec fn spec_date_string(d: Date) -> Seq<char> {
    seq![
        (48 + ((d.year as int / 1000) % 10)) as char,
        (48 + ((d.year as int / 100) % 10)) as char,
        (48 + ((d.year as int / 10) % 10)) as char,
        (48 + (d.year as int % 10)) as char,
        '-',
        (48 + ((d.month as int / 10) % 10)) as char,
        (48 + (d.month as int % 10)) as char,
        '-',
        (48 + ((d.day as int / 10) % 10)) as char,
        (48 + (d.day as int % 10)) as char,
    ]
}

} // verus!
