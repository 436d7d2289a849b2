//! Wikidata timestamps: parsing, a total order, and the "currently active"
//! test on a claim's start and end qualifiers.

use vstd::prelude::*;
use chrono::{Datelike, Timelike};
use vstd::string::StringExecFns;
use vstd::arithmetic::div_mod::{lemma_fundamental_div_mod, lemma_fundamental_div_mod_converse};
use crate::json::{Json, deref_json, field, element, text, number, get, at, text_of, number_of};
use crate::text::{
    index_of, before, after, parse_i32_spec, parse_u16_spec, chars_of, find_char,
    parse_i32_range, parse_u16_range, str_eq, padded, push_padded, all_digits, digits_only,
};

verus! {

#[derive(Debug, Clone, Copy, PartialEq, Eq, Structural)]
pub enum TimeParseError {
    NoDate,
    NoTime,
    DateTooShort,
    NoDateDash,
    InvalidTime,
    ParseInt,
}

/// A point in time. `month` and `day` count from zero; a parsed time keeps
/// months of 31 days, which orders instants without a calendar.
#[derive(Debug, Clone, Copy, PartialEq, Eq, Structural, PartialOrd, Ord, Hash)]
pub struct WikiTime {
    pub year: i32,
    pub month: u16,
    pub day: u16,
    pub hour: u16,
    pub minute: u16,
    pub second: u16,
}

/// The seconds from year zero to `t`, with 12 months of 31 days a year.
pub open spec fn instant(t: WikiTime) -> int {
    ((((t.year as int * 12 + t.month as int) * 31 + t.day as int) * 24 + t.hour as int) * 60
        + t.minute as int) * 60 + t.second as int
}

/// `t` moved by `secs` seconds, each field carried into the next larger one;
/// none where the year leaves the range of `i32`.
pub open spec fn shifted(t: WikiTime, secs: int) -> Option<WikiTime> {
    let n = instant(t) + secs;
    let n1 = n / 60;
    let n2 = n1 / 60;
    let n3 = n2 / 24;
    let n4 = n3 / 31;
    let y = n4 / 12;
    if i32::MIN <= y <= i32::MAX {
        Some(
            WikiTime {
                year: y as i32,
                month: (n4 % 12) as u16,
                day: (n3 % 31) as u16,
                hour: (n2 % 24) as u16,
                minute: (n1 % 60) as u16,
                second: (n % 60) as u16,
            },
        )
    } else {
        None
    }
}

/// Whether every field lies in its range.
pub open spec fn normal(t: WikiTime) -> bool {
    t.month < 12 && t.day < 31 && t.hour < 24 && t.minute < 60 && t.second < 60
}

/// `a` comes strictly before `b`, field by field from the year down.
pub open spec fn time_lt(a: WikiTime, b: WikiTime) -> bool {
    if a.year != b.year {
        a.year < b.year
    } else if a.month != b.month {
        a.month < b.month
    } else if a.day != b.day {
        a.day < b.day
    } else if a.hour != b.hour {
        a.hour < b.hour
    } else if a.minute != b.minute {
        a.minute < b.minute
    } else {
        a.second < b.second
    }
}

/// One less, but not below zero: Wikidata writes an unknown month or day as 0.
pub open spec fn from_one(x: u16) -> u16 {
    if x == 0 { 0 } else { (x - 1) as u16 }
}

/// What `parse_wikidata_time` reads from `s` with a zone offset of `zone`
/// minutes.
pub open spec fn parse_time_spec(s: Seq<char>, zone: int) -> Result<WikiTime, TimeParseError> {
    let t = index_of(s, 'T');
    if t == s.len() {
        Err(TimeParseError::NoTime)
    } else {
        let date = s.subrange(0, t);
        let time = before(s.subrange(t + 1, s.len() as int), 'T');
        let body = if time.len() > 0 { time.drop_last() } else { time };
        let k = 1 + index_of(date.drop_first(), '-');
        if date.len() == 0 || k == date.len() {
            Err(TimeParseError::NoDateDash)
        } else if date.len() < k + 4 {
            Err(TimeParseError::DateTooShort)
        } else {
            match parse_i32_spec(date.subrange(0, k)) {
                None => Err(TimeParseError::ParseInt),
                Some(year) => match parse_u16_spec(date.subrange(k + 1, k + 3)) {
                    None => Err(TimeParseError::ParseInt),
                    Some(month) => match parse_u16_spec(date.subrange(k + 4, date.len() as int)) {
                        None => Err(TimeParseError::ParseInt),
                        Some(day) => time_fields_spec(body, year, from_one(month), from_one(day), zone),
                    },
                },
            }
        }
    }
}

/// The rest of `parse_time_spec`: `body` is the time half without its last
/// character.
pub open spec fn time_fields_spec(body: Seq<char>, year: i32, month: u16, day: u16, zone: int) -> Result<WikiTime, TimeParseError> {
    match parse_u16_spec(before(body, ':')) {
        None => Err(TimeParseError::ParseInt),
        Some(hour) => if index_of(body, ':') == body.len() {
            Err(TimeParseError::InvalidTime)
        } else {
            let r1 = after(body, ':');
            match parse_u16_spec(before(r1, ':')) {
                None => Err(TimeParseError::ParseInt),
                Some(minute) => if index_of(r1, ':') == r1.len() {
                    Err(TimeParseError::InvalidTime)
                } else {
                    match parse_u16_spec(before(after(r1, ':'), ':')) {
                        None => Err(TimeParseError::ParseInt),
                        Some(second) => match shifted(
                            WikiTime { year, month, day, hour, minute, second },
                            zone * 60,
                        ) {
                            Some(w) => Ok(w),
                            None => Err(TimeParseError::InvalidTime),
                        },
                    }
                },
            }
        },
    }
}

/// `n` divided by `d`, rounded down, and the remainder.
fn floor_div_mod(n: i128, d: i128) -> (r: (i128, i128))
    requires
        0 < d <= 60,
        -0x1_0000_0000_0000_0000_0000 < n < 0x1_0000_0000_0000_0000_0000,
    ensures
        r.0 == n / d,
        r.1 == n % d,
{
    let du = d as u128;
    if n >= 0 {
        let m = n as u128;
        let q = m / du;
        let rem = m % du;
        proof {
            lemma_fundamental_div_mod(m as int, d as int);
            lemma_fundamental_div_mod_converse(n as int, d as int, q as int, rem as int);
        }
        (q as i128, rem as i128)
    } else {
        let m = (0 - n) as u128;
        let a = m / du;
        let b = m % du;
        proof {
            lemma_fundamental_div_mod(m as int, d as int);
        }
        if b == 0 {
            proof {
                assert(n as int == (-(a as int)) * (d as int) + 0) by (nonlinear_arith)
                    requires
                        m as int == (d as int) * (a as int) + 0,
                        n as int == -(m as int),
                ;
                lemma_fundamental_div_mod_converse(n as int, d as int, -(a as int), 0);
            }
            (0 - (a as i128), 0)
        } else {
            proof {
                assert(n as int == (-(a as int) - 1) * (d as int) + (d as int - b as int))
                    by (nonlinear_arith)
                    requires
                        m as int == (d as int) * (a as int) + (b as int),
                        n as int == -(m as int),
                ;
                lemma_fundamental_div_mod_converse(
                    n as int,
                    d as int,
                    -(a as int) - 1,
                    d as int - b as int,
                );
            }
            (0 - (a as i128) - 1, d - (b as i128))
        }
    }
}

/// The year, zero-padded to four characters with its sign counted.
pub open spec fn year_text(y: int) -> Seq<char> {
    if y < 0 {
        seq!['-'] + padded((-y) as nat, 3)
    } else {
        padded(y as nat, 4)
    }
}

/// `t` written `YYYY-MM-DD hh:mm:ss`, each field zero-padded.
pub open spec fn time_text(t: WikiTime) -> Seq<char> {
    year_text(t.year as int) + seq!['-'] + padded(t.month as nat, 2) + seq!['-'] + padded(
        t.day as nat,
        2,
    ) + seq![' '] + padded(t.hour as nat, 2) + seq![':'] + padded(t.minute as nat, 2) + seq![':']
        + padded(t.second as nat, 2)
}

impl WikiTime {
    /// The text form of `self`, for messages.
    pub fn to_text(&self) -> (r: String)
        ensures
            r@ == time_text(*self),
    {
        proof {
            reveal_strlit("-");
            reveal_strlit(" ");
            reveal_strlit(":");
        }
        let mut out = String::new();
        if self.year < 0 {
            out.append("-");
            push_padded(&mut out, (0 - self.year as i64) as u64, 3);
        } else {
            push_padded(&mut out, self.year as u64, 4);
        }
        assert(out@ =~= year_text(self.year as int));
        out.append("-");
        push_padded(&mut out, self.month as u64, 2);
        out.append("-");
        push_padded(&mut out, self.day as u64, 2);
        out.append(" ");
        push_padded(&mut out, self.hour as u64, 2);
        out.append(":");
        push_padded(&mut out, self.minute as u64, 2);
        out.append(":");
        push_padded(&mut out, self.second as u64, 2);
        assert(out@ =~= time_text(*self));
        out
    }

    /// The instant `seconds` later (earlier where negative), with the fields
    /// carried; none where the year would leave the range of `i32`.
    pub fn add_seconds(&self, seconds: i64) -> (r: Option<WikiTime>)
        ensures
            r == shifted(*self, seconds as int),
    {
        let y = self.year as i128;
        proof {
            assert(-0x8000_0000 <= y <= 0x7fff_ffff);
        }
        let t1 = y * 12 + self.month as i128;
        let t2 = t1 * 31 + self.day as i128;
        let t3 = t2 * 24 + self.hour as i128;
        let t4 = t3 * 60 + self.minute as i128;
        let t5 = t4 * 60 + self.second as i128;
        let n = t5 + seconds as i128;
        let (n1, s) = floor_div_mod(n, 60);
        let (n2, mi) = floor_div_mod(n1, 60);
        let (n3, h) = floor_div_mod(n2, 24);
        let (n4, d) = floor_div_mod(n3, 31);
        let (yr, mo) = floor_div_mod(n4, 12);
        if yr < i32::MIN as i128 || yr > i32::MAX as i128 {
            None
        } else {
            Some(
                WikiTime {
                    year: yr as i32,
                    month: mo as u16,
                    day: d as u16,
                    hour: h as u16,
                    minute: mi as u16,
                    second: s as u16,
                },
            )
        }
    }

    /// Whether `self` comes strictly before `other`.
    pub fn is_before(&self, other: &WikiTime) -> (r: bool)
        ensures
            r == time_lt(*self, *other),
    {
        if self.year != other.year {
            self.year < other.year
        } else if self.month != other.month {
            self.month < other.month
        } else if self.day != other.day {
            self.day < other.day
        } else if self.hour != other.hour {
            self.hour < other.hour
        } else if self.minute != other.minute {
            self.minute < other.minute
        } else {
            self.second < other.second
        }
    }
}


/// The rest of `parse_wikidata_time`: reads hour, minute and second from
/// `v[lo..hi]` and applies the zone offset.
fn parse_time_fields(
    v: &Vec<char>,
    lo: usize,
    hi: usize,
    year: i32,
    month: u16,
    day: u16,
    zone_off: i32,
) -> (r: Result<WikiTime, TimeParseError>)
    requires
        lo <= hi <= v.len(),
    ensures
        r == time_fields_spec(v@.subrange(lo as int, hi as int), year, month, day, zone_off as int),
{
    let ghost body = v@.subrange(lo as int, hi as int);
    let a = find_char(v, lo, hi, ':');
    assert(before(body, ':') =~= v@.subrange(lo as int, a as int));
    let hour = match parse_u16_range(v, lo, a) {
        Some(x) => x,
        None => return Err(TimeParseError::ParseInt),
    };
    if a == hi {
        return Err(TimeParseError::InvalidTime);
    }
    let ghost r1 = after(body, ':');
    assert(r1 =~= v@.subrange(a + 1, hi as int));
    let b = find_char(v, a + 1, hi, ':');
    assert(before(r1, ':') =~= v@.subrange(a + 1, b as int));
    let minute = match parse_u16_range(v, a + 1, b) {
        Some(x) => x,
        None => return Err(TimeParseError::ParseInt),
    };
    if b == hi {
        return Err(TimeParseError::InvalidTime);
    }
    let ghost r2 = after(r1, ':');
    assert(r2 =~= v@.subrange(b + 1, hi as int));
    let c = find_char(v, b + 1, hi, ':');
    assert(before(r2, ':') =~= v@.subrange(b + 1, c as int));
    let second = match parse_u16_range(v, b + 1, c) {
        Some(x) => x,
        None => return Err(TimeParseError::ParseInt),
    };
    let t = WikiTime { year, month, day, hour, minute, second };
    match t.add_seconds(zone_off as i64 * 60) {
        Some(w) => Ok(w),
        None => Err(TimeParseError::InvalidTime),
    }
}

/// Reads a Wikidata timestamp `[+-]YYYY-MM-DDTHH:MM:SSZ` (the year may have
/// more digits) and moves it by `zone_off` minutes. Month and day count from
/// zero in the result, an unknown (zero) month or day staying at zero.
pub fn parse_wikidata_time(datetime: &str, zone_off: i32) -> (r: Result<WikiTime, TimeParseError>)
    ensures
        r == parse_time_spec(datetime@, zone_off as int),
{
    let v = chars_of(datetime);
    let n = v.len();
    let ghost s = v@;
    let t = find_char(&v, 0, n, 'T');
    assert(s.subrange(0, n as int) =~= s);
    if t == n {
        return Err(TimeParseError::NoTime);
    }
    let ghost date = s.subrange(0, t as int);
    let te = find_char(&v, t + 1, n, 'T');
    let ghost time = before(s.subrange(t + 1, n as int), 'T');
    assert(time =~= s.subrange(t + 1, te as int));
    let body_end = if te > t + 1 { te - 1 } else { te };
    let ghost body = if time.len() > 0 { time.drop_last() } else { time };
    assert(body =~= s.subrange(t + 1, body_end as int));
    if t == 0 {
        return Err(TimeParseError::NoDateDash);
    }
    let k = find_char(&v, 1, t, '-');
    assert(date.drop_first() =~= s.subrange(1, t as int));
    if k == t {
        return Err(TimeParseError::NoDateDash);
    }
    if t - k < 4 {
        return Err(TimeParseError::DateTooShort);
    }
    assert(date.subrange(0, k as int) =~= s.subrange(0, k as int));
    assert(date.subrange(k + 1, k + 3) =~= s.subrange(k + 1, k + 3));
    assert(date.subrange(k + 4, date.len() as int) =~= s.subrange(k + 4, t as int));
    let year = match parse_i32_range(&v, 0, k) {
        Some(x) => x,
        None => return Err(TimeParseError::ParseInt),
    };
    let month = match parse_u16_range(&v, k + 1, k + 3) {
        Some(x) => x,
        None => return Err(TimeParseError::ParseInt),
    };
    let day = match parse_u16_range(&v, k + 4, t) {
        Some(x) => x,
        None => return Err(TimeParseError::ParseInt),
    };
    parse_time_fields(&v, t + 1, body_end, year, month.saturating_sub(1), day.saturating_sub(1), zone_off)
}


/// The zone offset that the printed number `z` gives, in whole minutes: an
/// integer, or a decimal fraction cut toward zero.
pub open spec fn zone_minutes(z: Seq<char>) -> Option<i32> {
    let k = index_of(z, '.');
    if k < z.len() {
        let frac = z.subrange(k + 1, z.len() as int);
        if frac.len() > 0 && all_digits(frac) {
            parse_i32_spec(z.subrange(0, k))
        } else {
            None
        }
    } else {
        parse_i32_spec(z)
    }
}

/// Reads the zone offset of the printed number `z`.
pub fn read_zone_minutes(z: &str) -> (r: Option<i32>)
    ensures
        r == zone_minutes(z@),
{
    let v = chars_of(z);
    let n = v.len();
    let k = find_char(&v, 0, n, '.');
    assert(v@.subrange(0, n as int) =~= v@);
    if k < n {
        if k + 1 < n && digits_only(&v, k + 1, n) {
            assert(v@.subrange(0, k as int) =~= z@.subrange(0, k as int));
            parse_i32_range(&v, 0, k)
        } else {
            None
        }
    } else {
        parse_i32_range(&v, 0, n)
    }
}

/// The time held by the snak `snak`: its value's time and zone offset, where
/// they read as a time.
pub open spec fn snak_time(snak: Option<Json>) -> Option<WikiTime> {
    let tv = field(field(snak, "datavalue"@), "value"@);
    match (text(field(tv, "time"@)), number(field(tv, "timezone"@))) {
        (Some(t), Some(z)) => match zone_minutes(z) {
            Some(m) => match parse_time_spec(t, m as int) {
                Ok(w) => Some(w),
                Err(_) => None,
            },
            None => None,
        },
        _ => None,
    }
}

/// Whether the snak `snak` holds a value (rather than "some value" or "no
/// value").
pub open spec fn has_value(snak: Option<Json>) -> bool {
    text(field(snak, "snaktype"@)) == Some("value"@)
}

/// The time of the qualifier `prop` in the qualifier map `q`: its first
/// snak, where that has a value whose time and zone offset read as a time.
pub open spec fn qualifier_time(q: Option<Json>, prop: Seq<char>) -> Option<WikiTime> {
    let snak = element(field(q, prop), 0);
    if has_value(snak) {
        snak_time(snak)
    } else {
        None
    }
}

/// A claim with qualifiers `q` is active at `now` unless its end time (P582)
/// lies before `now` or its start time (P580) after it. A missing or
/// unreadable time limits nothing.
pub open spec fn active_at(q: Option<Json>, now: WikiTime) -> bool {
    &&& !(qualifier_time(q, "P582"@) matches Some(end) && time_lt(end, now))
    &&& !(qualifier_time(q, "P580"@) matches Some(start) && time_lt(now, start))
}

/// Whether the snak `snak` holds a value.
pub fn snak_has_value(snak: Option<&Json>) -> (r: bool)
    ensures
        r == has_value(deref_json(snak)),
{
    match text_of(get(snak, "snaktype")) {
        Some(k) => str_eq(k.as_str(), "value"),
        None => false,
    }
}

/// Reads the time held by the snak `snak`.
pub fn read_snak_time(snak: Option<&Json>) -> (r: Option<WikiTime>)
    ensures
        r == snak_time(deref_json(snak)),
{
    let tv = get(get(snak, "datavalue"), "value");
    match (text_of(get(tv, "time")), number_of(get(tv, "timezone"))) {
        (Some(t), Some(z)) => {
            match read_zone_minutes(z.as_str()) {
                Some(m) => match parse_wikidata_time(t.as_str(), m) {
                    Ok(w) => Some(w),
                    Err(_) => None,
                },
                None => None,
            }
        },
        _ => None,
    }
}

/// Reads the time of the qualifier `prop` in `q`.
fn read_qualifier_time(q: Option<&Json>, prop: &str) -> (r: Option<WikiTime>)
    ensures
        r == qualifier_time(deref_json(q), prop@),
{
    let snak = at(get(q, prop), 0);
    if snak_has_value(snak) {
        read_snak_time(snak)
    } else {
        None
    }
}

/// Whether a claim with the qualifier map `qualifiers` is active at `now`.
pub fn is_active_at(qualifiers: Option<&Json>, now: &WikiTime) -> (r: bool)
    ensures
        r == active_at(deref_json(qualifiers), *now),
{
    if let Some(end) = read_qualifier_time(qualifiers, "P582") {
        if end.is_before(now) {
            return false;
        }
    }
    if let Some(start) = read_qualifier_time(qualifiers, "P580") {
        if now.is_before(&start) {
            return false;
        }
    }
    true
}

/// What a reading of the clock can be: nothing, where the clock cannot be
/// read, or a normal time in 1970 or later.
pub open spec fn clock_reading(t: Option<WikiTime>) -> bool {
    match t {
        Some(w) => normal(w) && w.year >= 1970,
        None => true,
    }
}

/// Whether a claim with qualifiers `q` counts as active by the clock reading
/// `t`; with no reading, no time limits it.
pub open spec fn active_by_clock(q: Option<Json>, t: Option<WikiTime>) -> bool {
    match t {
        Some(w) => active_at(q, w),
        None => true,
    }
}

/// Whether a claim with the qualifier map `qualifiers` is active now, by the
/// system clock. Where the clock cannot be read, the claim counts as active.
pub fn is_object_active(qualifiers: Option<&Json>) -> (r: bool)
    ensures
        exists|t: Option<WikiTime>| clock_reading(t) && r == active_by_clock(deref_json(qualifiers), t),
        qualifiers is None ==> r,
{
    let now = WikiTime::now();
    match now {
        Some(t) => is_active_at(qualifiers, &t),
        None => true,
    }
}

impl WikiTime {
    /// Relies on std's `SystemTime::now` and `duration_since(UNIX_EPOCH)`,
    /// which fails on a clock set before 1970, and on chrono's
    /// `DateTime::from_timestamp`, which gives nothing outside chrono's range
    /// and otherwise the calendar time of those seconds: `month0` below 12,
    /// `day0` below 31, `hour` below 24, `minute` and `second` below 60, and
    /// a year of 1970 or later for a time not before the epoch.
    #[verifier::external_body]
    pub fn now() -> (r: Option<WikiTime>)
        ensures
            clock_reading(r),
    {
        let since = std::time::SystemTime::now().duration_since(std::time::UNIX_EPOCH).ok()?;
        let secs = i64::try_from(since.as_secs()).ok()?;
        let now = chrono::DateTime::from_timestamp(secs, 0)?;
        Some(WikiTime {
            year: now.year(),
            month: now.month0() as u16,
            day: now.day0() as u16,
            hour: now.hour() as u16,
            minute: now.minute() as u16,
            second: now.second() as u16,
        })
    }
}

} // verus!
