//! Tolerant parsing of device time responses.
//!
//! A device answers a time query with a small text body.  The body is
//! cleaned and then matched against the configured timestamp formats, in
//! order: `%Y-%m-%d %H:%M:%S`, `%Y-%m-%dT%H:%M:%SZ`, `%Y-%m-%dT%H:%M:%S%z`
//! and `%Y-%m-%d %H:%M:%S%z` — first against the whole cleaned body, then
//! against each whitespace-separated token, then against the substring
//! after the first `=` with surrounding quotes and semicolons trimmed.
//! Parsed times are converted to seconds since the Unix epoch for the
//! drift analysis.

use vstd::prelude::*;
use crate::errors::AppError;
use crate::ipaddr::{digit_val, is_digit};
use crate::text;

verus! {

/// A parsed civil date and time with a UTC offset in minutes (zero for
/// naive and `Z`-suffixed timestamps).
#[derive(Debug, Clone, Copy, PartialEq, Eq, Structural)]
pub struct CivilDateTime {
    pub year: u32,
    pub month: u32,
    pub day: u32,
    pub hour: u32,
    pub minute: u32,
    pub second: u32,
    pub offset_minutes: i32,
}

pub open spec fn is_leap_year(y: int) -> bool {
    y % 4 == 0 && (y % 100 != 0 || y % 400 == 0)
}

pub open spec fn days_in_month(y: int, m: int) -> int {
    if m == 2 {
        if is_leap_year(y) {
            29
        } else {
            28
        }
    } else if m == 4 || m == 6 || m == 9 || m == 11 {
        30
    } else {
        31
    }
}

/// A well-formed civil date-time: a real calendar date between the years 1
/// and 9999, a time of day, and an offset below one day.
pub open spec fn civil_wf(c: CivilDateTime) -> bool {
    &&& 1 <= c.year <= 9999
    &&& 1 <= c.month <= 12
    &&& 1 <= c.day <= days_in_month(c.year as int, c.month as int)
    &&& c.hour <= 23
    &&& c.minute <= 59
    &&& c.second <= 59
    &&& -1439 <= c.offset_minutes <= 1439
}

/// Leap years strictly before year `y` (for `y >= 1`).
pub open spec fn leap_years_before(y: int) -> int {
    (y - 1) / 4 - (y - 1) / 100 + (y - 1) / 400
}

/// Days from the start of year 1 to the start of year `y`.
pub open spec fn days_before_year(y: int) -> int {
    365 * (y - 1) + leap_years_before(y)
}

/// Days from the start of the year to the start of month `m`.
pub open spec fn days_before_month(y: int, m: int) -> int {
    let base: int = if m == 1 {
        0
    } else if m == 2 {
        31
    } else if m == 3 {
        59
    } else if m == 4 {
        90
    } else if m == 5 {
        120
    } else if m == 6 {
        151
    } else if m == 7 {
        181
    } else if m == 8 {
        212
    } else if m == 9 {
        243
    } else if m == 10 {
        273
    } else if m == 11 {
        304
    } else {
        334
    };
    if m > 2 && is_leap_year(y) {
        base + 1
    } else {
        base
    }
}

/// Days from 1970-01-01 (the Unix epoch) to the start of year 1.
pub open spec fn epoch_day_offset() -> int {
    719162
}

/// Seconds since the Unix epoch of a well-formed civil date-time.
pub open spec fn epoch_of(c: CivilDateTime) -> int {
    (days_before_year(c.year as int) + days_before_month(c.year as int, c.month as int)
        + c.day as int - 1 - epoch_day_offset()) * 86400 + (c.hour as int) * 3600 + (
    c.minute as int) * 60 + c.second as int - (c.offset_minutes as int) * 60
}

impl CivilDateTime {
    /// Converts to seconds since the Unix epoch.
    pub fn to_epoch_seconds(&self) -> (r: i64)
        requires
            civil_wf(*self),
        ensures
            r == epoch_of(*self),
    {
        let y = self.year as i64;
        let leaps = (y - 1) / 4 - (y - 1) / 100 + (y - 1) / 400;
        let before_year = 365 * (y - 1) + leaps;
        let m = self.month;
        let base: i64 = if m == 1 {
            0
        } else if m == 2 {
            31
        } else if m == 3 {
            59
        } else if m == 4 {
            90
        } else if m == 5 {
            120
        } else if m == 6 {
            151
        } else if m == 7 {
            181
        } else if m == 8 {
            212
        } else if m == 9 {
            243
        } else if m == 10 {
            273
        } else if m == 11 {
            304
        } else {
            334
        };
        let before_month: i64 = if m > 2 && (self.year % 4 == 0 && (self.year % 100 != 0
            || self.year % 400 == 0)) {
            base + 1
        } else {
            base
        };
        let days = before_year + before_month + (self.day as i64) - 1 - 719162;
        days * 86400 + (self.hour as i64) * 3600 + (self.minute as i64) * 60 + (
        self.second as i64) - (self.offset_minutes as i64) * 60
    }
}

/// Two decimal digits at position `i`.
pub open spec fn two_digits_at(s: Seq<char>, i: int) -> bool {
    is_digit(s[i]) && is_digit(s[i + 1])
}

pub open spec fn dd_val(s: Seq<char>, i: int) -> int {
    digit_val(s[i]) * 10 + digit_val(s[i + 1])
}

/// Four decimal digits at position `i`.
pub open spec fn four_digits_at(s: Seq<char>, i: int) -> bool {
    is_digit(s[i]) && is_digit(s[i + 1]) && is_digit(s[i + 2]) && is_digit(s[i + 3])
}

pub open spec fn dddd_val(s: Seq<char>, i: int) -> int {
    digit_val(s[i]) * 1000 + digit_val(s[i + 1]) * 100 + digit_val(s[i + 2]) * 10 + digit_val(
        s[i + 3],
    )
}

/// The shared `YYYY-MM-DD<sep>HH:MM:SS` core at the start of `s`.
pub open spec fn core_ok(s: Seq<char>, sep: char) -> bool {
    &&& s.len() >= 19
    &&& four_digits_at(s, 0)
    &&& s[4] == '-'
    &&& two_digits_at(s, 5)
    &&& s[7] == '-'
    &&& two_digits_at(s, 8)
    &&& s[10] == sep
    &&& two_digits_at(s, 11)
    &&& s[13] == ':'
    &&& two_digits_at(s, 14)
    &&& s[16] == ':'
    &&& two_digits_at(s, 17)
}

/// The civil date-time read from a core match, with the given offset.
pub open spec fn core_civil(s: Seq<char>, offset: int) -> CivilDateTime {
    CivilDateTime {
        year: dddd_val(s, 0) as u32,
        month: dd_val(s, 5) as u32,
        day: dd_val(s, 8) as u32,
        hour: dd_val(s, 11) as u32,
        minute: dd_val(s, 14) as u32,
        second: dd_val(s, 17) as u32,
        offset_minutes: offset as i32,
    }
}

/// A numeric UTC offset `+HHMM`, `-HHMM`, `+HH:MM` or `-HH:MM` filling
/// `s[i..]` exactly, with a valid hour and minute.
pub open spec fn offset_ok(s: Seq<char>, i: int) -> bool {
    &&& (s[i] == '+' || s[i] == '-')
    &&& {
        ||| (s.len() == i + 5 && two_digits_at(s, i + 1) && two_digits_at(s, i + 3) && dd_val(s, i + 1)
            <= 23 && dd_val(s, i + 3) <= 59)
        ||| (s.len() == i + 6 && two_digits_at(s, i + 1) && s[i + 3] == ':' && two_digits_at(s, i + 4)
            && dd_val(s, i + 1) <= 23 && dd_val(s, i + 4) <= 59)
    }
}

/// The signed offset in minutes of a matched numeric offset.
pub open spec fn offset_minutes_val(s: Seq<char>, i: int) -> int {
    let mm = if s.len() == i + 5 {
        dd_val(s, i + 1) * 60 + dd_val(s, i + 3)
    } else {
        dd_val(s, i + 1) * 60 + dd_val(s, i + 4)
    };
    if s[i] == '-' {
        -mm
    } else {
        mm
    }
}

/// `%Y-%m-%d %H:%M:%S`: the core alone, space-separated, naive.
pub open spec fn parse_fmt_naive_space(s: Seq<char>) -> Option<CivilDateTime> {
    if s.len() == 19 && core_ok(s, ' ') && civil_wf(core_civil(s, 0)) {
        Some(core_civil(s, 0))
    } else {
        None
    }
}

/// `%Y-%m-%dT%H:%M:%SZ`: `T`-separated core with a `Z` suffix.
pub open spec fn parse_fmt_zulu(s: Seq<char>) -> Option<CivilDateTime> {
    if s.len() == 20 && core_ok(s, 'T') && s[19] == 'Z' && civil_wf(core_civil(s, 0)) {
        Some(core_civil(s, 0))
    } else {
        None
    }
}

/// `%Y-%m-%dT%H:%M:%S%z`: `T`-separated core with a numeric offset.
pub open spec fn parse_fmt_offset_t(s: Seq<char>) -> Option<CivilDateTime> {
    if s.len() >= 20 && core_ok(s, 'T') && offset_ok(s, 19) && civil_wf(
        core_civil(s, offset_minutes_val(s, 19)),
    ) {
        Some(core_civil(s, offset_minutes_val(s, 19)))
    } else {
        None
    }
}

/// `%Y-%m-%d %H:%M:%S%z`: space-separated core with a numeric offset.
pub open spec fn parse_fmt_offset_space(s: Seq<char>) -> Option<CivilDateTime> {
    if s.len() >= 20 && core_ok(s, ' ') && offset_ok(s, 19) && civil_wf(
        core_civil(s, offset_minutes_val(s, 19)),
    ) {
        Some(core_civil(s, offset_minutes_val(s, 19)))
    } else {
        None
    }
}

/// The configured formats, attempted in order.
pub open spec fn parse_any_format(s: Seq<char>) -> Option<CivilDateTime> {
    if parse_fmt_naive_space(s) is Some {
        parse_fmt_naive_space(s)
    } else if parse_fmt_zulu(s) is Some {
        parse_fmt_zulu(s)
    } else if parse_fmt_offset_t(s) is Some {
        parse_fmt_offset_t(s)
    } else {
        parse_fmt_offset_space(s)
    }
}

/// Reads two digits at position `i`.
fn read_dd(s: &str, i: usize) -> (r: Option<u32>)
    requires
        i + 2 <= s@.len() <= usize::MAX,
    ensures
        match r {
            Some(v) => two_digits_at(s@, i as int) && v == dd_val(s@, i as int) && v <= 99,
            None => !two_digits_at(s@, i as int),
        },
{
    let c0 = s.get_char(i);
    let c1 = s.get_char(i + 1);
    if c0 < '0' || c0 > '9' || c1 < '0' || c1 > '9' {
        return None;
    }
    let v = ((c0 as u32) - 48) * 10 + ((c1 as u32) - 48);
    Some(v)
}

/// Reads four digits at position `i`.
fn read_dddd(s: &str, i: usize) -> (r: Option<u32>)
    requires
        i + 4 <= s@.len() <= usize::MAX,
    ensures
        match r {
            Some(v) => four_digits_at(s@, i as int) && v == dddd_val(s@, i as int) && v <= 9999,
            None => !four_digits_at(s@, i as int),
        },
{
    let a = match read_dd(s, i) {
        Some(v) => v,
        None => {
            return None;
        },
    };
    let b = match read_dd(s, i + 2) {
        Some(v) => v,
        None => {
            return None;
        },
    };
    Some(a * 100 + b)
}

/// Checks well-formedness of a parsed civil date-time.
fn check_civil_wf(c: &CivilDateTime) -> (r: bool)
    ensures
        r == civil_wf(*c),
{
    if c.year < 1 || c.year > 9999 {
        return false;
    }
    if c.month < 1 || c.month > 12 {
        return false;
    }
    let dim: u32 = if c.month == 2 {
        if c.year % 4 == 0 && (c.year % 100 != 0 || c.year % 400 == 0) {
            29
        } else {
            28
        }
    } else if c.month == 4 || c.month == 6 || c.month == 9 || c.month == 11 {
        30
    } else {
        31
    };
    if c.day < 1 || c.day > dim {
        return false;
    }
    if c.hour > 23 || c.minute > 59 || c.second > 59 {
        return false;
    }
    if c.offset_minutes < -1439 || c.offset_minutes > 1439 {
        return false;
    }
    true
}

/// Parses the `YYYY-MM-DD<sep>HH:MM:SS` core at the start of `s`.
fn parse_core(s: &str, sep: char) -> (r: Option<(u32, u32, u32, u32, u32, u32)>)
    requires
        19 <= s@.len() <= usize::MAX,
    ensures
        match r {
            Some(t) => core_ok(s@, sep) && t.0 == dddd_val(s@, 0) && t.1 == dd_val(s@, 5) && t.2
                == dd_val(s@, 8) && t.3 == dd_val(s@, 11) && t.4 == dd_val(s@, 14) && t.5 == dd_val(
                s@,
                17,
            ),
            None => !core_ok(s@, sep),
        },
{
    let year = match read_dddd(s, 0) {
        Some(v) => v,
        None => {
            return None;
        },
    };
    if s.get_char(4) != '-' {
        return None;
    }
    let month = match read_dd(s, 5) {
        Some(v) => v,
        None => {
            return None;
        },
    };
    if s.get_char(7) != '-' {
        return None;
    }
    let day = match read_dd(s, 8) {
        Some(v) => v,
        None => {
            return None;
        },
    };
    if s.get_char(10) != sep {
        return None;
    }
    let hour = match read_dd(s, 11) {
        Some(v) => v,
        None => {
            return None;
        },
    };
    if s.get_char(13) != ':' {
        return None;
    }
    let minute = match read_dd(s, 14) {
        Some(v) => v,
        None => {
            return None;
        },
    };
    if s.get_char(16) != ':' {
        return None;
    }
    let second = match read_dd(s, 17) {
        Some(v) => v,
        None => {
            return None;
        },
    };
    Some((year, month, day, hour, minute, second))
}

/// Parses a numeric offset filling `s[i..]` exactly.
fn parse_offset(s: &str, i: usize) -> (r: Option<i32>)
    requires
        i < s@.len() <= usize::MAX,
    ensures
        match r {
            Some(v) => offset_ok(s@, i as int) && v == offset_minutes_val(s@, i as int) && -1439
                <= v <= 1439,
            None => !offset_ok(s@, i as int),
        },
{
    let n = s.unicode_len();
    let rem = n - i;
    let sign = s.get_char(i);
    if sign != '+' && sign != '-' {
        return None;
    }
    if rem == 5 {
        let hh = match read_dd(s, i + 1) {
            Some(v) => v,
            None => {
                return None;
            },
        };
        let mm = match read_dd(s, i + 3) {
            Some(v) => v,
            None => {
                return None;
            },
        };
        if hh > 23 || mm > 59 {
            return None;
        }
        let total = (hh * 60 + mm) as i32;
        if sign == '-' {
            Some(-total)
        } else {
            Some(total)
        }
    } else if rem == 6 {
        let hh = match read_dd(s, i + 1) {
            Some(v) => v,
            None => {
                return None;
            },
        };
        if s.get_char(i + 3) != ':' {
            return None;
        }
        let mm = match read_dd(s, i + 4) {
            Some(v) => v,
            None => {
                return None;
            },
        };
        if hh > 23 || mm > 59 {
            return None;
        }
        let total = (hh * 60 + mm) as i32;
        if sign == '-' {
            Some(-total)
        } else {
            Some(total)
        }
    } else {
        None
    }
}

/// Attempts the configured timestamp formats, in order, against `s`.
pub fn parse_timestamp(s: &str) -> (r: Option<CivilDateTime>)
    ensures
        r == parse_any_format(s@),
{
    let n = s.unicode_len();
    if n < 19 {
        return None;
    }
    // the two space-separated and the two T-separated formats share cores
    let naive = if n == 19 {
        match parse_core(s, ' ') {
            Some((y, m, d, h, mi, sec)) => {
                let c = CivilDateTime {
                    year: y,
                    month: m,
                    day: d,
                    hour: h,
                    minute: mi,
                    second: sec,
                    offset_minutes: 0,
                };
                if check_civil_wf(&c) {
                    Some(c)
                } else {
                    None
                }
            },
            None => None,
        }
    } else {
        None
    };
    if let Some(c) = naive {
        return Some(c);
    }
    let zulu = if n == 20 {
        match parse_core(s, 'T') {
            Some((y, m, d, h, mi, sec)) => {
                if s.get_char(19) == 'Z' {
                    let c = CivilDateTime {
                        year: y,
                        month: m,
                        day: d,
                        hour: h,
                        minute: mi,
                        second: sec,
                        offset_minutes: 0,
                    };
                    if check_civil_wf(&c) {
                        Some(c)
                    } else {
                        None
                    }
                } else {
                    None
                }
            },
            None => None,
        }
    } else {
        None
    };
    if let Some(c) = zulu {
        return Some(c);
    }
    let off_t = if n >= 20 {
        match parse_core(s, 'T') {
            Some((y, m, d, h, mi, sec)) => {
                match parse_offset(s, 19) {
                    Some(off) => {
                        let c = CivilDateTime {
                            year: y,
                            month: m,
                            day: d,
                            hour: h,
                            minute: mi,
                            second: sec,
                            offset_minutes: off,
                        };
                        if check_civil_wf(&c) {
                            Some(c)
                        } else {
                            None
                        }
                    },
                    None => None,
                }
            },
            None => None,
        }
    } else {
        None
    };
    if let Some(c) = off_t {
        return Some(c);
    }
    if n >= 20 {
        match parse_core(s, ' ') {
            Some((y, m, d, h, mi, sec)) => {
                match parse_offset(s, 19) {
                    Some(off) => {
                        let c = CivilDateTime {
                            year: y,
                            month: m,
                            day: d,
                            hour: h,
                            minute: mi,
                            second: sec,
                            offset_minutes: off,
                        };
                        if check_civil_wf(&c) {
                            Some(c)
                        } else {
                            None
                        }
                    },
                    None => None,
                }
            },
            None => None,
        }
    } else {
        None
    }
}

/// Characters stripped from the ends of the raw body: whitespace and
/// quotes.
pub open spec fn is_clean_strip(c: char) -> bool {
    text::is_space_char(c) || c == '"' || c == '\''
}

/// Characters stripped around the `=`-tail: whitespace, quotes and
/// semicolons.
pub open spec fn is_tail_strip(c: char) -> bool {
    is_clean_strip(c) || c == ';'
}

pub open spec fn strip_front_by(s: Seq<char>, p: spec_fn(char) -> bool) -> Seq<char>
    decreases s.len(),
{
    if s.len() > 0 && p(s[0]) {
        strip_front_by(s.drop_first(), p)
    } else {
        s
    }
}

pub open spec fn strip_back_by(s: Seq<char>, p: spec_fn(char) -> bool) -> Seq<char>
    decreases s.len(),
{
    if s.len() > 0 && p(s.last()) {
        strip_back_by(s.drop_last(), p)
    } else {
        s
    }
}

pub open spec fn strip_by(s: Seq<char>, p: spec_fn(char) -> bool) -> Seq<char> {
    strip_back_by(strip_front_by(s, p), p)
}

/// The raw body with whitespace and quotes stripped from both ends.
pub open spec fn clean_spec(s: Seq<char>) -> Seq<char> {
    strip_by(s, |c: char| is_clean_strip(c))
}

proof fn lemma_strip_front_by_at(s: Seq<char>, p: spec_fn(char) -> bool, a: int)
    requires
        0 <= a <= s.len(),
        forall|j: int| 0 <= j < a ==> p(#[trigger] s[j]),
        a < s.len() ==> !p(s[a]),
    ensures
        strip_front_by(s, p) == s.subrange(a, s.len() as int),
    decreases a,
{
    if a == 0 {
        if s.len() > 0 && p(s[0]) {
            assert(false);
        }
        assert(s.subrange(0, s.len() as int) =~= s);
    } else {
        assert(p(s[0]));
        lemma_strip_front_by_at(s.drop_first(), p, a - 1);
        assert(s.drop_first().subrange(a - 1, s.drop_first().len() as int) =~= s.subrange(
            a,
            s.len() as int,
        ));
    }
}

proof fn lemma_strip_back_by_at(s: Seq<char>, p: spec_fn(char) -> bool, b: int)
    requires
        0 <= b <= s.len(),
        forall|j: int| b <= j < s.len() ==> p(#[trigger] s[j]),
        b > 0 ==> !p(s[b - 1]),
    ensures
        strip_back_by(s, p) == s.subrange(0, b),
    decreases s.len() - b,
{
    if b == s.len() {
        if s.len() > 0 && p(s.last()) {
            assert(false);
        }
        assert(s.subrange(0, s.len() as int) =~= s);
    } else {
        assert(p(s.last()));
        lemma_strip_back_by_at(s.drop_last(), p, b);
        assert(s.drop_last().subrange(0, b) =~= s.subrange(0, b));
    }
}

/// Copies `s[from..to]` with the characters of the strip set removed from
/// both ends; `tail` selects the wider set that also strips semicolons.
fn strip_copy(s: &str, from: usize, to: usize, tail: bool) -> (r: String)
    requires
        from <= to <= s@.len() <= usize::MAX,
    ensures
        !tail ==> r@ == strip_by(
            s@.subrange(from as int, to as int),
            |c: char| is_clean_strip(c),
        ),
        tail ==> r@ == strip_by(s@.subrange(from as int, to as int), |c: char| is_tail_strip(c)),
{
    let ghost seg = s@.subrange(from as int, to as int);
    let ghost p: spec_fn(char) -> bool = if tail {
        |c: char| is_tail_strip(c)
    } else {
        |c: char| is_clean_strip(c)
    };
    let mut a = from;
    while a < to
        invariant
            from <= a <= to <= s@.len() <= usize::MAX,
            (tail ==> p == (|c: char| is_tail_strip(c))) && (!tail ==> p == (
            |c: char| is_clean_strip(c))),
            forall|j: int| from <= j < a ==> p(#[trigger] s@[j]),
        ensures
            from <= a <= to,
            forall|j: int| from <= j < a ==> p(#[trigger] s@[j]),
            a < to ==> !p(s@[a as int]),
        decreases to - a,
    {
        let c = s.get_char(a);
        let hit = c == ' ' || c == '\t' || c == '\n' || c == '\r' || c == '"' || c == '\'' || (tail
            && c == ';');
        proof {
            assert(hit == p(s@[a as int]));
        }
        if hit {
            a = a + 1;
        } else {
            break ;
        }
    }
    let mut b = to;
    while b > a
        invariant
            from <= a <= b <= to <= s@.len() <= usize::MAX,
            (tail ==> p == (|c: char| is_tail_strip(c))) && (!tail ==> p == (
            |c: char| is_clean_strip(c))),
            forall|j: int| b <= j < to ==> p(#[trigger] s@[j]),
        ensures
            a <= b <= to,
            forall|j: int| b <= j < to ==> p(#[trigger] s@[j]),
            b > a ==> !p(s@[b - 1]),
        decreases b - a,
    {
        let c = s.get_char(b - 1);
        let hit = c == ' ' || c == '\t' || c == '\n' || c == '\r' || c == '"' || c == '\'' || (tail
            && c == ';');
        proof {
            assert(hit == p(s@[b - 1]));
        }
        if hit {
            b = b - 1;
        } else {
            break ;
        }
    }
    let mut r = String::new();
    let mut i = a;
    while i < b
        invariant
            from <= a <= i <= b <= to <= s@.len() <= usize::MAX,
            r@ == s@.subrange(a as int, i as int),
        decreases b - i,
    {
        let c = s.get_char(i);
        text::push_char(&mut r, c);
        proof {
            assert(s@.subrange(a as int, i + 1) =~= s@.subrange(a as int, i as int).push(
                s@[i as int],
            ));
        }
        i = i + 1;
    }
    proof {
        assert(r@ == s@.subrange(a as int, b as int)) by {
            assert(s@.subrange(a as int, a as int) =~= Seq::<char>::empty());
        }
        lemma_strip_front_by_at(seg, p, a - from);
        assert(strip_front_by(seg, p) == seg.subrange(a - from, seg.len() as int));
        assert(seg.subrange(a - from, seg.len() as int) =~= s@.subrange(a as int, to as int));
        let mid = s@.subrange(a as int, to as int);
        lemma_strip_back_by_at(mid, p, b - a);
        assert(strip_back_by(mid, p) == mid.subrange(0, b - a));
        assert(mid.subrange(0, b - a) =~= s@.subrange(a as int, b as int));
    }
    r
}

/// The index of the first whitespace character at or after `i`, or `-1`.
pub open spec fn first_ws_from(s: Seq<char>, i: int) -> int
    decreases s.len() - i,
{
    if i < 0 || i >= s.len() {
        -1
    } else if text::is_space_char(s[i]) {
        i
    } else {
        first_ws_from(s, i + 1)
    }
}

proof fn lemma_first_ws_found(s: Seq<char>, i: int, p: int)
    requires
        0 <= i <= p < s.len(),
        text::is_space_char(s[p]),
        forall|j: int| i <= j < p ==> !text::is_space_char(#[trigger] s[j]),
    ensures
        first_ws_from(s, i) == p,
    decreases p - i,
{
    if i < p {
        lemma_first_ws_found(s, i + 1, p);
    }
}

proof fn lemma_first_ws_none(s: Seq<char>, i: int)
    requires
        0 <= i <= s.len(),
        forall|j: int| i <= j < s.len() ==> !text::is_space_char(#[trigger] s[j]),
    ensures
        first_ws_from(s, i) == -1,
    decreases s.len() - i,
{
    if i < s.len() {
        lemma_first_ws_none(s, i + 1);
    }
}

fn find_ws(s: &str, from: usize) -> (r: Option<usize>)
    requires
        from <= s@.len() <= usize::MAX,
    ensures
        match r {
            Some(p) => from <= p < s@.len() && first_ws_from(s@, from as int) == p,
            None => first_ws_from(s@, from as int) == -1,
        },
{
    let n = s.unicode_len();
    let mut i = from;
    while i < n
        invariant
            from <= i <= n == s@.len(),
            forall|j: int| from <= j < i ==> !text::is_space_char(#[trigger] s@[j]),
        decreases n - i,
    {
        let c = s.get_char(i);
        if c == ' ' || c == '\t' || c == '\n' || c == '\r' {
            proof {
                lemma_first_ws_found(s@, from as int, i as int);
            }
            return Some(i);
        }
        i = i + 1;
    }
    proof {
        lemma_first_ws_none(s@, from as int);
    }
    None
}

/// The result of trying the formats against each whitespace-separated
/// token of `s[i..]`, in order.
pub open spec fn token_parse_from(s: Seq<char>, i: int) -> Option<CivilDateTime>
    decreases s.len() - i,
{
    if i < 0 || i > s.len() {
        None
    } else {
        let p = first_ws_from(s, i);
        if p < 0 {
            parse_any_format(s.subrange(i, s.len() as int))
        } else if i <= p < s.len() {
            if parse_any_format(s.subrange(i, p)) is Some {
                parse_any_format(s.subrange(i, p))
            } else {
                token_parse_from(s, p + 1)
            }
        } else {
            None
        }
    }
}

/// Tries the formats against each whitespace-separated token of `s`.
fn parse_tokens(s: &str) -> (r: Option<CivilDateTime>)
    ensures
        r == token_parse_from(s@, 0),
{
    let n = s.unicode_len();
    let mut i: usize = 0;
    loop
        invariant
            0 <= i <= n == s@.len(),
            token_parse_from(s@, 0) == token_parse_from(s@, i as int),
        decreases n - i,
    {
        match find_ws(s, i) {
            Some(p) => {
                let tok = s.substring_char(i, p);
                let parsed = parse_timestamp(tok);
                if let Some(c) = parsed {
                    return Some(c);
                }
                proof {
                    assert(token_parse_from(s@, i as int) == token_parse_from(s@, p + 1));
                }
                i = p + 1;
            },
            None => {
                let tok = s.substring_char(i, n);
                return parse_timestamp(tok);
            },
        }
    }
}

/// The index of the first `=` at or after `i`, or `-1`.
pub open spec fn first_eq_from(s: Seq<char>, i: int) -> int
    decreases s.len() - i,
{
    if i < 0 || i >= s.len() {
        -1
    } else if s[i] == '=' {
        i
    } else {
        first_eq_from(s, i + 1)
    }
}

proof fn lemma_first_eq_found(s: Seq<char>, i: int, p: int)
    requires
        0 <= i <= p < s.len(),
        s[p] == '=',
        forall|j: int| i <= j < p ==> #[trigger] s[j] != '=',
    ensures
        first_eq_from(s, i) == p,
    decreases p - i,
{
    if i < p {
        lemma_first_eq_found(s, i + 1, p);
    }
}

proof fn lemma_first_eq_none(s: Seq<char>, i: int)
    requires
        0 <= i <= s.len(),
        forall|j: int| i <= j < s.len() ==> #[trigger] s[j] != '=',
    ensures
        first_eq_from(s, i) == -1,
    decreases s.len() - i,
{
    if i < s.len() {
        lemma_first_eq_none(s, i + 1);
    }
}

fn find_eq(s: &str) -> (r: Option<usize>)
    requires
        s@.len() <= usize::MAX,
    ensures
        match r {
            Some(p) => p < s@.len() && first_eq_from(s@, 0) == p,
            None => first_eq_from(s@, 0) == -1,
        },
{
    let n = s.unicode_len();
    let mut i: usize = 0;
    while i < n
        invariant
            0 <= i <= n == s@.len(),
            forall|j: int| 0 <= j < i ==> #[trigger] s@[j] != '=',
        decreases n - i,
    {
        if s.get_char(i) == '=' {
            proof {
                lemma_first_eq_found(s@, 0, i as int);
            }
            return Some(i);
        }
        i = i + 1;
    }
    proof {
        lemma_first_eq_none(s@, 0);
    }
    None
}

/// The result of trying the formats against the substring after the first
/// `=`, with surrounding whitespace, quotes and semicolons stripped.
pub open spec fn eq_tail_parse(s: Seq<char>) -> Option<CivilDateTime> {
    let p = first_eq_from(s, 0);
    if 0 <= p < s.len() {
        parse_any_format(strip_by(s.subrange(p + 1, s.len() as int), |c: char| is_tail_strip(c)))
    } else {
        None
    }
}

/// What the tolerant parse of a raw device time body yields: the cleaned
/// body as a whole, then each of its whitespace-separated tokens, then
/// the trimmed substring after the first `=`, each attempted against the
/// configured formats in order.
pub open spec fn parse_device_time_spec(body: Seq<char>) -> Option<CivilDateTime> {
    let cleaned = clean_spec(body);
    if parse_any_format(cleaned) is Some {
        parse_any_format(cleaned)
    } else if token_parse_from(cleaned, 0) is Some {
        token_parse_from(cleaned, 0)
    } else {
        eq_tail_parse(cleaned)
    }
}

/// Tolerant-parses a device time response body into seconds since the
/// Unix epoch.  Fails exactly when no parse strategy matches.
pub fn parse_device_time(body: &str) -> (r: Result<i64, AppError>)
    ensures
        r is Ok <==> parse_device_time_spec(body@) is Some,
        r matches Ok(t) ==> (parse_device_time_spec(body@) matches Some(c) && t == epoch_of(c)),
        r matches Err(e) ==> e is Operation,
{
    let n = body.unicode_len();
    let cleaned = strip_copy(body, 0, n, false);
    proof {
        assert(body@.subrange(0, n as int) =~= body@);
        assert(cleaned@ == clean_spec(body@));
    }
    if let Some(c) = parse_timestamp(cleaned.as_str()) {
        proof {
            assert(civil_wf(c));
        }
        return Ok(c.to_epoch_seconds());
    }
    if let Some(c) = parse_tokens(cleaned.as_str()) {
        proof {
            assert(token_parse_from(cleaned@, 0) matches Some(cc) && civil_wf(cc)) by {
                lemma_token_parse_wf(cleaned@, 0);
            }
        }
        return Ok(c.to_epoch_seconds());
    }
    let cn = cleaned.as_str().unicode_len();
    match find_eq(cleaned.as_str()) {
        Some(p) => {
            let tail = strip_copy(cleaned.as_str(), p + 1, cn, true);
            match parse_timestamp(tail.as_str()) {
                Some(c) => {
                    proof {
                        assert(civil_wf(c));
                    }
                    Ok(c.to_epoch_seconds())
                },
                None => Err(
                    AppError::Operation("device time response matched no timestamp format".to_owned()),
                ),
            }
        },
        None => Err(
            AppError::Operation("device time response matched no timestamp format".to_owned()),
        ),
    }
}

/// Any timestamp a format accepts is well-formed.
proof fn lemma_token_parse_wf(s: Seq<char>, i: int)
    requires
        token_parse_from(s, i) is Some,
    ensures
        token_parse_from(s, i) matches Some(c) && civil_wf(c),
    decreases s.len() - i,
{
    if i < 0 || i > s.len() {
    } else {
        let p = first_ws_from(s, i);
        if p < 0 {
        } else if i <= p < s.len() {
            if parse_any_format(s.subrange(i, p)) is Some {
            } else {
                lemma_token_parse_wf(s, p + 1);
            }
        }
    }
}

/// Time-parse robustness: a body consisting solely of a timestamp in one
/// of the configured formats parses successfully.
pub proof fn lemma_sole_timestamp_parses(body: Seq<char>)
    requires
        clean_spec(body) == body,
        parse_fmt_naive_space(body) is Some || parse_fmt_zulu(body) is Some || parse_fmt_offset_t(
            body,
        ) is Some || parse_fmt_offset_space(body) is Some,
    ensures
        parse_device_time_spec(body) is Some,
{
}

} // verus!
