//! `YYYY-MM-DDTHH:MM:SSZ` timestamps for the persisted update outcome,
//! on the proleptic Gregorian calendar.

use vstd::prelude::*;

use crate::allanime::{digits_value, is_digit, parse_u32, parse_u32_str};
use crate::text::{
    chars_of, decimal, decimal_padded, digit_char, push_char, push_decimal_padded, string_of_range,
};

verus! {

// ---------------------------------------------------------------------
// The calendar
// ---------------------------------------------------------------------

/// Gregorian leap year.
pub open spec fn is_leap(y: int) -> bool {
    y % 4 == 0 && (y % 100 != 0 || y % 400 == 0)
}

/// Days in month `m` (1–12) of year `y`.
pub open spec fn days_in_month(y: int, m: int) -> int {
    if m == 2 {
        if is_leap(y) {
            29
        } else {
            28
        }
    } else if m == 4 || m == 6 || m == 9 || m == 11 {
        30
    } else {
        31
    }
}

/// `(y, m, d)` names a day of the calendar.
pub open spec fn valid_date(y: int, m: int, d: int) -> bool {
    1 <= m <= 12 && 1 <= d <= days_in_month(y, m)
}

/// Leap years among 1..=y (counted the same way for y <= 0).
pub open spec fn leaps_through(y: int) -> int {
    y / 4 - y / 100 + y / 400
}

/// Days from 1970-01-01 to January 1st of year `y`.
pub open spec fn days_before_year(y: int) -> int {
    365 * (y - 1970) + leaps_through(y - 1) - leaps_through(1969)
}

/// Days of a common year before month `m` (1–12).
pub open spec fn common_days_before_month(m: int) -> int {
    if m == 1 {
        0
    } else if m == 2 {
        31
    } else if m == 3 {
        59
    } else if m == 4 {
        90
    } else if m == 5 {
        120
    } else if m == 6 {
        151
    } else if m == 7 {
        181
    } else if m == 8 {
        212
    } else if m == 9 {
        243
    } else if m == 10 {
        273
    } else if m == 11 {
        304
    } else {
        334
    }
}

/// Days of year `y` before month `m`.
pub open spec fn days_before_month(y: int, m: int) -> int {
    common_days_before_month(m) + if m > 2 && is_leap(y) {
        1int
    } else {
        0int
    }
}

/// Days from 1970-01-01 to `(y, m, d)` (negative before it); a day beyond
/// the month's end counts on into the next month.
pub open spec fn civil_to_days(y: int, m: int, d: int) -> int {
    days_before_year(y) + days_before_month(y, m) + d - 1
}

// ---------------------------------------------------------------------
// Day numbers from dates
// ---------------------------------------------------------------------

/// Days from March 1st to the first of month `mm` of a March-based year
/// (`mm` = 0 for March … 11 for February).
spec fn march_days(mm: int) -> int {
    (153 * mm + 2) / 5
}

#[verifier::spinoff_prover]
proof fn lemma_div_step(y: int, k: int)
    requires
        k == 4 || k == 100 || k == 400,
    ensures
        y / k - (y - 1) / k == if y % k == 0 {
            1int
        } else {
            0int
        },
{
}

#[verifier::spinoff_prover]
proof fn lemma_leap_step(y: int)
    ensures
        leaps_through(y) - leaps_through(y - 1) == if is_leap(y) {
            1int
        } else {
            0int
        },
{
    lemma_div_step(y, 4);
    lemma_div_step(y, 100);
    lemma_div_step(y, 400);
    assert(y % 400 == 0 ==> y % 100 == 0);
    assert(y % 100 == 0 ==> y % 4 == 0);
}

proof fn lemma_era_split(yp: int, era: int, yoe: int)
    requires
        yp == 400 * era + yoe,
        0 <= yoe < 400,
    ensures
        era * 146097 + yoe * 365 + yoe / 4 - yoe / 100 == 365 * yp + leaps_through(yp),
{
    assert(yp / 4 == 100 * era + yoe / 4);
    assert(yp / 100 == 4 * era + yoe / 100);
    assert(yp / 400 == era);
}

proof fn lemma_march_days_table(m: int)
    requires
        1 <= m <= 12,
    ensures
        m > 2 ==> march_days(m - 3) == common_days_before_month(m) - 59,
        m <= 2 ==> march_days(m + 9) == common_days_before_month(m) + 306,
{
}

/// Day number of `(y, m, d)` computed through 400-year eras and
/// March-based years, the way [`ymd_to_days`] computes it.
spec fn era_days(y: int, m: int, d: int) -> int {
    let yp = if m <= 2 {
        y - 1
    } else {
        y
    };
    let era = yp / 400;
    let yoe = yp % 400;
    let mm = if m > 2 {
        m - 3
    } else {
        m + 9
    };
    let doe = yoe * 365 + yoe / 4 - yoe / 100 + march_days(mm) + d - 1;
    era * 146097 + doe - 719468
}

proof fn lemma_era_days_is_civil(y: int, m: int, d: int)
    requires
        1 <= m <= 12,
    ensures
        era_days(y, m, d) == civil_to_days(y, m, d),
{
    let yp = if m <= 2 {
        y - 1
    } else {
        y
    };
    lemma_era_split(yp, yp / 400, yp % 400);
    lemma_march_days_table(m);
    lemma_leap_step(y);
}

/// The date's day number is computed without leaving the `i64` range:
/// the March-based year (one less for January and February), the era
/// times 146097, that plus the day of the era, and that minus 719468 each
/// fit. Only a date with a month in 1–12 and a day in 1–31 is computed.
pub open spec fn ymd_computable(y: int, m: int, d: int) -> bool {
    let yp = if m <= 2 {
        y - 1
    } else {
        y
    };
    let era = yp / 400;
    let yoe = yp % 400;
    let mm = if m > 2 {
        m - 3
    } else {
        m + 9
    };
    let doe = yoe * 365 + yoe / 4 - yoe / 100 + (153 * mm + 2) / 5 + d - 1;
    (1 <= m <= 12 && 1 <= d <= 31) ==> {
        &&& i64::MIN <= yp
        &&& i64::MIN <= era * 146097 <= i64::MAX
        &&& i64::MIN <= era * 146097 + doe <= i64::MAX
        &&& i64::MIN <= era * 146097 + doe - 719468 <= i64::MAX
    }
}

/// Day number of a date (days since 1970-01-01). `None` when the month is
/// outside 1–12 or the day outside 1–31; a day beyond the month's end
/// counts on into the next month.
pub fn ymd_to_days(y: i64, m: u32, d: u32) -> (r: Option<i64>)
    requires
        ymd_computable(y as int, m as int, d as int),
    ensures
        match r {
            Some(v) => 1 <= m <= 12 && 1 <= d <= 31 && v == civil_to_days(y as int, m as int, d as int),
            None => !(1 <= m <= 12 && 1 <= d <= 31),
        },
{
    if m < 1 || m > 12 || d < 1 || d > 31 {
        return None;
    }
    let yp: i128 = if m <= 2 {
        y as i128 - 1
    } else {
        y as i128
    };
    let shifted: i128 = yp + 14_411_518_807_585_587_200;
    let era: i128 = shifted / 400 - 36_028_797_018_963_968;
    let yoe: i128 = shifted % 400;
    assert(era == yp / 400 && yoe == yp % 400);
    let mm: i128 = if m > 2 {
        m as i128 - 3
    } else {
        m as i128 + 9
    };
    let doe: i128 = yoe * 365 + yoe / 4 - yoe / 100 + (153 * mm + 2) / 5 + d as i128 - 1;
    let days: i128 = era * 146097 + doe - 719468;
    proof {
        lemma_era_days_is_civil(y as int, m as int, d as int);
    }
    assert(days == era_days(y as int, m as int, d as int));
    Some(days as i64)
}

/// Days from March 1st of year `k` of an era to March 1st of its year 0
/// (ignoring the era's last leap day).
spec fn year_start(k: int) -> int {
    365 * k + k / 4 - k / 100
}

/// Month (0 = March … 11 = February) and its first day within a
/// March-based year, for day `doy` (0–365) of that year.
fn march_month(doy: i128) -> (r: (i128, i128))
    requires
        0 <= doy <= 365,
    ensures
        0 <= r.0 <= 11,
        r.1 == march_days(r.0 as int),
        r.1 <= doy,
        r.0 < 11 ==> doy < march_days(r.0 + 1),
{
    if doy < 31 {
        (0, 0)
    } else if doy < 61 {
        (1, 31)
    } else if doy < 92 {
        (2, 61)
    } else if doy < 122 {
        (3, 92)
    } else if doy < 153 {
        (4, 122)
    } else if doy < 184 {
        (5, 153)
    } else if doy < 214 {
        (6, 184)
    } else if doy < 245 {
        (7, 214)
    } else if doy < 275 {
        (8, 245)
    } else if doy < 306 {
        (9, 275)
    } else if doy < 337 {
        (10, 306)
    } else {
        (11, 337)
    }
}

/// Year of an era (0–399, March-based) holding day `doe` of the era.
fn year_of_era(doe: i128) -> (yoe: i128)
    requires
        0 <= doe < 146097,
    ensures
        0 <= yoe <= 399,
        year_start(yoe as int) <= doe,
        doe - year_start(yoe as int) <= 364 || (doe - year_start(yoe as int) == 365 && is_leap(
            yoe + 1,
        )),
{
    let q: i128 = doe / 365;
    let mut yoe: i128 = q;
    if yoe > 399 {
        yoe = 399;
    }
    if 365 * yoe + yoe / 4 - yoe / 100 > doe {
        assert(yoe >= 1);
        yoe = yoe - 1;
    }
    proof {
        if yoe < 399 {
            assert(year_start(yoe + 1) - year_start(yoe as int) == 365 + if is_leap(yoe + 1) {
                1int
            } else {
                0int
            });
        }
    }
    yoe
}

/// Month (1–12) and day of day `doy` of a March-based year; `leap`
/// tells whether its February has 29 days.
fn month_and_day(doy: i128, Ghost(leap): Ghost<bool>) -> (r: (i128, i128))
    requires
        0 <= doy <= 364 || (doy == 365 && leap),
    ensures
        1 <= r.0 <= 12,
        1 <= r.1,
        r.0 == 2 ==> r.1 <= if leap {
            29int
        } else {
            28int
        },
        r.0 != 2 ==> r.1 <= days_in_month(0, r.0 as int),
        doy == march_days(if r.0 > 2 {
            r.0 - 3
        } else {
            r.0 + 9
        }) + r.1 - 1,
{
    let (mp, start) = march_month(doy);
    let d: i128 = doy - start + 1;
    let m: i128 = if mp < 10 {
        mp + 3
    } else {
        mp - 9
    };
    (m, d)
}

/// The date of a day number (days since 1970-01-01).
pub fn days_to_ymd(days: i64) -> (r: (i32, u32, u32))
    requires
        -549_755_813_888 <= days <= 549_755_813_888,
    ensures
        valid_date(r.0 as int, r.1 as int, r.2 as int),
        civil_to_days(r.0 as int, r.1 as int, r.2 as int) == days,
{
    let z: i128 = days as i128 + 719468;
    let shifted: i128 = z + 146_097_000_000_000;
    let era: i128 = shifted / 146097 - 1_000_000_000;
    let doe: i128 = shifted % 146097;
    assert(z == 146097 * era + doe && 0 <= doe < 146097);
    assert(-3_800_000 <= era <= 3_800_000);
    let yoe = year_of_era(doe);
    let doy: i128 = doe - (365 * yoe + yoe / 4 - yoe / 100);
    let (m, d) = month_and_day(doy, Ghost(is_leap(yoe + 1)));
    let y: i128 = yoe + era * 400 + if m <= 2 {
        1
    } else {
        0
    };
    proof {
        lemma_date_of_era_day(era as int, yoe as int, doy as int, m as int, d as int, y as int);
    }
    (y as i32, m as u32, d as u32)
}

proof fn lemma_date_of_era_day(era: int, yoe: int, doy: int, m: int, d: int, y: int)
    requires
        0 <= yoe <= 399,
        1 <= m <= 12,
        1 <= d,
        m == 2 ==> d <= if is_leap(yoe + 1) {
            29int
        } else {
            28int
        },
        m != 2 ==> d <= days_in_month(0, m),
        doy == march_days(if m > 2 {
            m - 3
        } else {
            m + 9
        }) + d - 1,
        y == yoe + era * 400 + if m <= 2 {
            1int
        } else {
            0int
        },
    ensures
        valid_date(y, m, d),
        era_days(y, m, d) == era * 146097 + year_start(yoe) + doy - 719468,
        civil_to_days(y, m, d) == era * 146097 + year_start(yoe) + doy - 719468,
{
    let yp = y - if m <= 2 {
        1int
    } else {
        0int
    };
    assert(yp == 400 * era + yoe);
    assert(yp / 400 == era && yp % 400 == yoe);
    if m == 2 {
        assert(is_leap(y) == is_leap(yoe + 1));
    }
    lemma_era_days_is_civil(y, m, d);
}

proof fn lemma_year_length(y: int)
    ensures
        days_before_year(y + 1) == days_before_year(y) + 365 + if is_leap(y) {
            1int
        } else {
            0int
        },
{
    lemma_leap_step(y);
}

proof fn lemma_days_before_year_monotone(a: int, b: int)
    requires
        a <= b,
    ensures
        days_before_year(b) - days_before_year(a) >= 365 * (b - a),
    decreases b - a,
{
    if a < b {
        lemma_days_before_year_monotone(a, b - 1);
        lemma_year_length(b - 1);
    }
}

/// A valid date falls within its year.
proof fn lemma_date_within_year(y: int, m: int, d: int)
    requires
        valid_date(y, m, d),
    ensures
        days_before_year(y) <= civil_to_days(y, m, d) < days_before_year(y + 1),
{
    lemma_year_length(y);
}

/// Dates from 1970-01-01 up to 9999-12-31 are exactly the day numbers
/// `0..2932897`.
proof fn lemma_four_digit_years(y: int, m: int, d: int)
    requires
        valid_date(y, m, d),
        0 <= civil_to_days(y, m, d) < 2932897,
    ensures
        1970 <= y <= 9999,
{
    lemma_date_within_year(y, m, d);
    if y < 1970 {
        lemma_days_before_year_monotone(y + 1, 1970);
    }
    if y > 9999 {
        lemma_days_before_year_monotone(10000, y);
        assert(days_before_year(10000) == 2932897);
    }
}

// ---------------------------------------------------------------------
// Text
// ---------------------------------------------------------------------

/// `YYYY-MM-DDTHH:MM:SSZ`, each field zero-padded (the year to at least
/// four digits).
pub open spec fn iso_text(y: nat, m: nat, d: nat, h: nat, mi: nat, s: nat) -> Seq<char> {
    decimal_padded(y, 4) + seq!['-'] + decimal_padded(m, 2) + seq!['-'] + decimal_padded(d, 2)
        + seq!['T'] + decimal_padded(h, 2) + seq![':'] + decimal_padded(mi, 2) + seq![':']
        + decimal_padded(s, 2) + seq!['Z']
}

/// `t` is the text of `secs` seconds after the epoch: the date of day
/// `secs / 86400` and the time of day of the remaining seconds.
pub open spec fn formats_as(secs: u64, t: Seq<char>) -> bool {
    let rem = secs % 86400;
    exists|y: int, m: int, d: int|
        #![trigger civil_to_days(y, m, d)]
        valid_date(y, m, d) && civil_to_days(y, m, d) == secs / 86400 && 0 <= y && t == iso_text(
            y as nat,
            m as nat,
            d as nat,
            (rem / 3600) as nat,
            ((rem % 3600) / 60) as nat,
            (rem % 60) as nat,
        )
}

/// Formats seconds since the epoch as `YYYY-MM-DDTHH:MM:SSZ`.
pub fn format_epoch_secs(secs: u64) -> (r: String)
    requires
        secs / 86400 <= 549_755_813_888,
    ensures
        formats_as(secs, r@),
{
    let days = (secs / 86400) as i64;
    let rem = secs % 86400;
    let (y, m, d) = days_to_ymd(days);
    proof {
        lemma_date_within_year(y as int, m as int, d as int);
        if y < 1970 {
            lemma_days_before_year_monotone(y + 1, 1970);
        }
    }
    let h = rem / 3600;
    let mi = (rem % 3600) / 60;
    let s = rem % 60;
    let mut out = String::new();
    push_decimal_padded(&mut out, y as u64, 4);
    push_char(&mut out, '-');
    push_decimal_padded(&mut out, m as u64, 2);
    push_char(&mut out, '-');
    push_decimal_padded(&mut out, d as u64, 2);
    push_char(&mut out, 'T');
    push_decimal_padded(&mut out, h, 2);
    push_char(&mut out, ':');
    push_decimal_padded(&mut out, mi, 2);
    push_char(&mut out, ':');
    push_decimal_padded(&mut out, s, 2);
    push_char(&mut out, 'Z');
    assert(out@ =~= iso_text(y as nat, m as nat, d as nat, h as nat, mi as nat, s as nat));
    assert(civil_to_days(y as int, m as int, d as int) == secs / 86400);
    out
}

/// Every character of `s` is ASCII.
pub open spec fn all_ascii(s: Seq<char>) -> bool {
    forall|i: int| 0 <= i < s.len() ==> (#[trigger] s[i] as u32) < 128
}

/// A run of ASCII digits as its value; `None` when empty or not all digits.
pub open spec fn digits_only(d: Seq<char>) -> Option<int> {
    if d.len() == 0 || exists|i: int| 0 <= i < d.len() && !is_digit(#[trigger] d[i]) {
        None
    } else {
        Some(digits_value(d) as int)
    }
}

/// What `str::parse::<i64>` accepts of a short field: an optional sign,
/// then one or more ASCII digits.
pub open spec fn parse_signed(s: Seq<char>) -> Option<int> {
    if s.len() > 0 && s[0] == '-' {
        match digits_only(s.drop_first()) {
            Some(v) => Some(-v),
            None => None,
        }
    } else if s.len() > 0 && s[0] == '+' {
        digits_only(s.drop_first())
    } else {
        digits_only(s)
    }
}

/// The fields of `YYYY-MM-DDTHH:MM:SSZ`: twenty ASCII characters with `T`
/// at index 10 and `Z` at index 19, and six fields that parse as numbers
/// (the characters between them are not checked).
pub open spec fn iso_fields(r: Seq<char>) -> Option<(int, u32, u32, u32, u32, u32)> {
    if r.len() != 20 || !all_ascii(r) || r[19] != 'Z' || r[10] != 'T' {
        None
    } else {
        match (
            parse_signed(r.subrange(0, 4)),
            parse_u32(r.subrange(5, 7)),
            parse_u32(r.subrange(8, 10)),
            parse_u32(r.subrange(11, 13)),
            parse_u32(r.subrange(14, 16)),
            parse_u32(r.subrange(17, 19)),
        ) {
            (Some(y), Some(mo), Some(d), Some(h), Some(mi), Some(s)) => Some((y, mo, d, h, mi, s)),
            _ => None,
        }
    }
}

/// Seconds since the epoch of a `YYYY-MM-DDTHH:MM:SSZ` text: `None` when
/// the shape is wrong or the month is outside 1–12 or the day outside 1–31.
pub open spec fn iso_seconds(r: Seq<char>) -> Option<int> {
    match iso_fields(r) {
        Some((y, mo, d, h, mi, s)) => if 1 <= mo <= 12 && 1 <= d <= 31 {
            Some(civil_to_days(y, mo as int, d as int) * 86400 + h * 3600 + mi * 60 + s)
        } else {
            None
        },
        None => None,
    }
}

/// A well-shaped text naming a day before 1970-01-01.
pub open spec fn before_epoch(r: Seq<char>) -> bool {
    match iso_fields(r) {
        Some((y, mo, d, h, mi, s)) => 1 <= mo <= 12 && 1 <= d <= 31 && civil_to_days(
            y,
            mo as int,
            d as int,
        ) < 0,
        None => false,
    }
}

fn parse_signed_field(cs: &[char], lo: usize, hi: usize) -> (r: Option<i64>)
    requires
        lo <= hi <= cs.len(),
        hi - lo <= 4,
    ensures
        match r {
            Some(v) => parse_signed(cs@.subrange(lo as int, hi as int)) == Some(v as int) && -9999
                <= v <= 9999,
            None => parse_signed(cs@.subrange(lo as int, hi as int)) is None,
        },
{
    let ghost f = cs@.subrange(lo as int, hi as int);
    let neg = lo < hi && cs[lo] == '-';
    let plus = lo < hi && cs[lo] == '+';
    let start: usize = if neg || plus {
        lo + 1
    } else {
        lo
    };
    let ghost dd = cs@.subrange(start as int, hi as int);
    assert(dd == if neg || plus {
        f.drop_first()
    } else {
        f
    });
    assert(parse_signed(f) == if neg {
        match digits_only(dd) {
            Some(v) => Some(-v),
            None => None,
        }
    } else {
        digits_only(dd)
    });
    if start == hi {
        return None;
    }
    let mut acc: i64 = 0;
    let mut i: usize = start;
    while i < hi
        invariant
            lo <= start <= i <= hi <= cs.len(),
            hi - lo <= 4,
            dd == cs@.subrange(start as int, hi as int),
            f == cs@.subrange(lo as int, hi as int),
            parse_signed(f) == if neg {
                match digits_only(dd) {
                    Some(v) => Some(-v),
                    None => None,
                }
            } else {
                digits_only(dd)
            },
            forall|k: int| start <= k < i ==> is_digit(#[trigger] cs@[k]),
            acc == digits_value(cs@.subrange(start as int, i as int)),
            0 <= acc,
            acc <= if i - start == 0 {
                0int
            } else if i - start == 1 {
                9int
            } else if i - start == 2 {
                99int
            } else if i - start == 3 {
                999int
            } else {
                9999int
            },
        decreases hi - i,
    {
        let u = cs[i] as u32;
        if u < 48 || u > 57 {
            assert(!is_digit(dd[i - start]));
            assert(digits_only(dd) is None);
            return None;
        }
        assert(cs@.subrange(start as int, i + 1).drop_last() == cs@.subrange(start as int, i as int));
        acc = acc * 10 + (u - 48) as i64;
        i = i + 1;
    }
    assert(forall|k: int| 0 <= k < dd.len() ==> is_digit(#[trigger] dd[k]) <== is_digit(cs@[start + k]));
    assert(cs@.subrange(start as int, hi as int) == dd);
    if neg {
        Some(-acc)
    } else {
        Some(acc)
    }
}

/// Parses `YYYY-MM-DDTHH:MM:SSZ` into seconds since the epoch (see
/// [`iso_seconds`]). Texts naming a day before 1970 are not accepted.
pub fn parse_iso8601_z(raw: &str) -> (r: Option<u64>)
    requires
        !before_epoch(raw@),
    ensures
        match r {
            Some(v) => iso_seconds(raw@) == Some(v as int),
            None => iso_seconds(raw@) is None,
        },
{
    let cs = chars_of(raw);
    if cs.len() != 20 {
        return None;
    }
    let mut i: usize = 0;
    while i < 20
        invariant
            i <= 20,
            cs@.len() == 20,
            cs@ == raw@,
            forall|k: int| 0 <= k < i ==> (#[trigger] cs@[k] as u32) < 128,
        decreases 20 - i,
    {
        if cs[i] as u32 >= 128 {
            assert(!all_ascii(cs@));
            return None;
        }
        i = i + 1;
    }
    assert(all_ascii(cs@));
    if cs[19] != 'Z' || cs[10] != 'T' {
        return None;
    }
    let y = match parse_signed_field(cs.as_slice(), 0, 4) {
        Some(v) => v,
        None => return None,
    };
    let mo = match parse_u32_str(string_of_range(cs.as_slice(), 5, 7).as_str()) {
        Some(v) => v,
        None => return None,
    };
    let d = match parse_u32_str(string_of_range(cs.as_slice(), 8, 10).as_str()) {
        Some(v) => v,
        None => return None,
    };
    let h = match parse_u32_str(string_of_range(cs.as_slice(), 11, 13).as_str()) {
        Some(v) => v,
        None => return None,
    };
    let mi = match parse_u32_str(string_of_range(cs.as_slice(), 14, 16).as_str()) {
        Some(v) => v,
        None => return None,
    };
    let s = match parse_u32_str(string_of_range(cs.as_slice(), 17, 19).as_str()) {
        Some(v) => v,
        None => return None,
    };
    assert(iso_fields(raw@) == Some((y as int, mo, d, h, mi, s)));
    let days = match ymd_to_days(y, mo, d) {
        Some(v) => v,
        None => return None,
    };
    proof {
        lemma_date_bound(y as int, mo as int, d as int);
    }
    assert(0 <= days < 3_000_000);
    Some(days as u64 * 86400 + h as u64 * 3600 + mi as u64 * 60 + s as u64)
}

proof fn lemma_date_bound(y: int, m: int, d: int)
    requires
        y <= 9999,
        1 <= m <= 12,
        1 <= d <= 31,
    ensures
        civil_to_days(y, m, d) < 3_000_000,
{
    lemma_days_before_year_monotone(y, 10000);
    assert(days_before_year(10000) == 2932897);
}

proof fn lemma_digit_char(k: nat)
    ensures
        digit_char(k) as u32 == (k % 10) + 48,
        is_digit(digit_char(k)),
{
    let v = (k % 10) + 48;
    assert(48 <= v <= 57);
}

proof fn lemma_decimal_facts(n: nat)
    ensures
        forall|i: int| 0 <= i < decimal(n).len() ==> is_digit(#[trigger] decimal(n)[i]),
        digits_value(decimal(n)) == n,
        n < 10 ==> decimal(n).len() == 1,
        10 <= n < 100 ==> decimal(n).len() == 2,
        100 <= n < 1000 ==> decimal(n).len() == 3,
        1000 <= n < 10000 ==> decimal(n).len() == 4,
    decreases n,
{
    lemma_digit_char(n);
    assert(digits_value(Seq::<char>::empty()) == 0);
    if n < 10 {
        assert(decimal(n).drop_last() =~= Seq::<char>::empty());
        assert(decimal(n).last() == digit_char(n));
    } else {
        lemma_decimal_facts(n / 10);
        let s = decimal(n);
        assert(s.drop_last() == decimal(n / 10));
        assert(s.last() == digit_char(n % 10));
        lemma_digit_char(n % 10);
        assert forall|i: int| 0 <= i < s.len() implies is_digit(#[trigger] s[i]) by {
            if i < s.len() - 1 {
                assert(s[i] == decimal(n / 10)[i]);
            }
        }
    }
}

proof fn lemma_leading_zero(x: Seq<char>)
    ensures
        digits_value(seq!['0'] + x) == digits_value(x),
    decreases x.len(),
{
    assert(digits_value(Seq::<char>::empty()) == 0);
    if x.len() > 0 {
        lemma_leading_zero(x.drop_last());
        assert((seq!['0'] + x).drop_last() == seq!['0'] + x.drop_last());
        assert((seq!['0'] + x).last() == x.last());
    } else {
        assert((seq!['0'] + x).drop_last() =~= Seq::<char>::empty());
        assert((seq!['0'] + x).last() == '0');
        assert(x =~= Seq::<char>::empty());
    }
}

proof fn lemma_two_digits(n: nat)
    requires
        n < 100,
    ensures
        decimal_padded(n, 2).len() == 2,
        all_ascii(decimal_padded(n, 2)),
        parse_u32(decimal_padded(n, 2)) == Some(n as u32),
{
    lemma_decimal_facts(n);
    let p = decimal_padded(n, 2);
    if n < 10 {
        assert(p == seq!['0'] + decimal(n));
        lemma_leading_zero(decimal(n));
        assert(p[0] == '0');
        assert(is_digit(p[1])) by {
            assert(p[1] == decimal(n)[0]);
        }
    } else {
        assert(p == decimal(n));
    }
    assert(forall|i: int| 0 <= i < 2 ==> is_digit(#[trigger] p[i]));
    assert(!(exists|i: int| 0 <= i < p.len() && !is_digit(#[trigger] p[i])));
}

/// Where each field of an ISO text stands, for a four-digit year.
#[verifier::spinoff_prover]
proof fn lemma_iso_text_layout(y: nat, m: nat, d: nat, h: nat, mi: nat, s: nat)
    requires
        1000 <= y <= 9999,
        m < 100,
        d < 100,
        h < 100,
        mi < 100,
        s < 100,
    ensures
        iso_text(y, m, d, h, mi, s).len() == 20,
        iso_text(y, m, d, h, mi, s).subrange(0, 4) == decimal(y),
        iso_text(y, m, d, h, mi, s).subrange(5, 7) == decimal_padded(m, 2),
        iso_text(y, m, d, h, mi, s).subrange(8, 10) == decimal_padded(d, 2),
        iso_text(y, m, d, h, mi, s).subrange(11, 13) == decimal_padded(h, 2),
        iso_text(y, m, d, h, mi, s).subrange(14, 16) == decimal_padded(mi, 2),
        iso_text(y, m, d, h, mi, s).subrange(17, 19) == decimal_padded(s, 2),
        iso_text(y, m, d, h, mi, s)[4] == '-',
        iso_text(y, m, d, h, mi, s)[7] == '-',
        iso_text(y, m, d, h, mi, s)[10] == 'T',
        iso_text(y, m, d, h, mi, s)[13] == ':',
        iso_text(y, m, d, h, mi, s)[16] == ':',
        iso_text(y, m, d, h, mi, s)[19] == 'Z',
{
    lemma_decimal_facts(y);
    lemma_two_digits(m);
    lemma_two_digits(d);
    lemma_two_digits(h);
    lemma_two_digits(mi);
    lemma_two_digits(s);
    let ys = decimal(y);
    assert(decimal_padded(y, 4) == ys);
    let t = iso_text(y, m, d, h, mi, s);
    assert(t.subrange(0, 4) =~= ys);
    assert(t.subrange(5, 7) =~= decimal_padded(m, 2));
    assert(t.subrange(8, 10) =~= decimal_padded(d, 2));
    assert(t.subrange(11, 13) =~= decimal_padded(h, 2));
    assert(t.subrange(14, 16) =~= decimal_padded(mi, 2));
    assert(t.subrange(17, 19) =~= decimal_padded(s, 2));
}

/// An ISO text with a four-digit year is ASCII and reads back as its fields.
#[verifier::spinoff_prover]
proof fn lemma_iso_text_fields(y: nat, m: nat, d: nat, h: nat, mi: nat, s: nat)
    requires
        1000 <= y <= 9999,
        m < 100,
        d < 100,
        h < 100,
        mi < 100,
        s < 100,
    ensures
        iso_fields(iso_text(y, m, d, h, mi, s)) == Some(
            (y as int, m as u32, d as u32, h as u32, mi as u32, s as u32),
        ),
{
    lemma_iso_text_layout(y, m, d, h, mi, s);
    lemma_decimal_facts(y);
    lemma_two_digits(m);
    lemma_two_digits(d);
    lemma_two_digits(h);
    lemma_two_digits(mi);
    lemma_two_digits(s);
    let t = iso_text(y, m, d, h, mi, s);
    let ys = decimal(y);
    assert(all_ascii(t)) by {
        assert forall|i: int| 0 <= i < 20 implies (#[trigger] t[i] as u32) < 128 by {
            if i < 4 {
                assert(t[i] == t.subrange(0, 4)[i]);
                assert(is_digit(ys[i]));
            } else if 5 <= i < 7 {
                assert(t[i] == t.subrange(5, 7)[i - 5]);
            } else if 8 <= i < 10 {
                assert(t[i] == t.subrange(8, 10)[i - 8]);
            } else if 11 <= i < 13 {
                assert(t[i] == t.subrange(11, 13)[i - 11]);
            } else if 14 <= i < 16 {
                assert(t[i] == t.subrange(14, 16)[i - 14]);
            } else if 17 <= i < 19 {
                assert(t[i] == t.subrange(17, 19)[i - 17]);
            }
        }
    }
    assert(is_digit(ys[0]));
    assert(!(exists|i: int| 0 <= i < ys.len() && !is_digit(#[trigger] ys[i])));
    assert(parse_signed(ys) == Some(y as int));
}

/// Splitting seconds into days, hours, minutes and seconds and adding them
/// back gives the same number.
proof fn lemma_seconds_split(secs: int)
    requires
        0 <= secs,
    ensures
        (secs / 86400) * 86400 + ((secs % 86400) / 3600) * 3600 + (((secs % 86400) % 3600) / 60)
            * 60 + (secs % 86400) % 60 == secs,
        (secs % 86400) / 3600 < 24,
{
    let rem = secs % 86400;
    assert(secs == (secs / 86400) * 86400 + rem) by (nonlinear_arith)
        requires
            rem == secs % 86400,
    ;
    assert(rem == (rem / 3600) * 3600 + rem % 3600) by (nonlinear_arith);
    assert(rem % 3600 == ((rem % 3600) / 60) * 60 + (rem % 3600) % 60) by (nonlinear_arith);
    assert((rem % 3600) % 60 == rem % 60) by (nonlinear_arith)
        requires
            0 <= rem,
    ;
}

/// Writing a time and reading it back gives the same second, for every
/// instant from 1970-01-01T00:00:00Z up to 9999-12-31T23:59:59Z.
pub proof fn law_iso_round_trip(secs: u64, t: Seq<char>)
    requires
        secs < 253_402_300_800,
        formats_as(secs, t),
    ensures
        !before_epoch(t),
        iso_seconds(t) == Some(secs as int),
{
    let rem = secs % 86400;
    let (y, m, d) = choose|y: int, m: int, d: int|
        #![trigger civil_to_days(y, m, d)]
        valid_date(y, m, d) && civil_to_days(y, m, d) == secs / 86400 && 0 <= y && t == iso_text(
            y as nat,
            m as nat,
            d as nat,
            (rem / 3600) as nat,
            ((rem % 3600) / 60) as nat,
            (rem % 60) as nat,
        );
    lemma_four_digit_years(y, m, d);
    lemma_seconds_split(secs as int);
    lemma_iso_text_fields(
        y as nat,
        m as nat,
        d as nat,
        (rem / 3600) as nat,
        ((rem % 3600) / 60) as nat,
        (rem % 60) as nat,
    );
}

} // verus!
