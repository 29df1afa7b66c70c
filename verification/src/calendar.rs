//! Days and dates of the Gregorian calendar, and UTC timestamps.

use crate::text::{dec, decimal_padded, digits_value, law_padded_number, zero_padded};
use vstd::prelude::*;

verus! {

// ---------------------------------------------------------------------------
// The calendar
// ---------------------------------------------------------------------------

/// Whether `y` is a leap year.
pub open spec fn is_leap(y: int) -> bool {
    y % 4 == 0 && (y % 100 != 0 || y % 400 == 0)
}

/// How many days the month `m` of the year `y` has.
pub open spec fn days_in_month(y: int, m: int) -> int {
    if m == 2 {
        if is_leap(y) {
            29
        } else {
            28
        }
    } else if m == 4 || m == 6 || m == 9 || m == 11 {
        30
    } else {
        31
    }
}

/// How many days of the year `y` lie before its month `m`.
pub open spec fn days_before_month(y: int, m: int) -> int
    decreases m,
{
    if m <= 1 {
        0
    } else {
        days_before_month(y, m - 1) + days_in_month(y, m - 1)
    }
}

/// How many days lie between the start of the year 1 and the start of the year `y`;
/// negative for earlier years.
pub open spec fn days_before_year(y: int) -> int {
    365 * (y - 1) + (y - 1) / 4 - (y - 1) / 100 + (y - 1) / 400
}

/// Whether `(y, m, d)` is a day of the calendar.
pub open spec fn is_date(y: int, m: int, d: int) -> bool {
    1 <= m <= 12 && 1 <= d <= days_in_month(y, m)
}

/// The number of the day `(y, m, d)`, counted from 1970-01-01 as day zero.
pub open spec fn day_number(y: int, m: int, d: int) -> int {
    days_before_year(y) - days_before_year(1970) + days_before_month(y, m) + d - 1
}

/// The date of the day with the number `n`.
pub open spec fn date_of(n: int) -> (int, int, int) {
    choose|t: (int, int, int)| #[trigger] is_date(t.0, t.1, t.2) && day_number(t.0, t.1, t.2) == n
}

/// A year has 365 days, a leap year 366: the count of days before a year grows by just that.
pub proof fn law_year_length(y: int)
    ensures
        days_before_year(y + 1) - days_before_year(y) == (if is_leap(y) {
            366int
        } else {
            365int
        }),
        days_before_month(y, 13) == days_before_year(y + 1) - days_before_year(y),
{
    reveal_with_fuel(days_before_month, 14);
}

proof fn lemma_months(y: int)
    ensures
        days_before_month(y, 1) == 0,
        days_before_month(y, 2) == 31,
        days_before_month(y, 3) == 31 + days_in_month(y, 2),
        days_before_month(y, 4) == 62 + days_in_month(y, 2),
        days_before_month(y, 5) == 92 + days_in_month(y, 2),
        days_before_month(y, 6) == 123 + days_in_month(y, 2),
        days_before_month(y, 7) == 153 + days_in_month(y, 2),
        days_before_month(y, 8) == 184 + days_in_month(y, 2),
        days_before_month(y, 9) == 215 + days_in_month(y, 2),
        days_before_month(y, 10) == 245 + days_in_month(y, 2),
        days_before_month(y, 11) == 276 + days_in_month(y, 2),
        days_before_month(y, 12) == 306 + days_in_month(y, 2),
{
    reveal_with_fuel(days_before_month, 13);
}

proof fn lemma_in_year(y: int, m: int, d: int)
    requires
        is_date(y, m, d),
    ensures
        0 <= days_before_month(y, m) + d - 1 < days_before_year(y + 1) - days_before_year(y),
{
    lemma_months(y);
}

/// A later date has a greater day number.
pub proof fn law_later_date_greater_number(
    y1: int,
    m1: int,
    d1: int,
    y2: int,
    m2: int,
    d2: int,
)
    requires
        is_date(y1, m1, d1),
        is_date(y2, m2, d2),
        y1 < y2 || (y1 == y2 && (m1 < m2 || (m1 == m2 && d1 < d2))),
    ensures
        day_number(y1, m1, d1) < day_number(y2, m2, d2),
{
    lemma_in_year(y1, m1, d1);
    lemma_in_year(y2, m2, d2);
    lemma_months(y1);
    lemma_months(y2);
    if y1 < y2 {
        assert(days_before_year(y1 + 1) <= days_before_year(y2));
    }
}

/// The date of a day is the only one with its number.
pub proof fn law_date_of(y: int, m: int, d: int)
    requires
        is_date(y, m, d),
    ensures
        date_of(day_number(y, m, d)) == (y, m, d),
{
    let n = day_number(y, m, d);
    let t = date_of(n);
    let w = (y, m, d);
    assert(is_date(w.0, w.1, w.2) && day_number(w.0, w.1, w.2) == n);
    assert(is_date(t.0, t.1, t.2) && day_number(t.0, t.1, t.2) == n);
    let earlier = y < t.0 || (y == t.0 && (m < t.1 || (m == t.1 && d < t.2)));
    let later = t.0 < y || (t.0 == y && (t.1 < m || (t.1 == m && t.2 < d)));
    if earlier {
        law_later_date_greater_number(y, m, d, t.0, t.1, t.2);
    }
    if later {
        law_later_date_greater_number(t.0, t.1, t.2, y, m, d);
    }
}

// ---------------------------------------------------------------------------
// From a day number to a date
// ---------------------------------------------------------------------------

/// Within four hundred years that start on a first of March: the year and the day in it.
proof fn lemma_year_of_era(doe: int, yoe: int, doy: int)
    requires
        0 <= doe < 146097,
        yoe == (doe - doe / 1460 + doe / 36524 - doe / 146096) / 365,
        doy == doe - (365 * yoe + yoe / 4 - yoe / 100),
    ensures
        0 <= yoe < 400,
        0 <= doy <= 365,
        doy == 365 ==> is_leap(yoe + 1),
{
}

/// Within a year that starts on a first of March: the month and the day in it.
proof fn lemma_month_of_year(doy: int, mp: int, d: int)
    requires
        0 <= doy <= 365,
        mp == (5 * doy + 2) / 153,
        d == doy - (153 * mp + 2) / 5 + 1,
    ensures
        0 <= mp <= 11,
        mp == 0 ==> doy == d - 1 && 1 <= d <= 31,
        mp == 1 ==> doy == 31 + d - 1 && 1 <= d <= 30,
        mp == 2 ==> doy == 61 + d - 1 && 1 <= d <= 31,
        mp == 3 ==> doy == 92 + d - 1 && 1 <= d <= 30,
        mp == 4 ==> doy == 122 + d - 1 && 1 <= d <= 31,
        mp == 5 ==> doy == 153 + d - 1 && 1 <= d <= 31,
        mp == 6 ==> doy == 184 + d - 1 && 1 <= d <= 30,
        mp == 7 ==> doy == 214 + d - 1 && 1 <= d <= 31,
        mp == 8 ==> doy == 245 + d - 1 && 1 <= d <= 30,
        mp == 9 ==> doy == 275 + d - 1 && 1 <= d <= 31,
        mp == 10 ==> doy == 306 + d - 1 && 1 <= d <= 31,
        mp == 11 ==> doy == 337 + d - 1 && 1 <= d <= 29,
        mp == 11 && d == 29 ==> doy == 365,
{
}

proof fn lemma_shift(a: int, era: int)
    ensures
        (a + era * 400) / 4 == a / 4 + era * 100,
        (a + era * 400) / 100 == a / 100 + era * 4,
        (a + era * 400) / 400 == a / 400 + era,
        (a + era * 400) % 4 == a % 4,
        (a + era * 400) % 100 == a % 100,
        (a + era * 400) % 400 == a % 400,
{
    assert((a + era * 400) / 4 == a / 4 + era * 100);
    assert((a + era * 400) / 100 == a / 100 + era * 4);
    assert((a + era * 400) / 400 == a / 400 + era);
}

/// The calendar repeats every four hundred years.
proof fn lemma_era(era: int, yoe: int)
    requires
        0 <= yoe < 400,
    ensures
        days_before_year(yoe + era * 400) == days_before_year(yoe) + era * 146097,
        is_leap(yoe + era * 400) == is_leap(yoe),
        days_before_year(yoe + 1 + era * 400) == days_before_year(yoe + 1) + era * 146097,
        is_leap(yoe + 1 + era * 400) == is_leap(yoe + 1),
{
    lemma_shift(yoe - 1, era);
    lemma_shift(yoe, era);
    lemma_shift(yoe + 1, era);
    assert(yoe + era * 400 - 1 == yoe - 1 + era * 400);
    assert(yoe + 1 + era * 400 - 1 == yoe + era * 400);
}

proof fn lemma_civil(era: int, doe: int, yoe: int, doy: int, mp: int, d: int, mo: int, y: int)
    requires
        0 <= doe < 146097,
        yoe == (doe - doe / 1460 + doe / 36524 - doe / 146096) / 365,
        doy == doe - (365 * yoe + yoe / 4 - yoe / 100),
        mp == (5 * doy + 2) / 153,
        d == doy - (153 * mp + 2) / 5 + 1,
        mo == (if mp < 10 {
            mp + 3
        } else {
            mp - 9
        }),
        y == yoe + era * 400 + (if mo <= 2 {
            1int
        } else {
            0int
        }),
    ensures
        is_date(y, mo, d),
        day_number(y, mo, d) == era * 146097 + doe - 719468,
{
    lemma_year_of_era(doe, yoe, doy);
    lemma_month_of_year(doy, mp, d);
    lemma_era(era, yoe);
    lemma_months(y);
    law_year_length(yoe);
}

/// Every day has a date: the date of a day is one of the calendar, and its number is that day.
pub proof fn law_date_of_day(n: int)
    ensures
        is_date(date_of(n).0, date_of(n).1, date_of(n).2),
        day_number(date_of(n).0, date_of(n).1, date_of(n).2) == n,
{
    let z = n + 719468;
    let era = z / 146097;
    let doe = z % 146097;
    let yoe = (doe - doe / 1460 + doe / 36524 - doe / 146096) / 365;
    let doy = doe - (365 * yoe + yoe / 4 - yoe / 100);
    let mp = (5 * doy + 2) / 153;
    let d = doy - (153 * mp + 2) / 5 + 1;
    let mo = if mp < 10 {
        mp + 3
    } else {
        mp - 9
    };
    let y = yoe + era * 400 + (if mo <= 2 {
        1int
    } else {
        0int
    });
    lemma_civil(era, doe, yoe, doy, mp, d, mo, y);
    let t = (y, mo, d);
    assert(is_date(t.0, t.1, t.2) && day_number(t.0, t.1, t.2) == n);
}

/// A day count kept in 64 bits as two's complement.
pub open spec fn signed_days(days: u64) -> int {
    if days <= i64::MAX {
        days as int
    } else {
        days - 0x1_0000_0000_0000_0000
    }
}

/// A year as it is shown: 1970 stands for the years that 32 bits cannot hold.
pub open spec fn shown_year(y: int) -> int {
    if 0 <= y <= u32::MAX {
        y
    } else {
        1970
    }
}

/// The date of the day `days` days after 1970-01-01, the count taken as two's complement.
pub fn days_to_ymd(days: u64) -> (r: (u32, u32, u32))
    requires
        signed_days(days) + 719_468 <= i64::MAX,
    ensures
        r.0 == shown_year(date_of(signed_days(days)).0),
        r.1 == date_of(signed_days(days)).1,
        r.2 == date_of(signed_days(days)).2,
{
    let n: i64 = if days <= i64::MAX as u64 {
        days as i64
    } else {
        -((u64::MAX - days) as i64) - 1
    };
    let z: i64 = n + 719_468;
    let era: i64 = if z >= 0 {
        z / 146_097
    } else {
        -((-(z + 1)) / 146_097) - 1
    };
    let doe: i64 = z - era * 146_097;
    let yoe: i64 = (doe - doe / 1460 + doe / 36524 - doe / 146_096) / 365;
    proof {
        lemma_year_of_era(
            doe as int,
            yoe as int,
            doe - (365 * yoe + yoe as int / 4 - yoe as int / 100),
        );
    }
    let doy: i64 = doe - (365 * yoe + yoe / 4 - yoe / 100);
    let mp: i64 = (5 * doy + 2) / 153;
    proof {
        lemma_month_of_year(doy as int, mp as int, doy - (153 * mp + 2) / 5 + 1);
    }
    let d: i64 = doy - (153 * mp + 2) / 5 + 1;
    let mo: i64 = if mp < 10 {
        mp + 3
    } else {
        mp - 9
    };
    let march_year: i64 = yoe + era * 400;
    let y: i64 = if mo <= 2 {
        march_year + 1
    } else {
        march_year
    };
    proof {
        lemma_civil(
            era as int,
            doe as int,
            yoe as int,
            doy as int,
            mp as int,
            d as int,
            mo as int,
            y as int,
        );
        law_date_of(y as int, mo as int, d as int);
    }
    let shown: u32 = if 0 <= y && y <= u32::MAX as i64 {
        y as u32
    } else {
        1970
    };
    (shown, mo as u32, d as u32)
}

/// A point in time as `YYYY-MM-DDThh:mm:ssZ`.
pub open spec fn timestamp(secs: u64) -> Seq<char> {
    let t = date_of((secs / 86400) as int);
    let in_day = secs % 86400;
    zero_padded(dec(shown_year(t.0) as nat), 4) + "-"@ + zero_padded(dec(t.1 as nat), 2) + "-"@
        + zero_padded(dec(t.2 as nat), 2) + "T"@ + zero_padded(dec((in_day / 3600) as nat), 2)
        + ":"@ + zero_padded(dec(((in_day % 3600) / 60) as nat), 2) + ":"@ + zero_padded(
        dec((in_day % 60) as nat),
        2,
    ) + "Z"@
}

/// The point in time `secs` seconds after the Unix epoch as `YYYY-MM-DDThh:mm:ssZ`.
pub fn format_unix_secs(secs: u64) -> (r: String)
    ensures
        r@ == timestamp(secs),
{
    let days: u64 = secs / 86400;
    let time: u64 = secs % 86400;
    let h: u64 = time / 3600;
    let m: u64 = (time % 3600) / 60;
    let s: u64 = time % 60;
    let (y, mo, d) = days_to_ymd(days);
    decimal_padded(y, 4).concat("-").concat(decimal_padded(mo, 2).as_str()).concat("-").concat(
        decimal_padded(d, 2).as_str(),
    ).concat("T").concat(decimal_padded(h as u32, 2).as_str()).concat(":").concat(
        decimal_padded(m as u32, 2).as_str(),
    ).concat(":").concat(decimal_padded(s as u32, 2).as_str()).concat("Z")
}

/// A point in time is written in the fixed places of `YYYY-MM-DDThh:mm:ssZ`: the numbers that stand
/// there are those of the day's date, and hours, minutes and seconds that make up the time of day.
pub proof fn law_timestamp(secs: u64)
    requires
        0 <= date_of((secs / 86400) as int).0 < 10000,
    ensures
        ({
            let t = timestamp(secs);
            let day = date_of((secs / 86400) as int);
            let field = |from: int, to: int| digits_value(t.subrange(from, to));
            &&& t.len() == 20
            &&& t[4] == '-' && t[7] == '-' && t[10] == 'T' && t[13] == ':' && t[16] == ':' && t[19]
                == 'Z'
            &&& field(0, 4) == Some(day.0 as nat)
            &&& field(5, 7) == Some(day.1 as nat)
            &&& field(8, 10) == Some(day.2 as nat)
            &&& match (field(11, 13), field(14, 16), field(17, 19)) {
                (Some(h), Some(m), Some(s)) => h < 24 && m < 60 && s < 60 && h * 3600 + m * 60 + s
                    == secs % 86400,
                _ => false,
            }
        }),
{
    let t = timestamp(secs);
    let day = date_of((secs / 86400) as int);
    law_date_of_day((secs / 86400) as int);
    let in_day = secs % 86400;
    let h = (in_day / 3600) as nat;
    let m = ((in_day % 3600) / 60) as nat;
    let s = (in_day % 60) as nat;
    assert(h < 24 && m < 60 && s < 60 && h * 3600 + m * 60 + s == in_day);
    let a = zero_padded(dec(day.0 as nat), 4);
    let b = zero_padded(dec(day.1 as nat), 2);
    let c = zero_padded(dec(day.2 as nat), 2);
    let d = zero_padded(dec(h), 2);
    let e = zero_padded(dec(m), 2);
    let f = zero_padded(dec(s), 2);
    law_padded_number(day.0 as nat, 4);
    law_padded_number(day.1 as nat, 2);
    law_padded_number(day.2 as nat, 2);
    law_padded_number(h, 2);
    law_padded_number(m, 2);
    law_padded_number(s, 2);
    reveal_strlit("-");
    reveal_strlit("T");
    reveal_strlit(":");
    reveal_strlit("Z");
    assert(t == a + "-"@ + b + "-"@ + c + "T"@ + d + ":"@ + e + ":"@ + f + "Z"@);
    assert(t.subrange(0, 4) =~= a);
    assert(t.subrange(5, 7) =~= b);
    assert(t.subrange(8, 10) =~= c);
    assert(t.subrange(11, 13) =~= d);
    assert(t.subrange(14, 16) =~= e);
    assert(t.subrange(17, 19) =~= f);
    assert(digits_value(d) == Some(h) && digits_value(e) == Some(m) && digits_value(f) == Some(s));
}

/// A year that 32 bits can hold is shown as it is, and any other as 1970.
pub proof fn law_shown_year(y: int)
    ensures
        0 <= y <= u32::MAX ==> shown_year(y) == y,
        y < 0 || y > u32::MAX ==> shown_year(y) == 1970,
{
}

/// A day count is taken as two's complement of 64 bits.
pub proof fn law_signed_days(days: u64)
    ensures
        signed_days(days) == days as i64,
{
    if days > i64::MAX {
        assert(days as i64 == days - 0x1_0000_0000_0000_0000) by (bit_vector)
            requires
                days > 0x7fff_ffff_ffff_ffffu64,
        ;
    }
}

} // verus!
