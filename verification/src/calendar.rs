//! The proleptic Gregorian calendar in UTC.

use vstd::prelude::*;

use crate::text;

verus! {

/// Whether `year` has a 29th of February.
pub open spec fn is_leap(year: int) -> bool {
    year % 4 == 0 && (year % 100 != 0 || year % 400 == 0)
}

/// The number of days of a month.
pub open spec fn days_in_month(year: int, month: int) -> int {
    if month == 2 {
        if is_leap(year) {
            29
        } else {
            28
        }
    } else if month == 4 || month == 6 || month == 9 || month == 11 {
        30
    } else {
        31
    }
}

/// The number of days of a year that lie before the first of `month`.
pub open spec fn days_before_month(year: int, month: int) -> int
    decreases month,
{
    if month <= 1 {
        0
    } else {
        days_before_month(year, month - 1) + days_in_month(year, month - 1)
    }
}

/// The number of days from the first of January of year 0 to that of `year`:
/// 365 for each year, and one more for each leap year among them.
pub open spec fn days_before_year(year: int) -> int {
    365 * year + (year + 3) / 4 - (year + 99) / 100 + (year + 399) / 400
}

/// The number of days from the first of January of year 0 to that of 1970.
pub const EPOCH_DAY: i64 = 719_528;

/// A day of the calendar.
#[derive(Clone, Copy, PartialEq, Eq, Debug)]
pub struct CivilDate {
    pub year: i64,
    pub month: i64,
    pub day: i64,
}

impl CivilDate {
    /// Whether the calendar has this day.
    pub open spec fn valid(self) -> bool {
        1 <= self.month <= 12 && 1 <= self.day <= days_in_month(self.year as int, self.month as int)
    }

    /// The number of days from the first of January 1970 to this day.
    pub open spec fn day_number(self) -> int {
        days_before_year(self.year as int) + days_before_month(self.year as int, self.month as int)
            + self.day - 1 - EPOCH_DAY
    }
}

/// The first days of the months, counted from the first of January.
proof fn lemma_month_offsets(year: int)
    ensures
        days_before_month(year, 1) == 0,
        days_before_month(year, 2) == 31,
        ({
            let leap_day = if is_leap(year) {
                1int
            } else {
                0int
            };
            &&& days_before_month(year, 3) == 59 + leap_day
            &&& days_before_month(year, 4) == 90 + leap_day
            &&& days_before_month(year, 5) == 120 + leap_day
            &&& days_before_month(year, 6) == 151 + leap_day
            &&& days_before_month(year, 7) == 181 + leap_day
            &&& days_before_month(year, 8) == 212 + leap_day
            &&& days_before_month(year, 9) == 243 + leap_day
            &&& days_before_month(year, 10) == 273 + leap_day
            &&& days_before_month(year, 11) == 304 + leap_day
            &&& days_before_month(year, 12) == 334 + leap_day
        }),
{
    assert(days_before_month(year, 1) == 0);
    assert(days_before_month(year, 2) == 31);
    assert(days_before_month(year, 3) == 31 + days_in_month(year, 2));
    assert(days_before_month(year, 4) == days_before_month(year, 3) + 31);
    assert(days_before_month(year, 5) == days_before_month(year, 4) + 30);
    assert(days_before_month(year, 6) == days_before_month(year, 5) + 31);
    assert(days_before_month(year, 7) == days_before_month(year, 6) + 30);
    assert(days_before_month(year, 8) == days_before_month(year, 7) + 31);
    assert(days_before_month(year, 9) == days_before_month(year, 8) + 31);
    assert(days_before_month(year, 10) == days_before_month(year, 9) + 30);
    assert(days_before_month(year, 11) == days_before_month(year, 10) + 31);
    assert(days_before_month(year, 12) == days_before_month(year, 11) + 30);
}

/// One more of the multiples of `n` has passed where `x` is one.
proof fn lemma_multiples(x: int, n: int)
    requires
        n > 0,
    ensures
        (x + n) / n == x / n + 1,
        (x + n - 1) / n == x / n + if x % n == 0 {
            0int
        } else {
            1int
        },
{
    vstd::arithmetic::div_mod::lemma_fundamental_div_mod(x, n);
    let q = x / n;
    let r = x % n;
    assert(x + n == (q + 1) * n + r) by (nonlinear_arith)
        requires
            x == n * q + r,
    ;
    vstd::arithmetic::div_mod::lemma_fundamental_div_mod_converse(x + n, n, q + 1, r);
    if r == 0 {
        assert(x + n - 1 == q * n + (n - 1)) by (nonlinear_arith)
            requires
                x == n * q + r,
                r == 0,
        ;
        vstd::arithmetic::div_mod::lemma_fundamental_div_mod_converse(x + n - 1, n, q, n - 1);
    } else {
        assert(x + n - 1 == (q + 1) * n + (r - 1)) by (nonlinear_arith)
            requires
                x == n * q + r,
        ;
        vstd::arithmetic::div_mod::lemma_fundamental_div_mod_converse(x + n - 1, n, q + 1, r - 1);
    }
}

/// Each year is as long as its calendar says, and year 0 opens the count.
pub proof fn lemma_year_lengths(year: int)
    ensures
        days_before_year(0) == 0,
        days_before_year(year + 1) - days_before_year(year) == if is_leap(year) {
            366int
        } else {
            365int
        },
        days_before_month(year, 12) + days_in_month(year, 12) == days_before_year(year + 1)
            - days_before_year(year),
{
    lemma_month_offsets(year);
    lemma_multiples(year, 4);
    lemma_multiples(year, 100);
    lemma_multiples(year, 400);
}

/// Years follow one another.
proof fn lemma_years_ordered(a: int, b: int)
    requires
        a <= b,
    ensures
        days_before_year(a) <= days_before_year(b),
    decreases b - a,
{
    if a < b {
        lemma_years_ordered(a, b - 1);
        lemma_year_lengths(b - 1);
    }
}

/// A day of a month comes before the first day of each later month.
proof fn lemma_months_ordered(year: int, a: int, b: int)
    requires
        1 <= a < b <= 12,
    ensures
        days_before_month(year, a) + days_in_month(year, a) <= days_before_month(year, b),
    decreases b - a,
{
    if a + 1 < b {
        lemma_months_ordered(year, a, b - 1);
    }
}

/// A day lies in its year.
proof fn lemma_day_in_year(date: CivilDate)
    requires
        date.valid(),
    ensures
        days_before_year(date.year as int) - EPOCH_DAY <= date.day_number(),
        date.day_number() < days_before_year(date.year + 1) - EPOCH_DAY,
{
    lemma_month_offsets(date.year as int);
    lemma_year_lengths(date.year as int);
}

/// Days are counted one by one: no two days of the calendar have the same number.
pub proof fn law_day_numbers_differ(a: CivilDate, b: CivilDate)
    requires
        a.valid(),
        b.valid(),
        a.day_number() == b.day_number(),
    ensures
        a == b,
{
    lemma_day_in_year(a);
    lemma_day_in_year(b);
    if a.year < b.year {
        lemma_years_ordered(a.year + 1, b.year as int);
    } else if b.year < a.year {
        lemma_years_ordered(b.year + 1, a.year as int);
    }
    if a.month < b.month {
        lemma_months_ordered(a.year as int, a.month as int, b.month as int);
    } else if b.month < a.month {
        lemma_months_ordered(a.year as int, b.month as int, a.month as int);
    }
}

/// The year of an era of 400 years in which a day of the era lies, both counted
/// from the first of March.
proof fn lemma_year_of_era(doe: int, yoe: int)
    requires
        0 <= doe < 146_097,
        yoe == (doe - doe / 1460 + doe / 36_524 - doe / 146_096) / 365,
    ensures
        0 <= yoe <= 399,
        365 * yoe + yoe / 4 - yoe / 100 <= doe,
        doe - (365 * yoe + yoe / 4 - yoe / 100) <= 364 + if (yoe + 1) % 4 == 0 && ((yoe + 1) % 100
            != 0 || yoe == 399) {
            1int
        } else {
            0int
        },
{
    let century = doe / 36_524;
    let rest = doe - 36_524 * century;
    assert(0 <= century <= 4);
    assert(century == 4 ==> doe == 146_096);
    assert(0 <= yoe <= 399);
}

/// The month and the day in it that a day of a year has, where the year begins in March.
proof fn lemma_months_from_march(doy: int, mp: int)
    requires
        0 <= doy <= 365,
        mp == (5 * doy + 2) / 153,
    ensures
        0 <= mp <= 11,
        mp == 0 ==> 0 <= doy < 31 && (153 * mp + 2) / 5 == 0,
        mp == 1 ==> 31 <= doy < 61 && (153 * mp + 2) / 5 == 31,
        mp == 2 ==> 61 <= doy < 92 && (153 * mp + 2) / 5 == 61,
        mp == 3 ==> 92 <= doy < 122 && (153 * mp + 2) / 5 == 92,
        mp == 4 ==> 122 <= doy < 153 && (153 * mp + 2) / 5 == 122,
        mp == 5 ==> 153 <= doy < 184 && (153 * mp + 2) / 5 == 153,
        mp == 6 ==> 184 <= doy < 214 && (153 * mp + 2) / 5 == 184,
        mp == 7 ==> 214 <= doy < 245 && (153 * mp + 2) / 5 == 214,
        mp == 8 ==> 245 <= doy < 275 && (153 * mp + 2) / 5 == 245,
        mp == 9 ==> 275 <= doy < 306 && (153 * mp + 2) / 5 == 275,
        mp == 10 ==> 306 <= doy < 337 && (153 * mp + 2) / 5 == 306,
        mp == 11 ==> 337 <= doy <= 365 && (153 * mp + 2) / 5 == 337,
{
}

/// Whole multiples of `n` change a quotient by their number and no remainder.
proof fn lemma_whole_eras(x: int, n: int, k: int)
    requires
        n > 0,
    ensures
        (x + n * k) / n == x / n + k,
        (x + n * k) % n == x % n,
{
    vstd::arithmetic::div_mod::lemma_fundamental_div_mod(x, n);
    let q = x / n;
    let r = x % n;
    assert(x + n * k == (q + k) * n + r) by (nonlinear_arith)
        requires
            x == n * q + r,
    ;
    vstd::arithmetic::div_mod::lemma_mod_bound(x, n);
    vstd::arithmetic::div_mod::lemma_fundamental_div_mod_converse(x + n * k, n, q + k, r);
}

/// Where a year that begins in March stands among the days.
proof fn lemma_march_year(year: int, yoe: int, era: int)
    requires
        0 <= yoe <= 399,
        year == yoe + era * 400,
    ensures
        days_before_year(year) + if is_leap(year) {
            1int
        } else {
            0int
        } == era * 146_097 + (365 * yoe + yoe / 4 - yoe / 100) + 1,
        days_before_year(year + 1) == era * 146_097 + (365 * yoe + yoe / 4 - yoe / 100) + 366,
        is_leap(year + 1) <==> (yoe + 1) % 4 == 0 && ((yoe + 1) % 100 != 0 || yoe == 399),
{
    lemma_whole_eras(yoe, 4, 100 * era);
    lemma_whole_eras(yoe, 100, 4 * era);
    lemma_whole_eras(yoe, 400, era);
    lemma_whole_eras(yoe + 1, 4, 100 * era);
    lemma_whole_eras(yoe + 1, 100, 4 * era);
    lemma_whole_eras(yoe + 1, 400, era);
    lemma_multiples(year, 4);
    lemma_multiples(year, 100);
    lemma_multiples(year, 400);
}

/// The day with a given number.
fn civil_from_days(days: i64) -> (r: CivilDate)
    requires
        -106_751_991_167_301 <= days <= 106_751_991_167_300,
    ensures
        r.valid(),
        r.day_number() == days,
{
    let z: i64 = days + 719_468;
    let era: i64 = (if z >= 0 {
        z
    } else {
        z - 146_096
    }) / 146_097;
    let doe: i64 = z - era * 146_097;
    assert(0 <= doe < 146_097);
    let yoe: i64 = (doe - doe / 1460 + doe / 36_524 - doe / 146_096) / 365;
    proof {
        lemma_year_of_era(doe as int, yoe as int);
    }
    let y0: i64 = yoe + era * 400;
    let doy: i64 = doe - (365 * yoe + yoe / 4 - yoe / 100);
    let mp: i64 = (5 * doy + 2) / 153;
    let day: i64 = doy - (153 * mp + 2) / 5 + 1;
    let month: i64 = if mp < 10 {
        mp + 3
    } else {
        mp - 9
    };
    let year: i64 = if month <= 2 {
        y0 + 1
    } else {
        y0
    };
    let r = CivilDate { year, month, day };
    proof {
        lemma_months_from_march(doy as int, mp as int);
        lemma_march_year(y0 as int, yoe as int, era as int);
        lemma_month_offsets(year as int);
    }
    r
}

/// Whether `date` is the day on which the moment `unix_secs` seconds after the
/// start of 1970 lies.
pub open spec fn is_day_of(date: CivilDate, unix_secs: int) -> bool {
    date.valid() && date.day_number() == unix_secs / 86_400
}

/// The text for a minute of a day: year, month and day, then hour and minute.
pub open spec fn minute_text(date: CivilDate, hour: int, minute: int) -> Seq<char> {
    text::zero_padded(date.year as int, 4) + "-"@ + text::zero_padded(date.month as int, 2) + "-"@
        + text::zero_padded(date.day as int, 2) + " "@ + text::zero_padded(hour, 2) + ":"@
        + text::zero_padded(minute, 2) + " UTC"@
}

/// The text for the minute in which a moment of a day lies.
pub open spec fn utc_text(date: CivilDate, unix_secs: int) -> Seq<char> {
    let second_of_day = unix_secs % 86_400;
    minute_text(date, second_of_day / 3600, (second_of_day / 60) % 60)
}

/// Renders a moment, in seconds since the start of 1970, as a UTC date and minute.
pub fn format_utc(unix_secs: i64) -> (r: String)
    ensures
        exists|date: CivilDate| is_day_of(date, unix_secs as int),
        forall|date: CivilDate| #[trigger]
            is_day_of(date, unix_secs as int) ==> r@ == utc_text(date, unix_secs as int),
{
    let quotient: i64 = unix_secs / 86_400;
    let rest: i64 = unix_secs - quotient * 86_400;
    let days: i64 = if rest < 0 {
        quotient - 1
    } else {
        quotient
    };
    let second_of_day: i64 = if rest < 0 {
        rest + 86_400
    } else {
        rest
    };
    assert(days == unix_secs as int / 86_400 && second_of_day == unix_secs as int % 86_400);
    let date = civil_from_days(days);
    assert(is_day_of(date, unix_secs as int));
    let mut out = String::new();
    text::push_padded(&mut out, date.year, 4);
    out.append("-");
    text::push_padded(&mut out, date.month, 2);
    out.append("-");
    text::push_padded(&mut out, date.day, 2);
    out.append(" ");
    text::push_padded(&mut out, second_of_day / 3600, 2);
    out.append(":");
    text::push_padded(&mut out, (second_of_day / 60) % 60, 2);
    out.append(" UTC");
    assert(Seq::<char>::empty() + text::zero_padded(date.year as int, 4) == text::zero_padded(
        date.year as int,
        4,
    ));
    assert forall|other: CivilDate| #[trigger]
        is_day_of(other, unix_secs as int) implies other == date by {
        law_day_numbers_differ(other, date);
    }
    out
}

/// Dates are in order of their years, their months and their days.
pub open spec fn no_later(a: CivilDate, b: CivilDate) -> bool {
    a.year < b.year || (a.year == b.year && (a.month < b.month || (a.month == b.month && a.day
        <= b.day)))
}

proof fn lemma_days_in_order(a: CivilDate, b: CivilDate)
    requires
        a.valid(),
        b.valid(),
        a.day_number() <= b.day_number(),
    ensures
        no_later(a, b),
{
    lemma_day_in_year(a);
    lemma_day_in_year(b);
    if b.year < a.year {
        lemma_years_ordered(b.year + 1, a.year as int);
    }
    if a.year == b.year && b.month < a.month {
        lemma_months_ordered(a.year as int, b.month as int, a.month as int);
    }
}

/// The first second of year 0, and the last one of year 9999.
pub const FIRST_SECOND: i64 = -62_167_219_200;

pub const LAST_SECOND: i64 = 253_402_300_799;

proof fn lemma_year_of_four_digits(date: CivilDate, unix_secs: int)
    requires
        FIRST_SECOND <= unix_secs <= LAST_SECOND,
        is_day_of(date, unix_secs),
    ensures
        0 <= date.year <= 9999,
{
    lemma_day_in_year(date);
    assert(days_before_year(0) == 0);
    assert(days_before_year(10_000) == 3_652_425);
    if date.year < 0 {
        lemma_years_ordered(date.year + 1, 0);
    }
    if date.year > 9999 {
        lemma_years_ordered(10_000, date.year as int);
    }
}

/// Both texts go on with the same text.
proof fn lemma_same_tail(a: Seq<char>, b: Seq<char>, tail: Seq<char>)
    requires
        a.len() == b.len(),
        text::no_greater(a, b),
    ensures
        text::no_greater(a + tail, b + tail),
        a + tail == b + tail <==> a == b,
{
    text::lemma_same_order(tail);
    text::lemma_order_goes_on(a, b, tail, tail);
}

/// Both texts go on with a number of two digits.
proof fn lemma_next_number(a: Seq<char>, b: Seq<char>, m: int, n: int)
    requires
        a.len() == b.len(),
        text::no_greater(a, b),
        0 <= m < 100,
        0 <= n < 100,
        a == b ==> m <= n,
    ensures
        (a + text::zero_padded(m, 2)).len() == a.len() + 2,
        (b + text::zero_padded(n, 2)).len() == b.len() + 2,
        text::no_greater(a + text::zero_padded(m, 2), b + text::zero_padded(n, 2)),
        a + text::zero_padded(m, 2) == b + text::zero_padded(n, 2) <==> a == b && m == n,
{
    text::lemma_two_digits_in_order(m, n);
    text::lemma_two_digits_in_order(n, m);
    text::lemma_order_goes_on(a, b, text::zero_padded(m, 2), text::zero_padded(n, 2));
}

/// The hour and the minute of a moment, and its day.
proof fn lemma_clocks_in_order(t: int, u: int)
    requires
        t <= u,
    ensures
        t / 86_400 <= u / 86_400,
        0 <= (t % 86_400) / 3600 < 24,
        0 <= ((t % 86_400) / 60) % 60 < 60,
        0 <= (u % 86_400) / 3600 < 24,
        0 <= ((u % 86_400) / 60) % 60 < 60,
        t / 86_400 == u / 86_400 ==> (t % 86_400) / 3600 <= (u % 86_400) / 3600,
        t / 86_400 == u / 86_400 && (t % 86_400) / 3600 == (u % 86_400) / 3600 ==> ((t % 86_400)
            / 60) % 60 <= ((u % 86_400) / 60) % 60,
        t / 60 == u / 60 <==> t / 86_400 == u / 86_400 && (t % 86_400) / 3600 == (u % 86_400)
            / 3600 && ((t % 86_400) / 60) % 60 == ((u % 86_400) / 60) % 60,
{
    lemma_minute_of_day(t);
    lemma_minute_of_day(u);
}

proof fn lemma_minute_of_day(t: int)
    ensures
        t / 60 == 1440 * (t / 86_400) + 60 * ((t % 86_400) / 3600) + ((t % 86_400) / 60) % 60,
{
    let s = t % 86_400;
    assert(t == 86_400 * (t / 86_400) + s);
    assert(t / 60 == 1440 * (t / 86_400) + s / 60);
    assert(s / 60 / 60 == s / 3600);
}

/// The texts of two moments are in the order of their dates, hours and minutes.
proof fn lemma_texts_of_fields(
    a: CivilDate,
    h: int,
    m: int,
    b: CivilDate,
    g: int,
    n: int,
)
    requires
        a.valid(),
        b.valid(),
        0 <= a.year <= 9999,
        0 <= b.year <= 9999,
        no_later(a, b),
        0 <= h < 24,
        0 <= g < 24,
        0 <= m < 60,
        0 <= n < 60,
        a == b ==> h <= g,
        a == b && h == g ==> m <= n,
    ensures
        minute_text(a, h, m).len() == 20,
        minute_text(b, g, n).len() == 20,
        text::no_greater(minute_text(a, h, m), minute_text(b, g, n)),
        minute_text(a, h, m) == minute_text(b, g, n) <==> a == b && h == g && m == n,
{
    reveal_strlit("-");
    reveal_strlit(" ");
    reveal_strlit(":");
    reveal_strlit(" UTC");
    let a1 = text::zero_padded(a.year as int, 4);
    let b1 = text::zero_padded(b.year as int, 4);
    text::lemma_four_digits_in_order(a.year as int, b.year as int);
    text::lemma_four_digits_in_order(b.year as int, a.year as int);
    lemma_same_tail(a1, b1, "-"@);
    let a2 = a1 + "-"@;
    let b2 = b1 + "-"@;
    lemma_next_number(a2, b2, a.month as int, b.month as int);
    let a3 = a2 + text::zero_padded(a.month as int, 2);
    let b3 = b2 + text::zero_padded(b.month as int, 2);
    lemma_same_tail(a3, b3, "-"@);
    let a4 = a3 + "-"@;
    let b4 = b3 + "-"@;
    lemma_next_number(a4, b4, a.day as int, b.day as int);
    let a5 = a4 + text::zero_padded(a.day as int, 2);
    let b5 = b4 + text::zero_padded(b.day as int, 2);
    lemma_same_tail(a5, b5, " "@);
    let a6 = a5 + " "@;
    let b6 = b5 + " "@;
    lemma_next_number(a6, b6, h, g);
    let a7 = a6 + text::zero_padded(h, 2);
    let b7 = b6 + text::zero_padded(g, 2);
    lemma_same_tail(a7, b7, ":"@);
    let a8 = a7 + ":"@;
    let b8 = b7 + ":"@;
    lemma_next_number(a8, b8, m, n);
    let a9 = a8 + text::zero_padded(m, 2);
    let b9 = b8 + text::zero_padded(n, 2);
    lemma_same_tail(a9, b9, " UTC"@);
}

/// In the years 0 to 9999 all moments have texts of the same length, later moments have
/// texts that stand no earlier, and texts are the same just within the same minute.
#[verifier::rlimit(50)]
pub proof fn law_texts_are_in_order(t: int, u: int, a: CivilDate, b: CivilDate)
    requires
        FIRST_SECOND <= t <= u <= LAST_SECOND,
        is_day_of(a, t),
        is_day_of(b, u),
    ensures
        utc_text(a, t).len() == 20,
        utc_text(b, u).len() == 20,
        text::no_greater(utc_text(a, t), utc_text(b, u)),
        utc_text(a, t) == utc_text(b, u) <==> t / 60 == u / 60,
{
    lemma_year_of_four_digits(a, t);
    lemma_year_of_four_digits(b, u);
    lemma_clocks_in_order(t, u);
    lemma_days_in_order(a, b);
    if a.day_number() == b.day_number() {
        law_day_numbers_differ(a, b);
    }
    lemma_texts_of_fields(
        a,
        (t % 86_400) / 3600,
        ((t % 86_400) / 60) % 60,
        b,
        (u % 86_400) / 3600,
        ((u % 86_400) / 60) % 60,
    );
}

/// The months have the lengths that everyone knows. February is longer in every fourth
/// year, but for those that end a century, unless four centuries end.
pub proof fn law_months_have_their_lengths(year: int)
    ensures
        days_in_month(year, 1) == 31 && days_in_month(year, 3) == 31 && days_in_month(year, 5)
            == 31 && days_in_month(year, 7) == 31 && days_in_month(year, 8) == 31,
        days_in_month(year, 10) == 31 && days_in_month(year, 12) == 31,
        days_in_month(year, 4) == 30 && days_in_month(year, 6) == 30 && days_in_month(year, 9)
            == 30 && days_in_month(year, 11) == 30,
        year % 4 != 0 ==> days_in_month(year, 2) == 28,
        year % 4 == 0 && year % 100 != 0 ==> days_in_month(year, 2) == 29,
        year % 100 == 0 && year % 400 != 0 ==> days_in_month(year, 2) == 28,
        year % 400 == 0 ==> days_in_month(year, 2) == 29,
{
}

/// Days are counted from the first of January 1970, and each day has the number after that
/// of the day before: within a month, from month to month and from year to year.
#[verifier::rlimit(50)]
pub proof fn law_days_follow_one_another(a: CivilDate, b: CivilDate)
    requires
        a.valid(),
        b.valid(),
    ensures
        a.year == 1970 && a.month == 1 && a.day == 1 ==> a.day_number() == 0,
        b.year == a.year && b.month == a.month && b.day == a.day + 1 ==> b.day_number()
            == a.day_number() + 1,
        b.year == a.year && b.month == a.month + 1 && a.day == days_in_month(
            a.year as int,
            a.month as int,
        ) && b.day == 1 ==> b.day_number() == a.day_number() + 1,
        b.year == a.year + 1 && a.month == 12 && a.day == 31 && b.month == 1 && b.day == 1
            ==> b.day_number() == a.day_number() + 1,
{
    lemma_month_offsets(a.year as int);
    lemma_month_offsets(b.year as int);
    lemma_year_lengths(a.year as int);
}

/// Four centuries have 146 097 days, whichever year they begin with.
pub proof fn law_four_centuries_repeat(year: int)
    ensures
        days_before_year(year + 400) - days_before_year(year) == 146_097,
        is_leap(year + 400) == is_leap(year),
{
}

/// The hour and the minute of a moment, counted from the start of 1970 and from the
/// start of its day.
proof fn lemma_hour_and_minute(t: int)
    ensures
        t / 3600 % 24 == (t % 86_400) / 3600,
        t / 60 % 60 == ((t % 86_400) / 60) % 60,
{
    let days = t / 86_400;
    let s = t % 86_400;
    assert(t == s + 3600 * (24 * days));
    assert(t == s + 60 * (1440 * days));
    lemma_whole_eras(s, 3600, 24 * days);
    lemma_whole_eras(s / 3600, 24, days);
    lemma_whole_eras(s, 60, 1440 * days);
    lemma_whole_eras(s / 60, 60, 24 * days);
    assert(0 <= s / 3600 < 24);
    assert(s / 60 + 60 * (24 * days) == s / 60 + 1440 * days);
}

/// The digit of a number at its end.
pub open spec fn last_digit(n: int) -> char {
    ('0' as int + n % 10) as char
}

/// A minute written out: four digits of the year, and two each of the month, the day, the
/// hour and the minute.
pub open spec fn written_out(date: CivilDate, hour: int, minute: int) -> Seq<char> {
    seq![
        last_digit(date.year as int / 1000),
        last_digit(date.year as int / 100),
        last_digit(date.year as int / 10),
        last_digit(date.year as int),
        '-',
        last_digit(date.month as int / 10),
        last_digit(date.month as int),
        '-',
        last_digit(date.day as int / 10),
        last_digit(date.day as int),
        ' ',
        last_digit(hour / 10),
        last_digit(hour),
        ':',
        last_digit(minute / 10),
        last_digit(minute),
        ' ',
        'U',
        'T',
        'C',
    ]
}

#[verifier::rlimit(50)]
proof fn lemma_fields_written_out(date: CivilDate, hour: int, minute: int)
    requires
        date.valid(),
        0 <= date.year <= 9999,
        0 <= hour < 24,
        0 <= minute < 60,
    ensures
        minute_text(date, hour, minute) == written_out(date, hour, minute),
{
    reveal_strlit("-");
    reveal_strlit(" ");
    reveal_strlit(":");
    reveal_strlit(" UTC");
    text::lemma_digits_written_out(date.year as int);
    text::lemma_digits_written_out(date.month as int);
    text::lemma_digits_written_out(date.day as int);
    text::lemma_digits_written_out(hour);
    text::lemma_digits_written_out(minute);
}

/// The text of a moment is written out digit by digit: the date, the hour of the day and
/// the minute of the hour.
pub proof fn law_minute_is_written_out(date: CivilDate, unix_secs: int)
    requires
        FIRST_SECOND <= unix_secs <= LAST_SECOND,
        is_day_of(date, unix_secs),
    ensures
        utc_text(date, unix_secs) == written_out(
            date,
            unix_secs / 3600 % 24,
            unix_secs / 60 % 60,
        ),
{
    lemma_year_of_four_digits(date, unix_secs);
    lemma_hour_and_minute(unix_secs);
    let hour = unix_secs / 3600 % 24;
    let minute = unix_secs / 60 % 60;
    assert(0 <= hour < 24 && 0 <= minute < 60);
    lemma_fields_written_out(date, hour, minute);
}

} // verus!
