//! Calendar dates: day numbers, the clock, and the timestamps of the usage tables.
use vstd::prelude::*;
use vstd::string::*;

use crate::number::lemma_padded_unique;
use crate::text::padded_text;

verus! {

/// Seconds of one day.
pub const DAY_SECS: i64 = 86_400;

/// Whether a year of the Gregorian calendar has 366 days.
pub open spec fn is_leap(y: int) -> bool {
    y % 4 == 0 && (y % 100 != 0 || y % 400 == 0)
}

/// The number of days in a month.
pub open spec fn month_days(y: int, m: int) -> int {
    if m == 2 {
        if is_leap(y) {
            29
        } else {
            28
        }
    } else if m == 4 || m == 6 || m == 9 || m == 11 {
        30
    } else {
        31
    }
}

/// Whether year, month and day name a date of the calendar.
pub open spec fn is_date(y: int, m: int, d: int) -> bool {
    1 <= m <= 12 && 1 <= d <= month_days(y, m)
}

/// The year that begins in March and holds the month.
pub open spec fn march_year(y: int, m: int) -> int {
    if m <= 2 {
        y - 1
    } else {
        y
    }
}

/// Days from the first of March of year 0 to the first of March of year `a`.
pub open spec fn days_to_march(a: int) -> int {
    365 * a + a / 4 - a / 100 + a / 400
}

/// Days from the first of March to the first of the month that stands `mp` months behind March.
pub open spec fn days_to_month(mp: int) -> int {
    (153 * mp + 2) / 5
}

/// The day number of a date: 0 is the first of January 1970.
pub open spec fn day_number(y: int, m: int, d: int) -> int {
    days_to_march(march_year(y, m)) + days_to_month((m + 9) % 12) + d - 1 - 719468
}

/// The date behind `(y, m, d)`.
pub open spec fn next_date(y: int, m: int, d: int) -> (int, int, int) {
    if d < month_days(y, m) {
        (y, m, d + 1)
    } else if m < 12 {
        (y, m + 1, 1)
    } else {
        (y + 1, 1, 1)
    }
}

/// The date whose day number is `z`.
pub open spec fn civil(z: int) -> (int, int, int) {
    choose|t: (int, int, int)| is_date(t.0, t.1, t.2) && #[trigger] day_number(t.0, t.1, t.2) == z
}

/// The day numbers count the days of the calendar: the first of January 1970 has the number 0,
/// and the date behind any date has the number behind its number.
pub proof fn law_day_number_counts(y: int, m: int, d: int)
    requires
        is_date(y, m, d),
    ensures
        day_number(1970, 1, 1) == 0,
        ({
            let n = next_date(y, m, d);
            &&& is_date(n.0, n.1, n.2)
            &&& day_number(n.0, n.1, n.2) == day_number(y, m, d) + 1
        }),
{
    let a = y - 1;
    assert(a / 4 == if y % 4 == 0 { y / 4 - 1 } else { y / 4 });
    assert(a / 100 == if y % 100 == 0 { y / 100 - 1 } else { y / 100 });
    assert(a / 400 == if y % 400 == 0 { y / 400 - 1 } else { y / 400 });
}

proof fn lemma_march_order(a: int, b: int)
    requires
        a < b,
    ensures
        days_to_march(a + 1) <= days_to_march(b),
        days_to_march(a) + 365 <= days_to_march(a + 1) <= days_to_march(a) + 366,
{
}

/// Days since the first of March, of a date.
spec fn day_of_march_year(m: int, d: int) -> int {
    days_to_month((m + 9) % 12) + d - 1
}

proof fn lemma_within_march_year(y: int, m: int, d: int)
    requires
        is_date(y, m, d),
    ensures
        0 <= day_of_march_year(m, d),
        days_to_march(march_year(y, m)) + day_of_march_year(m, d) < days_to_march(
            march_year(y, m) + 1,
        ),
{
    let a = y - 1;
    assert(a / 4 == if y % 4 == 0 { y / 4 - 1 } else { y / 4 });
    assert(a / 100 == if y % 100 == 0 { y / 100 - 1 } else { y / 100 });
    assert(a / 400 == if y % 400 == 0 { y / 400 - 1 } else { y / 400 });
}

/// Two dates with the same day number are the same date.
pub proof fn law_day_number_unique(y: int, m: int, d: int, y2: int, m2: int, d2: int)
    requires
        is_date(y, m, d),
        is_date(y2, m2, d2),
        day_number(y, m, d) == day_number(y2, m2, d2),
    ensures
        y == y2,
        m == m2,
        d == d2,
{
    lemma_within_march_year(y, m, d);
    lemma_within_march_year(y2, m2, d2);
    let a = march_year(y, m);
    let a2 = march_year(y2, m2);
    if a < a2 {
        lemma_march_order(a, a2);
    } else if a2 < a {
        lemma_march_order(a2, a);
    }
    assert(a == a2);
    assert(day_of_march_year(m, d) == day_of_march_year(m2, d2));
}

proof fn lemma_year_of_era(doe: int, yoe: int)
    requires
        0 <= doe < 146097,
        yoe == (doe - doe / 1460 + doe / 36524 - doe / 146096) / 365,
    ensures
        0 <= yoe < 400,
        365 * yoe + yoe / 4 - yoe / 100 <= doe,
        yoe < 399 ==> doe < 365 * (yoe + 1) + (yoe + 1) / 4 - (yoe + 1) / 100,
{
}

/// The date that the arithmetic on 400-year eras gives for a day number.
spec fn era_date(z: int) -> (int, int, int) {
    let n = z + 719468;
    let era = n / 146097;
    let doe = n - era * 146097;
    let yoe = (doe - doe / 1460 + doe / 36524 - doe / 146096) / 365;
    let doy = doe - (365 * yoe + yoe / 4 - yoe / 100);
    let mp = (5 * doy + 2) / 153;
    let d = doy - (153 * mp + 2) / 5 + 1;
    let m = if mp < 10 {
        mp + 3
    } else {
        mp - 9
    };
    (if m <= 2 { yoe + era * 400 + 1 } else { yoe + era * 400 }, m, d)
}

proof fn lemma_month_of_year(doy: int, mp: int)
    requires
        0 <= doy <= 365,
        mp == (5 * doy + 2) / 153,
    ensures
        0 <= mp <= 11,
        days_to_month(mp) <= doy,
        mp < 11 ==> doy < days_to_month(mp + 1),
{
}

proof fn lemma_month_lengths(y: int, mp: int, doy: int)
    requires
        0 <= mp <= 11,
        days_to_month(mp) <= doy,
        mp < 11 ==> doy < days_to_month(mp + 1),
        doy < 365 || is_leap(y) && doy == 365,
    ensures
        is_date(y, if mp < 10 { mp + 3 } else { mp - 9 }, doy - days_to_month(mp) + 1),
{
}

proof fn lemma_split_year(yoe: int, era: int)
    requires
        0 <= yoe < 400,
    ensures
        days_to_march(yoe + era * 400) == era * 146097 + 365 * yoe + yoe / 4 - yoe / 100,
        is_leap(yoe + 1 + era * 400) <==> (yoe + 1) % 4 == 0 && ((yoe + 1) % 100 != 0 || yoe == 399),
{
}

proof fn lemma_long_year(yoe: int, doe: int)
    requires
        0 <= yoe < 400,
        0 <= doe < 146097,
        365 * yoe + yoe / 4 - yoe / 100 <= doe,
        yoe < 399 ==> doe < 365 * (yoe + 1) + (yoe + 1) / 4 - (yoe + 1) / 100,
    ensures
        ({
            let doy = doe - (365 * yoe + yoe / 4 - yoe / 100);
            &&& 0 <= doy <= 365
            &&& doy == 365 ==> (yoe + 1) % 4 == 0 && ((yoe + 1) % 100 != 0 || yoe == 399)
        }),
{
}

proof fn lemma_era_date(z: int)
    ensures
        is_date(era_date(z).0, era_date(z).1, era_date(z).2),
        day_number(era_date(z).0, era_date(z).1, era_date(z).2) == z,
        era_date(z) == civil(z),
{
    let n = z + 719468;
    let era = n / 146097;
    let doe = n - era * 146097;
    assert(0 <= doe < 146097);
    let yoe = (doe - doe / 1460 + doe / 36524 - doe / 146096) / 365;
    lemma_year_of_era(doe, yoe);
    lemma_long_year(yoe, doe);
    let doy = doe - (365 * yoe + yoe / 4 - yoe / 100);
    let mp = (5 * doy + 2) / 153;
    lemma_month_of_year(doy, mp);
    lemma_split_year(yoe, era);
    let t = era_date(z);
    let d = doy - days_to_month(mp) + 1;
    let m = if mp < 10 { mp + 3 } else { mp - 9 };
    let a = yoe + era * 400;
    let y = if m <= 2 { a + 1 } else { a };
    assert(t == (y, m, d));
    assert(march_year(y, m) == a);
    assert((m + 9) % 12 == mp);
    assert(day_number(y, m, d) == z);
    if doy == 365 {
        assert(mp == 11);
    }
    if mp >= 10 {
        lemma_month_lengths(a + 1, mp, doy);
    } else {
        assert(is_date(a, mp + 3, d));
    }
    let c = civil(z);
    assert(is_date(t.0, t.1, t.2) && day_number(t.0, t.1, t.2) == z);
    assert(is_date(c.0, c.1, c.2) && day_number(c.0, c.1, c.2) == z);
    law_day_number_unique(t.0, t.1, t.2, c.0, c.1, c.2);
}

/// Every day number has its date: `civil` gives a date of the calendar with that number.
pub proof fn law_civil(z: int)
    ensures
        is_date(civil(z).0, civil(z).1, civil(z).2),
        day_number(civil(z).0, civil(z).1, civil(z).2) == z,
{
    lemma_era_date(z);
}

/// From a date to its day number and back is the date.
pub proof fn law_civil_round_trip(y: int, m: int, d: int)
    requires
        is_date(y, m, d),
    ensures
        civil(day_number(y, m, d)) == (y, m, d),
{
    let z = day_number(y, m, d);
    law_civil(z);
    law_day_number_unique(y, m, d, civil(z).0, civil(z).1, civil(z).2);
}

/// The day number of a date. Months and days beyond the calendar's are taken as they come.
pub fn days_from_civil(y: i64, m: u32, d: u32) -> (z: i64)
    requires
        i64::MIN <= day_number(y as int, m as int, d as int) <= i64::MAX,
    ensures
        z == day_number(y as int, m as int, d as int),
{
    let y: i128 = if m <= 2 { y as i128 - 1 } else { y as i128 };
    let era: i128 = (if y >= 0 { y } else { y - 399 }) / 400;
    let yoe: i128 = y - era * 400;
    let mp: i128 = ((m as u64 + 9) % 12) as i128;
    let doy: i128 = (153 * mp + 2) / 5 + d as i128 - 1;
    let doe: i128 = yoe * 365 + yoe / 4 - yoe / 100 + doy;
    proof {
        assert(era == y as int / 400);
        assert(0 <= yoe < 400);
        assert(y as int / 4 == yoe as int / 4 + era * 100);
        assert(y as int / 100 == yoe as int / 100 + era * 4);
    }
    (era * 146097 + doe - 719468) as i64
}

/// The date of a day number.
pub fn civil_from_days(z: i64) -> (date: (i64, u32, u32))
    ensures
        (date.0 as int, date.1 as int, date.2 as int) == civil(z as int),
        is_date(date.0 as int, date.1 as int, date.2 as int),
        day_number(date.0 as int, date.1 as int, date.2 as int) == z,
{
    proof {
        lemma_era_date(z as int);
    }
    let n: i128 = z as i128 + 719468;
    let era: i128 = (if n >= 0 { n } else { n - 146096 }) / 146097;
    let doe: i128 = n - era * 146097;
    proof {
        assert(era == n as int / 146097);
        assert(0 <= doe < 146097);
    }
    let yoe: i128 = (doe - doe / 1460 + doe / 36524 - doe / 146096) / 365;
    proof {
        lemma_year_of_era(doe as int, yoe as int);
    }
    let y: i128 = yoe + era * 400;
    let doy: i128 = doe - (365 * yoe + yoe / 4 - yoe / 100);
    let mp: i128 = (5 * doy + 2) / 153;
    let d: u32 = (doy - (153 * mp + 2) / 5 + 1) as u32;
    let m: u32 = (if mp < 10 { mp + 3 } else { mp - 9 }) as u32;
    ((if m <= 2 { y + 1 } else { y }) as i64, m, d)
}

/// The seconds that the system clock stands behind the epoch, by `SystemTime::now` and
/// `duration_since`; none where it stands before the epoch. Nothing is claimed of the reading.
#[verifier::external_body]
fn clock_secs() -> (secs: Option<u64>) {
    std::time::SystemTime::now().duration_since(std::time::UNIX_EPOCH).ok().map(|d| d.as_secs())
}

/// The Unix time that a reading of the clock stands for: 0 where there is none.
pub open spec fn unix_time(secs: Option<u64>) -> i64 {
    match secs {
        Some(s) => s as i64,
        None => 0,
    }
}

/// The Unix time of a reading of the clock.
pub fn unix_time_of(secs: Option<u64>) -> (now: i64)
    ensures
        now == unix_time(secs),
        secs matches Some(s) ==> s <= i64::MAX ==> now == s,
{
    match secs {
        Some(s) => s as i64,
        None => 0,
    }
}

/// The current Unix time in seconds.
pub fn unix_now() -> (now: i64)
    ensures
        exists|secs: Option<u64>| now == #[trigger] unix_time(secs),
{
    unix_time_of(clock_secs())
}

/// The number of the day that it is at `now`, `offset_min` minutes ahead of UTC.
pub open spec fn local_day(now: int, offset_min: int) -> int {
    (now + offset_min * 60) / 86400
}

/// The number of the day that it is at `now`, `offset_min` minutes ahead of UTC.
pub fn local_day_at(now: i64, offset_min: i32) -> (day: i64)
    ensures
        day == local_day(now as int, offset_min as int),
{
    let local: i128 = now as i128 + offset_min as i128 * 60;
    ((if local >= 0 { local } else { local - 86399 }) / 86400) as i64
}

/// A date as text: four places for the year, two for the month, two for the day.
pub open spec fn date_text(t: (int, int, int)) -> Seq<char> {
    crate::text::padded(t.0, 4) + "-"@ + crate::text::padded(t.1, 2) + "-"@ + crate::text::padded(
        t.2,
        2,
    )
}

/// The text of the date with the day number `z`.
pub fn day_text(z: i64) -> (text: String)
    ensures
        text@ == date_text(civil(z as int)),
{
    let (y, m, d) = civil_from_days(z);
    let mut out = padded_text(y, 4);
    out.append("-");
    out.append(padded_text(m as i64, 2).as_str());
    out.append("-");
    out.append(padded_text(d as i64, 2).as_str());
    out
}

/// The local date at `now`.
pub fn date_at(now: i64, offset_min: i32) -> (text: String)
    ensures
        text@ == date_text(civil(local_day(now as int, offset_min as int))),
{
    day_text(local_day_at(now, offset_min))
}

/// Today's local date.
pub fn today_local(offset_min: i32) -> (text: String)
    ensures
        exists|now: i64|
            text@ == date_text(civil(#[trigger] local_day(now as int, offset_min as int))),
{
    let now = unix_now();
    date_at(now, offset_min)
}

/// The decimal digit at place `i`.
pub open spec fn byte_digit(b: Seq<u8>, i: int) -> Option<int> {
    if 0 <= i < b.len() && 48 <= b[i] <= 57 {
        Some(b[i] - 48)
    } else {
        None
    }
}

/// The number that `len` digits from `start` on stand for; none where one of them is no digit.
pub open spec fn number_at(b: Seq<u8>, start: int, len: nat) -> Option<int>
    decreases len,
{
    if len == 0 {
        Some(0)
    } else {
        match (number_at(b, start, (len - 1) as nat), byte_digit(b, start + len - 1)) {
            (Some(v), Some(d)) => Some(v * 10 + d),
            _ => None,
        }
    }
}

/// The minutes ahead of UTC that a timestamp names behind its time: `Z`, or a sign, hours and
/// minutes.
pub open spec fn zone_min(b: Seq<u8>) -> Option<int> {
    if b[19] == 90 {
        Some(0)
    } else if b[19] == 43 || b[19] == 45 {
        match (number_at(b, 20, 2), number_at(b, 23, 2)) {
            (Some(oh), Some(om)) => Some(if b[19] == 45 { -(oh * 60 + om) } else { oh * 60 + om }),
            _ => None,
        }
    } else {
        None
    }
}

/// What a timestamp `YYYY-MM-DDThh:mm:ss` with a zone holds: year, month, day, hour, minute,
/// second and zone. The characters between the numbers are not looked at.
pub open spec fn timestamp(b: Seq<u8>) -> Option<(int, int, int, int, int, int, int)> {
    if b.len() < 20 {
        None
    } else {
        match (
            number_at(b, 0, 4),
            number_at(b, 5, 2),
            number_at(b, 8, 2),
            number_at(b, 11, 2),
            number_at(b, 14, 2),
            number_at(b, 17, 2),
            zone_min(b),
        ) {
            (Some(y), Some(m), Some(d), Some(hh), Some(mm), Some(ss), Some(zone)) => Some(
                (y, m, d, hh, mm, ss, zone),
            ),
            _ => None,
        }
    }
}

/// The Unix time of a timestamp.
pub open spec fn epoch_of(t: (int, int, int, int, int, int, int)) -> int {
    day_number(t.0, t.1, t.2) * 86400 + t.3 * 3600 + t.4 * 60 + t.5 - t.6 * 60
}

/// The date, `offset_min` minutes ahead of UTC, at the time that a timestamp names.
pub open spec fn timestamp_date(b: Seq<u8>, offset_min: int) -> Option<Seq<char>> {
    match timestamp(b) {
        Some(t) => Some(date_text(civil(local_day(epoch_of(t), offset_min)))),
        None => None,
    }
}

fn read_number(b: &[u8], start: usize, len: usize) -> (r: Option<i64>)
    requires
        start <= 100,
        len <= 4,
    ensures
        r matches Some(v) ==> number_at(b@, start as int, len as nat) == Some(v as int),
        r is None ==> number_at(b@, start as int, len as nat) is None,
        r matches Some(v) ==> 0 <= v <= 9999 && (len <= 2 ==> v <= 99),
    decreases len,
{
    if len == 0 {
        return Some(0);
    }
    let at: usize = start + (len - 1);
    let front = read_number(b, start, len - 1);
    if at >= b.len() || b[at] < 48 || b[at] > 57 {
        return None;
    }
    proof {
        reveal_with_fuel(number_at, 5);
    }
    match front {
        Some(v) => Some(v * 10 + (b[at] - 48) as i64),
        None => None,
    }
}

fn read_zone(b: &[u8]) -> (r: Option<i64>)
    requires
        b@.len() >= 20,
    ensures
        r matches Some(v) ==> zone_min(b@) == Some(v as int) && -6039 <= v <= 6039,
        r is None ==> zone_min(b@) is None,
{
    if b[19] == 90 {
        Some(0)
    } else if b[19] == 43 || b[19] == 45 {
        match (read_number(b, 20, 2), read_number(b, 23, 2)) {
            (Some(oh), Some(om)) => {
                let abs: i64 = oh * 60 + om;
                Some(if b[19] == 45 { -abs } else { abs })
            },
            _ => None,
        }
    } else {
        None
    }
}

/// Reads a timestamp and gives the date at that time, `offset_min` minutes ahead of UTC.
pub fn local_date_from_rfc3339(s: &str, offset_min: i32) -> (r: Option<String>)
    ensures
        crate::text::option_text(r) == timestamp_date(s.spec_bytes(), offset_min as int),
{
    let b = s.as_bytes();
    if b.len() < 20 {
        return None;
    }
    match (
        read_number(b, 0, 4),
        read_number(b, 5, 2),
        read_number(b, 8, 2),
        read_number(b, 11, 2),
        read_number(b, 14, 2),
        read_number(b, 17, 2),
        read_zone(b),
    ) {
        (Some(y), Some(m), Some(d), Some(hh), Some(mm), Some(ss), Some(zone)) => {
            let day = days_from_civil(y, m as u32, d as u32);
            let epoch: i64 = day * DAY_SECS + hh * 3600 + mm * 60 + ss - zone * 60;
            Some(date_at(epoch, offset_min))
        },
        _ => None,
    }
}

/// Read in its own zone, a timestamp with a date of the calendar and a time of the day gives
/// the date that is written in it.
pub proof fn law_own_zone_keeps_date(b: Seq<u8>, t: (int, int, int, int, int, int, int))
    requires
        timestamp(b) == Some(t),
        is_date(t.0, t.1, t.2),
        t.3 < 24,
        t.4 < 60,
        t.5 < 60,
    ensures
        timestamp_date(b, t.6) == Some(date_text((t.0, t.1, t.2))),
{
    reveal_with_fuel(number_at, 5);
    law_civil_round_trip(t.0, t.1, t.2);
    assert(local_day(epoch_of(t), t.6) == day_number(t.0, t.1, t.2));
}

proof fn lemma_two_places(n: int)
    requires
        0 <= n < 100,
    ensures
        crate::text::padded(n, 2).len() == 2,
{
    reveal_with_fuel(crate::text::digits, 3);
}

/// Different days have different dates, and different dates have different texts.
pub proof fn law_date_text_unique(a: int, b: int)
    requires
        date_text(civil(a)) == date_text(civil(b)),
    ensures
        a == b,
{
    law_civil(a);
    law_civil(b);
    let s = civil(a);
    let t = civil(b);
    lemma_two_places(s.1);
    lemma_two_places(s.2);
    lemma_two_places(t.1);
    lemma_two_places(t.2);
    let dash = "-"@.len() as int;
    let text = date_text(s);
    let year = crate::text::padded(s.0, 4).len() as int;
    assert(date_text(s).len() == year + 2 * dash + 4);
    assert(date_text(t).len() == crate::text::padded(t.0, 4).len() + 2 * dash + 4);
    assert(text.subrange(0, year) =~= crate::text::padded(s.0, 4));
    assert(text.subrange(0, year) =~= crate::text::padded(t.0, 4));
    assert(text.subrange(year + dash, year + dash + 2) =~= crate::text::padded(s.1, 2));
    assert(text.subrange(year + dash, year + dash + 2) =~= crate::text::padded(t.1, 2));
    assert(text.subrange(year + 2 * dash + 2, year + 2 * dash + 4) =~= crate::text::padded(s.2, 2));
    assert(text.subrange(year + 2 * dash + 2, year + 2 * dash + 4) =~= crate::text::padded(t.2, 2));
    lemma_padded_unique(s.0, t.0, 4);
    lemma_padded_unique(s.1, t.1, 2);
    lemma_padded_unique(s.2, t.2, 2);
}

} // verus!
