//! Calendar rendering of UNIX timestamps (ISO 8601, UTC) and the wall clock.

use vstd::prelude::*;
use crate::text::{decimal_seq, u64_to_decimal, push_char};

verus! {

/// Gregorian leap-year rule.
pub open spec fn leap(year: int) -> bool {
    (year % 4 == 0 && year % 100 != 0) || year % 400 == 0
}

/// Whether `year` is a leap year in the Gregorian calendar.
pub fn is_leap_year(year: i64) -> (r: bool)
    ensures
        r == leap(year as int),
{
    (year % 4 == 0 && year % 100 != 0) || (year % 400 == 0)
}

/// Number of days in a year.
pub open spec fn year_days(year: int) -> int {
    if leap(year) { 366 } else { 365 }
}

/// Walks whole years forward from `year` while `days` covers them; gives
/// the year reached and the days left over in it.
pub open spec fn civil_year(year: int, days: int) -> (int, int)
    decreases days,
{
    if days < 0 || days < year_days(year) {
        (year, days)
    } else {
        civil_year(year + 1, days - year_days(year))
    }
}

/// Month lengths of a year, January first.
pub open spec fn month_lengths(year: int) -> Seq<int> {
    seq![31, if leap(year) { 29 } else { 28 }, 31, 30, 31, 30, 31, 31, 30, 31, 30, 31]
}

/// Walks the months of `lengths` from position `i` while `days` covers
/// them; gives the 1-based month reached and the days left over in it.
pub open spec fn civil_month(lengths: Seq<int>, i: int, days: int) -> (int, int)
    decreases lengths.len() - i,
{
    if i >= lengths.len() || i < 0 || days < lengths[i] {
        (i + 1, days)
    } else {
        civil_month(lengths, i + 1, days - lengths[i])
    }
}

/// `s` padded on the left with zeros to at least `width` characters.
pub open spec fn zero_pad(s: Seq<char>, width: nat) -> Seq<char> {
    if s.len() >= width {
        s
    } else {
        Seq::new((width - s.len()) as nat, |i: int| '0') + s
    }
}

/// The ISO 8601 rendering `YYYY-MM-DDTHH:MM:SSZ` of a UNIX timestamp in
/// seconds.
pub open spec fn iso8601(secs: nat) -> Seq<char> {
    let days = secs / 86400;
    let tod = secs % 86400;
    let (year, rem) = civil_year(1970, days as int);
    let (month, rem2) = civil_month(month_lengths(year), 0, rem);
    zero_pad(decimal_seq(year as nat), 4) + "-"@ + zero_pad(decimal_seq(month as nat), 2) + "-"@
        + zero_pad(decimal_seq((rem2 + 1) as nat), 2) + "T"@ + zero_pad(decimal_seq(tod / 3600), 2) + ":"@
        + zero_pad(decimal_seq((tod % 3600) / 60), 2) + ":"@ + zero_pad(decimal_seq(tod % 60), 2) + "Z"@
}

fn padded_decimal(n: u64, width: usize) -> (s: String)
    ensures
        s@ == zero_pad(decimal_seq(n as nat), width as nat),
{
    let digits = u64_to_decimal(n);
    let len = digits.unicode_len();
    let mut pad = String::new();
    let mut k: usize = len;
    while k < width
        invariant
            len == digits@.len(),
            len <= k,
            k <= width || k == len,
            pad@.len() == k - len,
            forall|i: int| 0 <= i < pad@.len() ==> pad@[i] == '0',
        decreases width - k,
    {
        push_char(&mut pad, '0');
        k = k + 1;
    }
    pad.append(digits.as_str());
    proof {
        if len < width {
            assert(pad@ =~= Seq::new((width - len) as nat, |i: int| '0') + digits@);
        } else {
            assert(pad@ =~= digits@);
        }
    }
    pad
}

/// Renders a UNIX timestamp as `YYYY-MM-DDTHH:MM:SSZ`; a time before the
/// epoch (`None`) renders as `unknown`.
pub fn humanize_system_time(secs_since_epoch: Option<u64>) -> (r: String)
    ensures
        match secs_since_epoch {
            Some(secs) => r@ == iso8601(secs as nat),
            None => r@ == "unknown"@,
        },
{
    let secs = match secs_since_epoch {
        Some(s) => s,
        None => {
            return String::from_str("unknown");
        },
    };
    let days_since_epoch = secs / 86400;
    let time_of_day = secs % 86400;
    let hours = time_of_day / 3600;
    let minutes = (time_of_day % 3600) / 60;
    let seconds = time_of_day % 60;

    let mut year: i64 = 1970;
    let mut remaining: i64 = days_since_epoch as i64;
    loop
        invariant
            1970 <= year <= 1970 + days_since_epoch,
            0 <= remaining <= days_since_epoch,
            remaining + (year - 1970) * 365 <= days_since_epoch,
            civil_year(year as int, remaining as int) == civil_year(1970, days_since_epoch as int),
            days_since_epoch == secs / 86400,
        ensures
            0 <= remaining < year_days(year as int),
            civil_year(year as int, remaining as int) == civil_year(1970, days_since_epoch as int),
            1970 <= year <= 1970 + days_since_epoch,
        decreases remaining,
    {
        let days_in_year: i64 = if is_leap_year(year) { 366 } else { 365 };
        if remaining < days_in_year {
            break;
        }
        remaining = remaining - days_in_year;
        year = year + 1;
    }
    let ghost year_rem = remaining;
    proof {
        assert(civil_year(year as int, remaining as int) == (year as int, remaining as int));
    }
    let leap_year = is_leap_year(year);
    let month_days: [i64; 12] = if leap_year {
        [31, 29, 31, 30, 31, 30, 31, 31, 30, 31, 30, 31]
    } else {
        [31, 28, 31, 30, 31, 30, 31, 31, 30, 31, 30, 31]
    };
    proof {
        assert(month_days@.map_values(|x: i64| x as int) =~= month_lengths(year as int));
    }
    let mut month: u32 = 1;
    let mut i: usize = 0;
    while i < 12
        invariant
            month == i + 1,
            i <= 12,
            0 <= remaining,
            remaining <= 366,
            month_days@.map_values(|x: i64| x as int) == month_lengths(year as int),
            civil_month(month_lengths(year as int), i as int, remaining as int) == civil_month(
                month_lengths(year as int), 0, civil_year(1970, days_since_epoch as int).1),
        ensures
            month == i + 1,
            0 <= remaining <= 366,
            i == 12 || remaining < month_lengths(year as int)[i as int],
            i <= 12,
            civil_month(month_lengths(year as int), i as int, remaining as int) == civil_month(
                month_lengths(year as int), 0, civil_year(1970, days_since_epoch as int).1),
        decreases 12 - i,
    {
        let md = month_days[i];
        assert(md == month_lengths(year as int)[i as int]);
        if remaining < md {
            break;
        }
        remaining = remaining - md;
        month = month + 1;
        i = i + 1;
    }
    let day = remaining + 1;
    proof {
        let (y, r) = civil_year(1970, days_since_epoch as int);
        assert(y == year && r == year_rem as int);
        assert(civil_month(month_lengths(year as int), i as int, remaining as int) == (month as int, remaining as int));
    }
    let mut out = padded_decimal(year as u64, 4);
    out.append("-");
    out.append(padded_decimal(month as u64, 2).as_str());
    out.append("-");
    out.append(padded_decimal(day as u64, 2).as_str());
    out.append("T");
    out.append(padded_decimal(hours, 2).as_str());
    out.append(":");
    out.append(padded_decimal(minutes, 2).as_str());
    out.append(":");
    out.append(padded_decimal(seconds, 2).as_str());
    out.append("Z");
    out
}

/// The current time in milliseconds since the UNIX epoch (0 for a clock set
/// before the epoch), from `SystemTime::now` and `duration_since`. Nothing
/// is promised of the value: it is the wall clock.
#[verifier::external_body]
pub fn now_millis() -> u64 {
    match std::time::SystemTime::now().duration_since(std::time::UNIX_EPOCH) {
        Ok(d) => d.as_millis() as u64,
        Err(_) => 0,
    }
}

/// The current time in whole seconds since the UNIX epoch (0 for a clock
/// set before the epoch): the wall clock's milliseconds, truncated.
pub fn unix_seconds() -> (r: u64)
    ensures
        r <= u64::MAX / 1000,
{
    now_millis() / 1000
}

/// The current UNIX time in seconds, in decimal.
pub fn now_string() -> (r: String)
    ensures
        exists|secs: u64| secs <= u64::MAX / 1000 && r@ == decimal_seq(secs as nat),
{
    let secs = unix_seconds();
    u64_to_decimal(secs)
}

/// The current UNIX time in seconds, in decimal (the timestamp of agent
/// configuration records).
pub fn chrono_like_now() -> (r: String)
    ensures
        exists|secs: u64| secs <= u64::MAX / 1000 && r@ == decimal_seq(secs as nat),
{
    now_string()
}

} // verus!
