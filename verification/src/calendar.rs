//! Timestamp formatting.
//!
//! Raw timestamps are 100-nanosecond ticks since 1601-01-01T00:00:00Z. A
//! fixed offset constant places the Unix epoch on that scale; ticks below it
//! render as the `"Invalid date"` sentinel, never as an error. At or above
//! it, the tick count is floor-divided down to whole Unix seconds, shifted by
//! a zone offset, decomposed into a proleptic Gregorian civil date, and
//! rendered as `YYYY-MM-DD HH:MM:SS`.
//!
//! The civil decomposition and the rendering are verified here from plain
//! integer arithmetic; only the lookup of the machine's local zone offset is
//! delegated to an outside crate.

use vstd::prelude::*;

use crate::human::{dec_seq, two_digit_seq, append_decimal, append_two_digits};
use chrono::{Local, LocalResult, TimeZone};

verus! {

/// Ticks (100 ns each) from 1601-01-01T00:00:00Z to 1970-01-01T00:00:00Z.
pub const WINDOWS_TO_UNIX_OFFSET: u64 = 116444736000000000;

pub const TICKS_PER_SECOND: u64 = 10000000;

pub const SECONDS_PER_DAY: u64 = 86400;

pub open spec fn is_leap_year(y: int) -> bool {
    y % 4 == 0 && (y % 100 != 0 || y % 400 == 0)
}

pub open spec fn days_in_year(y: int) -> int {
    if is_leap_year(y) {
        366
    } else {
        365
    }
}

pub open spec fn days_in_month(y: int, m: int) -> int {
    if m == 2 {
        if is_leap_year(y) {
            29
        } else {
            28
        }
    } else if m == 4 || m == 6 || m == 9 || m == 11 {
        30
    } else {
        31
    }
}

/// Walks years upward from `y`, consuming whole years out of `days`; yields
/// the year that the remaining day count falls in, and the zero-based day of
/// that year.
pub open spec fn split_year(days: nat, y: int) -> (int, nat)
    decreases days,
{
    if days < days_in_year(y) {
        (y, days)
    } else {
        split_year((days - days_in_year(y)) as nat, y + 1)
    }
}

/// Walks months upward from `m`, consuming whole months out of `doy`; yields
/// the month that the remaining day count falls in, and the zero-based day of
/// that month.
pub open spec fn split_month(doy: nat, y: int, m: int) -> (int, nat)
    decreases 12 - m,
{
    if m >= 12 || doy < days_in_month(y, m) {
        (m, doy)
    } else {
        split_month((doy - days_in_month(y, m)) as nat, y, m + 1)
    }
}

/// Total days in months `m ..= 12` of year `y`.
pub open spec fn days_in_months_from(y: int, m: int) -> int
    decreases 13 - m,
{
    if m < 1 || m > 12 {
        0
    } else {
        days_in_month(y, m) + days_in_months_from(y, m + 1)
    }
}

/// The twelve months of a year together hold exactly its day count.
pub proof fn lemma_months_cover_year(y: int)
    ensures
        days_in_months_from(y, 1) == days_in_year(y),
{
    reveal_with_fuel(days_in_months_from, 13);
}

/// `YYYY-MM-DD HH:MM:SS` from a civil date and a second-of-day count.
pub open spec fn render_seq(y: nat, m: nat, d: nat, sod: nat) -> Seq<char> {
    dec_seq(y) + seq!['-'] + two_digit_seq(m) + seq!['-'] + two_digit_seq(d) + seq![' ']
        + two_digit_seq(sod / 3600) + seq![':'] + two_digit_seq((sod % 3600) / 60) + seq![':']
        + two_digit_seq(sod % 60)
}

pub open spec fn invalid_date_seq() -> Seq<char> {
    seq!['I', 'n', 'v', 'a', 'l', 'i', 'd', ' ', 'd', 'a', 't', 'e']
}

/// The rendering of a zone-shifted second count relative to the Unix epoch.
/// A negative count still within one day of the epoch (the deepest a valid
/// zone offset can reach) falls on 1969-12-31.
pub open spec fn local_civil_seq(local: int) -> Seq<char>
    recommends
        -86400 < local,
{
    if local < 0 {
        render_seq(1969, 12, 31, (local + 86400) as nat)
    } else {
        let days = (local / 86400) as nat;
        let sod = (local % 86400) as nat;
        let yd = split_year(days, 1970);
        let md = split_month(yd.1, yd.0, 1);
        render_seq(yd.0 as nat, md.0 as nat, (md.1 + 1) as nat, sod)
    }
}

/// What `human_readable_date_at_offset` returns for any tick count and zone
/// offset: the sentinel below the epoch constant, the civil rendering
/// otherwise.
pub open spec fn timestamp_seq(ticks: u64, offset_seconds: int) -> Seq<char> {
    if ticks < WINDOWS_TO_UNIX_OFFSET {
        invalid_date_seq()
    } else {
        local_civil_seq(
            (ticks - WINDOWS_TO_UNIX_OFFSET) as int / (TICKS_PER_SECOND as int) + offset_seconds,
        )
    }
}

/// What `human_readable_date` may return for a tick count: exactly the
/// sentinel below the epoch constant; above it, the rendering under some
/// valid zone offset, or the sentinel where the zone lookup yields no civil
/// time.
pub open spec fn local_date_ok(ticks: u64, s: Seq<char>) -> bool {
    if ticks < WINDOWS_TO_UNIX_OFFSET {
        s == invalid_date_seq()
    } else {
        s == invalid_date_seq() || (exists|off: int|
            -86400 < off < 86400 && s == #[trigger] timestamp_seq(ticks, off))
    }
}

fn invalid_date_string() -> (r: String)
    ensures
        r@ == invalid_date_seq(),
{
    proof {
        reveal_strlit("Invalid date");
        assert("Invalid date"@ =~= invalid_date_seq());
    }
    String::from_str("Invalid date")
}

fn days_in_year_exec(y: u64) -> (r: u64)
    ensures
        r == days_in_year(y as int),
{
    if y % 4 == 0 && (y % 100 != 0 || y % 400 == 0) {
        366
    } else {
        365
    }
}

fn days_in_month_exec(y: u64, m: u64) -> (r: u64)
    requires
        1 <= m <= 12,
    ensures
        r == days_in_month(y as int, m as int),
{
    if m == 2 {
        if y % 4 == 0 && (y % 100 != 0 || y % 400 == 0) {
            29
        } else {
            28
        }
    } else if m == 4 || m == 6 || m == 9 || m == 11 {
        30
    } else {
        31
    }
}

fn split_year_exec(days: u64) -> (r: (u64, u64))
    requires
        days <= 40_000_000_000,
    ensures
        split_year(days as nat, 1970) == (r.0 as int, r.1 as nat),
        1970 <= r.0,
        r.1 < days_in_year(r.0 as int),
{
    let mut y: u64 = 1970;
    let mut d: u64 = days;
    loop
        invariant
            1970 <= y,
            d <= days,
            days <= 40_000_000_000,
            y - 1970 <= days - d,
            split_year(days as nat, 1970) == split_year(d as nat, y as int),
        decreases d,
    {
        let diy = days_in_year_exec(y);
        if d < diy {
            proof {
                assert(split_year(d as nat, y as int) == (y as int, d as nat));
            }
            return (y, d);
        }
        proof {
            assert(split_year(d as nat, y as int) == split_year(
                (d - diy) as nat,
                y as int + 1,
            ));
        }
        d = d - diy;
        y = y + 1;
    }
}

fn split_month_exec(doy: u64, y: u64) -> (r: (u64, u64))
    requires
        doy < days_in_year(y as int),
    ensures
        split_month(doy as nat, y as int, 1) == (r.0 as int, r.1 as nat),
        1 <= r.0 <= 12,
        r.1 < days_in_month(y as int, r.0 as int),
{
    proof {
        lemma_months_cover_year(y as int);
    }
    let mut m: u64 = 1;
    let mut d: u64 = doy;
    loop
        invariant
            1 <= m <= 12,
            d <= doy,
            d < days_in_months_from(y as int, m as int),
            split_month(doy as nat, y as int, 1) == split_month(d as nat, y as int, m as int),
        decreases 12 - m,
    {
        let dim = days_in_month_exec(y, m);
        if d < dim {
            proof {
                assert(split_month(d as nat, y as int, m as int) == (m as int, d as nat));
            }
            return (m, d);
        }
        proof {
            assert(days_in_months_from(y as int, m as int) == days_in_month(y as int, m as int)
                + days_in_months_from(y as int, m as int + 1));
            assert(m < 12);
            assert(split_month(d as nat, y as int, m as int) == split_month(
                (d - dim) as nat,
                y as int,
                m as int + 1,
            ));
        }
        d = d - dim;
        m = m + 1;
    }
}

fn render_civil(y: u64, m: u64, d: u64, sod: u64) -> (r: String)
    requires
        m < 100,
        d < 100,
        sod < 86400,
    ensures
        r@ == render_seq(y as nat, m as nat, d as nat, sod as nat),
{
    proof {
        reveal_strlit("-");
        assert("-"@ =~= seq!['-']);
        reveal_strlit(" ");
        assert(" "@ =~= seq![' ']);
        reveal_strlit(":");
        assert(":"@ =~= seq![':']);
    }
    let mut s = String::new();
    append_decimal(&mut s, y);
    s.append("-");
    append_two_digits(&mut s, m);
    s.append("-");
    append_two_digits(&mut s, d);
    s.append(" ");
    append_two_digits(&mut s, sod / 3600);
    s.append(":");
    append_two_digits(&mut s, (sod % 3600) / 60);
    s.append(":");
    append_two_digits(&mut s, sod % 60);
    proof {
        assert(s@ =~= render_seq(y as nat, m as nat, d as nat, sod as nat));
    }
    s
}

/// Formats a raw tick timestamp at an explicit zone offset. The pure,
/// fully-specified core of timestamp rendering: the tick count below the
/// epoch constant yields exactly the `"Invalid date"` sentinel, any other
/// yields the civil date and time of the zone-shifted instant.
pub fn human_readable_date_at_offset(timestamp: u64, offset_seconds: i32) -> (r: String)
    requires
        -86400 < offset_seconds < 86400,
    ensures
        r@ == timestamp_seq(timestamp, offset_seconds as int),
{
    if timestamp < WINDOWS_TO_UNIX_OFFSET {
        return invalid_date_string();
    }
    let elapsed: u64 = timestamp - WINDOWS_TO_UNIX_OFFSET;
    let unix: u64 = elapsed / TICKS_PER_SECOND;
    proof {
        vstd::arithmetic::div_mod::lemma_div_is_ordered(
            elapsed as int,
            u64::MAX as int,
            TICKS_PER_SECOND as int,
        );
        assert(unix <= u64::MAX as int / TICKS_PER_SECOND as int);
    }
    let local: i64 = unix as i64 + offset_seconds as i64;
    if local < 0 {
        let sod: u64 = (local + 86400) as u64;
        render_civil(1969, 12, 31, sod)
    } else {
        let lu: u64 = local as u64;
        let days: u64 = lu / SECONDS_PER_DAY;
        let sod: u64 = lu % SECONDS_PER_DAY;
        proof {
            vstd::arithmetic::div_mod::lemma_div_is_ordered(
                lu as int,
                u64::MAX as int / TICKS_PER_SECOND as int + 86400,
                SECONDS_PER_DAY as int,
            );
        }
        let yd = split_year_exec(days);
        let md = split_month_exec(yd.1, yd.0);
        render_civil(yd.0, md.0, md.1 + 1, sod)
    }
}

/// Relies on chrono's `TimeZone::timestamp_opt` on `Local`: resolves a Unix
/// second count in the machine's local zone, yielding that zone's
/// UTC offset in seconds for the instant. Of an ambiguous civil time the
/// earlier candidate is taken; `None` where chrono maps the instant to no
/// civil time. A chrono `FixedOffset` lies strictly within a day of UTC.
#[verifier::external_body]
fn local_utc_offset_seconds(unix_seconds: i64) -> (r: Option<i32>)
    ensures
        r matches Some(off) ==> -86400 < off < 86400,
{
    match Local.timestamp_opt(unix_seconds, 0) {
        LocalResult::Single(dt) => Some(dt.offset().local_minus_utc()),
        LocalResult::Ambiguous(dt, _) => Some(dt.offset().local_minus_utc()),
        LocalResult::None => None,
    }
}

/// Formats a raw tick timestamp in the machine's local time zone. Below the
/// epoch constant the result is exactly the `"Invalid date"` sentinel;
/// otherwise it is the civil rendering under the zone offset that the
/// machine resolves for the instant, or the sentinel where no civil time
/// exists there.
pub fn human_readable_date(timestamp: u64) -> (r: String)
    ensures
        local_date_ok(timestamp, r@),
{
    if timestamp < WINDOWS_TO_UNIX_OFFSET {
        return invalid_date_string();
    }
    let elapsed: u64 = timestamp - WINDOWS_TO_UNIX_OFFSET;
    let unix: u64 = elapsed / TICKS_PER_SECOND;
    proof {
        vstd::arithmetic::div_mod::lemma_div_is_ordered(
            elapsed as int,
            u64::MAX as int,
            TICKS_PER_SECOND as int,
        );
    }
    match local_utc_offset_seconds(unix as i64) {
        None => invalid_date_string(),
        Some(off) => {
            let r = human_readable_date_at_offset(timestamp, off);
            proof {
                assert(-86400 < (off as int) && (off as int) < 86400);
                assert(r@ == timestamp_seq(timestamp, off as int));
            }
            r
        },
    }
}

} // verus!
