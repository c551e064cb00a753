//! Points in time and their local calendar rendering.

use vstd::prelude::*;
use crate::text::{push_zero_padded, string_of, zero_padded};
use chrono::{Datelike, Local, TimeZone, Timelike, Utc};

verus! {

/// A point in time: whole seconds since the Unix epoch (negative before it)
/// and the nanoseconds within that second.
#[derive(Clone, Copy, Debug, PartialEq, Eq)]
pub struct Timestamp {
    pub secs: i64,
    pub nanos: u32,
}

impl Timestamp {
    /// The Unix epoch.
    pub fn unix_epoch() -> (t: Timestamp)
        ensures
            t.secs == 0 && t.nanos == 0,
    {
        Timestamp { secs: 0, nanos: 0 }
    }
}

/// A calendar date and wall-clock time.
#[derive(Clone, Copy, Debug, PartialEq, Eq)]
pub struct DateTimeFields {
    pub year: i32,
    pub month: u32,
    pub day: u32,
    pub hour: u32,
    pub minute: u32,
    pub second: u32,
}

impl DateTimeFields {
    /// Each field lies in the range of a calendar date and a time of day.
    pub open spec fn valid(self) -> bool {
        &&& 1 <= self.month <= 12
        &&& 1 <= self.day <= 31
        &&& self.hour <= 23
        &&& self.minute <= 59
        &&& self.second <= 59
    }
}

/// The year as `%Y` renders it: four digits with zero padding for years
/// 0 to 9999, otherwise a sign followed by at least four digits.
pub open spec fn year_text(y: int) -> Seq<char> {
    if 0 <= y <= 9999 {
        zero_padded(y as nat, 4)
    } else if y < 0 {
        seq!['-'] + zero_padded((-y) as nat, 4)
    } else {
        seq!['+'] + zero_padded(y as nat, 4)
    }
}

/// The text `%Y-%m-%d %H-%M-%S` for the given fields.
pub open spec fn date_time_text(f: DateTimeFields) -> Seq<char> {
    year_text(f.year as int) + seq!['-'] + zero_padded(f.month as nat, 2) + seq!['-']
        + zero_padded(f.day as nat, 2) + seq![' '] + zero_padded(f.hour as nat, 2) + seq!['-']
        + zero_padded(f.minute as nat, 2) + seq!['-'] + zero_padded(f.second as nat, 2)
}

/// Renders the fields as `YYYY-MM-DD HH-MM-SS`.
pub fn format_date_time(f: &DateTimeFields) -> (s: String)
    ensures
        s@ == date_time_text(*f),
{
    let mut v: Vec<char> = Vec::new();
    let y: i64 = f.year as i64;
    if 0 <= y && y <= 9999 {
        push_zero_padded(&mut v, y as u64, 4);
    } else if y < 0 {
        v.push('-');
        push_zero_padded(&mut v, (-y) as u64, 4);
    } else {
        v.push('+');
        push_zero_padded(&mut v, y as u64, 4);
    }
    assert(v@ =~= year_text(f.year as int));
    v.push('-');
    push_zero_padded(&mut v, f.month as u64, 2);
    v.push('-');
    push_zero_padded(&mut v, f.day as u64, 2);
    v.push(' ');
    push_zero_padded(&mut v, f.hour as u64, 2);
    v.push('-');
    push_zero_padded(&mut v, f.minute as u64, 2);
    v.push('-');
    push_zero_padded(&mut v, f.second as u64, 2);
    assert(v@ =~= date_time_text(*f));
    string_of(&v)
}

/// The proleptic Gregorian date and time of day (astronomical years, so the
/// year before 1 is 0) that lie `s` seconds after 1970-01-01 00:00:00.
pub open spec fn civil_fields(s: int) -> DateTimeFields {
    let days = s / 86400;
    let sod = s % 86400;
    let z = days + 719468;
    let era = z / 146097;
    let doe = z % 146097;
    let yoe = (doe - doe / 1460 + doe / 36524 - doe / 146096) / 365;
    let doy = doe - (365 * yoe + yoe / 4 - yoe / 100);
    let mp = (5 * doy + 2) / 153;
    let d = doy - (153 * mp + 2) / 5 + 1;
    let m = if mp < 10 { mp + 3 } else { mp - 9 };
    let y = yoe + era * 400 + (if m <= 2 { 1int } else { 0int });
    DateTimeFields {
        year: y as i32,
        month: m as u32,
        day: d as u32,
        hour: (sod / 3600) as u32,
        minute: (sod % 3600 / 60) as u32,
        second: (sod % 60) as u32,
    }
}

/// The civil fields of `t` shifted by `off` seconds.
pub open spec fn shifted_fields(t: Timestamp, off: int) -> DateTimeFields {
    civil_fields(t.secs + off)
}

/// `s` renders, as `YYYY-MM-DD HH-MM-SS`, the calendar fields of `t` shifted
/// by some time-zone offset of less than a day.
pub open spec fn is_local_rendering(s: Seq<char>, t: Timestamp) -> bool {
    exists|off: int| -86400 < off < 86400 && s == date_time_text(#[trigger] shifted_fields(t, off))
}

/// `t` lies well within the calendar that chrono represents (dates from the
/// year -262143 to 262142): its nanoseconds are below one second and it is
/// at most 8 * 10^12 seconds (about 250,000 years) from the Unix epoch.
pub open spec fn calendar_representable(t: Timestamp) -> bool {
    &&& t.nanos < 1_000_000_000
    &&& -8_000_000_000_000 <= t.secs <= 8_000_000_000_000
}

/// Converts `t` to the calendar fields of the machine's local time zone, via
/// chrono's `Utc.timestamp_opt` and `DateTime::with_timezone(&Local)`.
/// Trusted: a result comes back for every `t` that is `calendar_representable`
/// (`timestamp_opt` gives `None` only for a day count outside chrono's dates
/// or an invalid nanosecond); its fields lie in their calendar ranges; and
/// they are the civil fields of `t` shifted by the zone's offset, which
/// `FixedOffset::east_opt` keeps strictly within one day either way (the
/// local date and time are the UTC ones plus that offset, also past
/// chrono's outermost dates).
/// Not stated: which offset applies (it depends on the machine's time zone).
#[verifier::external_body]
fn local_date_time(t: Timestamp) -> (r: Option<DateTimeFields>)
    ensures
        calendar_representable(t) ==> r is Some,
        r matches Some(f) ==> f.valid(),
        r matches Some(f) ==> exists|off: int| -86400 < off < 86400 && f == #[trigger] shifted_fields(t, off),
{
    match Utc.timestamp_opt(t.secs, t.nanos).single() {
        Some(utc) => {
            let l = utc.with_timezone(&Local);
            Some(DateTimeFields {
                year: l.year(), month: l.month(), day: l.day(),
                hour: l.hour(), minute: l.minute(), second: l.second(),
            })
        },
        None => None,
    }
}

/// Renders `t` in local time as `YYYY-MM-DD HH-MM-SS`; `None` when the
/// calendar library cannot represent `t`, which never happens for a
/// `calendar_representable` time.
pub fn st_to_date_and_time(t: Timestamp) -> (r: Option<String>)
    ensures
        calendar_representable(t) ==> r is Some,
        r matches Some(s) ==> is_local_rendering(s@, t),
        r matches Some(s) ==> exists|f: DateTimeFields| f.valid() && s@ == date_time_text(f),
{
    match local_date_time(t) {
        Some(f) => {
            let s = format_date_time(&f);
            proof {
                let off = choose|off: int| -86400 < off < 86400 && f == #[trigger] shifted_fields(t, off);
                assert(s@ == date_time_text(shifted_fields(t, off)));
            }
            Some(s)
        },
        None => None,
    }
}

} // verus!
