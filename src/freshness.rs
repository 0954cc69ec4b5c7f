use vstd::prelude::*;
use chrono::TimeZone;
use crate::text::{decimal, push_decimal, push_text};
use crate::timestamp::Timestamp;

verus! {

pub const SECONDS_PER_MINUTE: i64 = 60;
pub const SECONDS_PER_HOUR: i64 = 3600;
pub const SECONDS_PER_DAY: i64 = 86400;

/// How long ago something was seen, in words, from the seconds since then:
/// whole days, else whole hours, else whole minutes, else "Recently".
pub open spec fn age_text_spec(secs: int) -> Seq<char> {
    if secs >= 86400 {
        decimal((secs / 86400) as nat) + " days ago"@
    } else if secs >= 3600 {
        decimal((secs / 3600) as nat) + " hours ago"@
    } else if secs >= 60 {
        decimal((secs / 60) as nat) + " minutes ago"@
    } else {
        "Recently"@
    }
}

/// Describes an age given in seconds.
pub fn age_text(secs: i64) -> (r: String)
    ensures
        r@ == age_text_spec(secs as int),
{
    let mut s = String::new();
    if secs >= SECONDS_PER_DAY {
        push_decimal(&mut s, (secs / SECONDS_PER_DAY) as u64);
        push_text(&mut s, " days ago");
    } else if secs >= SECONDS_PER_HOUR {
        push_decimal(&mut s, (secs / SECONDS_PER_HOUR) as u64);
        push_text(&mut s, " hours ago");
    } else if secs >= SECONDS_PER_MINUTE {
        push_decimal(&mut s, (secs / SECONDS_PER_MINUTE) as u64);
        push_text(&mut s, " minutes ago");
    } else {
        push_text(&mut s, "Recently");
    }
    assert(s@ =~= age_text_spec(secs as int));
    s
}

/// Relies on chrono: `NaiveDate::from_ymd_opt` and `and_hms_nano_opt` build
/// the local date and time, `Local::from_local_datetime(..).earliest()` places
/// it, and `Local::now().signed_duration_since(..).num_seconds()` gives the
/// whole seconds elapsed since then. `None` where the fields name no local time.
#[verifier::external_body]
fn seconds_since(t: &Timestamp) -> (r: Option<i64>) {
    let date = chrono::NaiveDate::from_ymd_opt(t.year, t.month, t.day)?;
    let naive = date.and_hms_nano_opt(t.hour, t.minute, t.second, t.nanosecond)?;
    let then = chrono::Local.from_local_datetime(&naive).earliest()?;
    Some(chrono::Local::now().signed_duration_since(then).num_seconds())
}

/// How long ago `dt` was, in words, measured against the current local time.
/// A time that names no local time (one skipped by a clock change) reads as "Recently".
pub fn to_time_since(dt: &Timestamp) -> (r: String)
    ensures
        exists|secs: int| r@ == age_text_spec(secs),
{
    match seconds_since(dt) {
        Some(secs) => age_text(secs),
        None => age_text(0),
    }
}

} // verus!
