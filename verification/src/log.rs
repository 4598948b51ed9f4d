//! One structured log line format for the whole app:
//! `[01:23:45.678] [audio] start ok=true`, with WARN / ERROR after the event name.
//! The time is the UTC time of day.

use vstd::prelude::*;
use crate::text::{str_eq, zero_padded, zero_padded_string};

verus! {

/// Severity of a log line.
#[derive(Debug, Clone, Copy, PartialEq, Eq, Structural)]
pub enum Level {
    Info,
    Warn,
    Error,
}

/// The level the frontend names: "warn", "error", anything else is info.
pub fn level_from_str(level: &str) -> (r: Level)
    ensures
        r == (if level@ == "warn"@ {
            Level::Warn
        } else if level@ == "error"@ {
            Level::Error
        } else {
            Level::Info
        }),
{
    if str_eq(level, "warn") {
        Level::Warn
    } else if str_eq(level, "error") {
        Level::Error
    } else {
        Level::Info
    }
}

/// "HH:MM:SS.mmm" of the UTC time of day of `ms_since_epoch`.
pub open spec fn timestamp_text(ms_since_epoch: nat) -> Seq<char> {
    let ms_of_day = ms_since_epoch % 86_400_000;
    let hh = ms_of_day / 3_600_000;
    let mm = (ms_of_day % 3_600_000) / 60_000;
    let ss = (ms_of_day % 60_000) / 1000;
    let ms = ms_of_day % 1000;
    zero_padded(hh, 2) + ":"@ + zero_padded(mm, 2) + ":"@ + zero_padded(ss, 2) + "."@
        + zero_padded(ms, 3)
}

/// The time-of-day stamp of a log line for `ms_since_epoch` (Unix milliseconds).
pub fn timestamp(ms_since_epoch: u128) -> (r: String)
    ensures
        r@ == timestamp_text(ms_since_epoch as nat),
{
    let ms_of_day = ms_since_epoch % 86_400_000;
    let hh = ms_of_day / 3_600_000;
    let mm = (ms_of_day % 3_600_000) / 60_000;
    let ss = (ms_of_day % 60_000) / 1000;
    let ms = ms_of_day % 1000;
    let mut r = zero_padded_string(hh, 2);
    r.append(":");
    let m = zero_padded_string(mm, 2);
    r.append(m.as_str());
    r.append(":");
    let s = zero_padded_string(ss, 2);
    r.append(s.as_str());
    r.append(".");
    let f = zero_padded_string(ms, 3);
    r.append(f.as_str());
    r
}

/// The marker after the event name.
pub open spec fn level_marker(level: Level) -> Seq<char> {
    match level {
        Level::Info => ""@,
        Level::Warn => "WARN "@,
        Level::Error => "ERROR "@,
    }
}

/// `[time] [event] detail`, `[time] [event] WARN detail`, `[time] [event] ERROR detail`.
pub fn format_line(stamp: &str, level: Level, event: &str, detail: &str) -> (r: String)
    ensures
        r@ == "["@ + stamp@ + "] ["@ + event@ + "] "@ + level_marker(level) + detail@,
{
    let mut r = String::from_str("[");
    r.append(stamp);
    r.append("] [");
    r.append(event);
    r.append("] ");
    match level {
        Level::Info => {
            r.append("");
        },
        Level::Warn => {
            r.append("WARN ");
        },
        Level::Error => {
            r.append("ERROR ");
        },
    }
    r.append(detail);
    r
}

} // verus!
