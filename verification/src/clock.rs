//! Calendar time for backup naming and staging-path uniqueness tokens. The
//! readings come from the system clock through the `chrono` crate; nothing is
//! assumed about them beyond the documented field ranges.

use vstd::prelude::*;

verus! {

/// A calendar timestamp, split into plain fields.
pub struct Timestamp {
    pub year: u32,
    pub month: u32,
    pub day: u32,
    pub hour: u32,
    pub minute: u32,
    pub second: u32,
}

impl Timestamp {
    /// The documented ranges of the calendar fields.
    pub open spec fn wf(&self) -> bool {
        &&& 1 <= self.month <= 12
        &&& 1 <= self.day <= 31
        &&& self.hour <= 23
        &&& self.minute <= 59
        &&& self.second <= 59
    }

    /// Chronological order: field by field, most significant first.
    pub open spec fn before(self, other: Timestamp) -> bool {
        if self.year != other.year {
            self.year < other.year
        } else if self.month != other.month {
            self.month < other.month
        } else if self.day != other.day {
            self.day < other.day
        } else if self.hour != other.hour {
            self.hour < other.hour
        } else if self.minute != other.minute {
            self.minute < other.minute
        } else {
            self.second < other.second
        }
    }
}

/// Relies on chrono's `Utc::now` with the `Datelike` and `Timelike`
/// accessors: `month` is 1 to 12, `day` 1 to 31, `hour` 0 to 23, `minute` and
/// `second` 0 to 59. Nothing is assumed about the reading itself. `Utc::now`
/// itself aborts on a system clock set before 1970 — an environmental state
/// no precondition on this function can exclude.
#[verifier::external_body]
pub fn now_utc() -> (r: Timestamp)
    ensures
        r.wf(),
{
    let now = chrono::Utc::now();
    Timestamp {
        year: chrono::Datelike::year(&now) as u32,
        month: chrono::Datelike::month(&now),
        day: chrono::Datelike::day(&now),
        hour: chrono::Timelike::hour(&now),
        minute: chrono::Timelike::minute(&now),
        second: chrono::Timelike::second(&now),
    }
}

/// Relies on chrono's `Utc::now` and `timestamp_nanos_opt`: a nanosecond
/// reading of the system clock, used only as a best-effort uniqueness token
/// for staging paths. Nothing is assumed about its value.
#[verifier::external_body]
pub fn unique_token() -> u64 {
    let now = chrono::Utc::now();
    now.timestamp_nanos_opt().unwrap_or(0) as u64
}

} // verus!
