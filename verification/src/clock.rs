//! Points in time as plain numbers, and their text form.

use vstd::prelude::*;
use vstd::string::*;

verus! {

/// A point in time: seconds and nanoseconds since the start of 1970, UTC.
#[derive(Debug, Clone, Copy, PartialEq, Eq, Structural)]
pub struct Timestamp {
    /// Whole seconds since the epoch; negative before it.
    pub secs: i64,
    /// Nanoseconds within the second.
    pub nanos: u32,
}

/// What the clocks said when an event of a walk was handled.
#[derive(Debug, Clone, Copy, PartialEq, Eq, Structural)]
pub struct ClockReading {
    /// Milliseconds since the scan began, from a clock that never runs back.
    pub elapsed_ms: u64,
    /// The time of day.
    pub now: Timestamp,
}

/// Nanoseconds in a second.
pub const NANOS_PER_SECOND: u32 = 1_000_000_000;

/// The RFC 3339 text of a point in time as chrono writes it, or `None` where
/// chrono cannot represent the point.
pub uninterp spec fn rfc3339_text(secs: int, nanos: int) -> Option<Seq<char>>;

/// The value of a text that may be missing.
pub open spec fn optional_text(text: Option<String>) -> Option<Seq<char>> {
    match text {
        Some(t) => Some(t@),
        None => None,
    }
}

/// The last second of the year 9999, in seconds since the epoch.
pub const LAST_SECOND_OF_9999: i64 = 253_402_300_799;

/// Whether a point in time lies between the epoch and the end of the year
/// 9999, with nanoseconds that are less than a second.
pub open spec fn in_four_digit_years(secs: int, nanos: int) -> bool {
    0 <= secs <= LAST_SECOND_OF_9999 && 0 <= nanos < NANOS_PER_SECOND
}

/// Whether the text, where there is one, is not empty.
pub open spec fn not_blank(text: Option<String>) -> bool {
    text matches Some(t) ==> t@.len() > 0
}

/// Calls chrono's `DateTime::from_timestamp` and, on the date that it gives,
/// `DateTime::to_rfc3339`. The first returns `None` for seconds out of range or
/// invalid nanoseconds; the second never fails. The contract gives the outcome
/// its name, [`rfc3339_text`], and claims two facts of it. No text is empty:
/// chrono always writes the digits of the date. And a point between the epoch
/// and the end of the year 9999 has a text: chrono's dates reach far beyond
/// that year, and it takes every number of nanoseconds below a second.
#[verifier::external_body]
pub(crate) fn format_unix_time(secs: i64, nanos: u32) -> (text: Option<String>)
    ensures
        optional_text(text) == rfc3339_text(secs as int, nanos as int),
        not_blank(text),
        in_four_digit_years(secs as int, nanos as int) ==> text is Some,
{
    match chrono::DateTime::from_timestamp(secs, nanos) {
        Some(date) => Some(date.to_rfc3339()),
        None => None,
    }
}

impl Timestamp {
    /// The point in time as nanoseconds since the epoch.
    pub open spec fn total_nanos(self) -> int {
        self.secs * NANOS_PER_SECOND + self.nanos
    }

    /// The point that lies the given span after the epoch, where its seconds
    /// can be counted.
    pub open spec fn after_epoch_model(secs: u64, nanos: u32) -> Option<Timestamp> {
        if secs <= i64::MAX {
            Some(Timestamp { secs: secs as i64, nanos: nanos })
        } else {
            None
        }
    }

    /// The point that lies the given span before the epoch, where its seconds
    /// can be counted and the nanoseconds are less than a second. A part of a
    /// second is counted forward from the second before.
    pub open spec fn before_epoch_model(secs: u64, nanos: u32) -> Option<Timestamp> {
        if secs > i64::MAX || nanos >= NANOS_PER_SECOND {
            None
        } else if nanos == 0 {
            Some(Timestamp { secs: (-secs) as i64, nanos: 0 })
        } else {
            Some(
                Timestamp {
                    secs: (-secs - 1) as i64,
                    nanos: (NANOS_PER_SECOND - nanos) as u32,
                },
            )
        }
    }

    /// The point in time that lies `secs` seconds and `nanos` nanoseconds
    /// after the epoch.
    pub fn after_epoch(secs: u64, nanos: u32) -> (stamp: Option<Timestamp>)
        ensures
            stamp == Self::after_epoch_model(secs, nanos),
            stamp matches Some(t) ==> t.total_nanos() == secs * NANOS_PER_SECOND + nanos,
    {
        if secs > i64::MAX as u64 {
            None
        } else {
            Some(Timestamp { secs: secs as i64, nanos })
        }
    }

    /// The point in time that lies `secs` seconds and `nanos` nanoseconds
    /// before the epoch.
    pub fn before_epoch(secs: u64, nanos: u32) -> (stamp: Option<Timestamp>)
        ensures
            stamp == Self::before_epoch_model(secs, nanos),
            stamp matches Some(t) ==> t.total_nanos() == -(secs * NANOS_PER_SECOND + nanos)
                && t.nanos < NANOS_PER_SECOND,
    {
        if secs > i64::MAX as u64 || nanos >= NANOS_PER_SECOND {
            None
        } else if nanos == 0 {
            Some(Timestamp { secs: -(secs as i64), nanos: 0 })
        } else {
            Some(Timestamp { secs: -(secs as i64) - 1, nanos: NANOS_PER_SECOND - nanos })
        }
    }

    /// The text of this point in time, where it has one.
    pub open spec fn text(self) -> Option<Seq<char>> {
        rfc3339_text(self.secs as int, self.nanos as int)
    }

    /// Whether the point lies between the epoch and the end of the year 9999:
    /// such a point has a text.
    pub open spec fn has_text(self) -> bool {
        in_four_digit_years(self.secs as int, self.nanos as int)
    }

    /// Writes this point in time as an RFC 3339 text.
    pub fn to_rfc3339(&self) -> (text: Option<String>)
        ensures
            optional_text(text) == self.text(),
            not_blank(text),
            self.has_text() ==> text is Some,
    {
        format_unix_time(self.secs, self.nanos)
    }
}

/// The first of the two texts that is there; the empty text where neither is.
pub open spec fn first_text(preferred: Option<Seq<char>>, fallback: Option<Seq<char>>) -> Seq<
    char,
> {
    match preferred {
        Some(t) => t,
        None => match fallback {
            Some(t) => t,
            None => Seq::<char>::empty(),
        },
    }
}

/// Picks the preferred text where there is one, else the fallback, else the
/// empty text.
pub fn choose_text(preferred: Option<String>, fallback: Option<String>) -> (text: String)
    ensures
        text@ == first_text(optional_text(preferred), optional_text(fallback)),
{
    match preferred {
        Some(t) => t,
        None => match fallback {
            Some(t) => t,
            None => String::new(),
        },
    }
}

/// The text that records a time of change: that of the time itself where it is
/// known and can be written, else that of the current time.
pub open spec fn change_time_text(modified: Option<Timestamp>, now: Timestamp) -> Seq<char> {
    first_text(
        match modified {
            Some(t) => t.text(),
            None => None,
        },
        now.text(),
    )
}

/// The text of a point in time, empty where it cannot be written.
pub open spec fn time_text(stamp: Timestamp) -> Seq<char> {
    first_text(stamp.text(), None)
}

/// Writes the time of a change, falling back on the current time where the
/// change has no time that can be written.
pub fn change_time(modified: Option<Timestamp>, now: &Timestamp) -> (text: String)
    ensures
        text@ == change_time_text(modified, *now),
        now.has_text() ==> text@.len() > 0,
{
    let own = match modified {
        Some(t) => t.to_rfc3339(),
        None => None,
    };
    match own {
        Some(t) => t,
        None => choose_text(None, now.to_rfc3339()),
    }
}

/// Writes a point in time; the empty text where it cannot be written.
pub fn time_of(stamp: &Timestamp) -> (text: String)
    ensures
        text@ == time_text(*stamp),
        stamp.has_text() ==> text@.len() > 0,
{
    choose_text(stamp.to_rfc3339(), None)
}

} // verus!
