//! The captured debug message and the local time it carries.

use vstd::prelude::*;

verus! {

/// Seconds of the earliest time `chrono` represents (January 1 of year -262143).
pub const MIN_TIMESTAMP: i64 = -8334601228800;

/// Seconds of the latest whole second `chrono` represents (December 31 of year 262142).
pub const MAX_TIMESTAMP: i64 = 8210266876799;

/// Whether a wall-clock time, given as seconds since 1970-01-01 00:00:00 of the
/// same clock and a sub-second count of nanoseconds, is one that `chrono`
/// represents (no leap second).
pub open spec fn in_time_range(secs: i64, nanos: u32) -> bool {
    MIN_TIMESTAMP <= secs <= MAX_TIMESTAMP && nanos < 1_000_000_000
}

/// What `chrono` writes for the wall-clock time (`secs`, `nanos`) with the
/// `strftime` format `fmt`.
pub uninterp spec fn chrono_time_text(secs: i64, nanos: u32, fmt: Seq<char>) -> Seq<char>;

/// The time format of log lines, `2026-06-04 10:23:45.123`.
pub open spec fn time_format_spec() -> Seq<char> {
    "%Y-%m-%d %H:%M:%S%.3f"@
}

/// Writes the wall-clock time (`secs`, `nanos`) with the `strftime` format
/// `fmt`, through `chrono::DateTime::from_timestamp` and `NaiveDateTime::format`.
/// The result is named by `chrono_time_text`. The `requires` admits the times
/// `chrono` represents and the one format of this library, which `chrono` parses.
#[verifier::external_body]
fn chrono_format(secs: i64, nanos: u32, fmt: &str) -> (s: String)
    requires
        in_time_range(secs, nanos),
        fmt@ == time_format_spec(),
    ensures
        s@ == chrono_time_text(secs, nanos, fmt@),
{
    match chrono::DateTime::from_timestamp(secs, nanos) {
        Some(t) => t.naive_utc().format(fmt).to_string(),
        None => String::new(),
    }
}

/// A local wall-clock time, to the nanosecond.
#[derive(Debug, Clone, Copy)]
pub struct LocalTime {
    secs: i64,
    nanos: u32,
}

impl LocalTime {
    #[verifier::type_invariant]
    spec fn represented(self) -> bool {
        in_time_range(self.secs, self.nanos)
    }

    /// Seconds since 1970-01-01 00:00:00 of the local clock.
    pub closed spec fn secs_spec(self) -> i64 {
        self.secs
    }

    /// Nanoseconds within the second.
    pub closed spec fn nanos_spec(self) -> u32 {
        self.nanos
    }

    /// The time (`secs`, `nanos`), when it is one that can be written.
    pub fn from_timestamp(secs: i64, nanos: u32) -> (t: Option<LocalTime>)
        ensures
            t is Some <==> in_time_range(secs, nanos),
            t matches Some(t) ==> t.secs_spec() == secs && t.nanos_spec() == nanos,
    {
        if MIN_TIMESTAMP <= secs && secs <= MAX_TIMESTAMP && nanos < 1_000_000_000 {
            Some(LocalTime { secs, nanos })
        } else {
            None
        }
    }

    /// Seconds since 1970-01-01 00:00:00 of the local clock.
    pub fn secs(&self) -> (s: i64)
        ensures
            s == self.secs_spec(),
    {
        self.secs
    }

    /// Nanoseconds within the second.
    pub fn nanos(&self) -> (n: u32)
        ensures
            n == self.nanos_spec(),
    {
        self.nanos
    }

    /// The time as log lines write it.
    pub open spec fn text_spec(self) -> Seq<char> {
        chrono_time_text(self.secs_spec(), self.nanos_spec(), time_format_spec())
    }

    /// The time as log lines write it (`%Y-%m-%d %H:%M:%S%.3f`).
    pub fn text(&self) -> (s: String)
        ensures
            s@ == self.text_spec(),
    {
        proof {
            use_type_invariant(self);
        }
        chrono_format(self.secs, self.nanos, "%Y-%m-%d %H:%M:%S%.3f")
    }
}

/// A debug output read from the shared buffer.
#[derive(Debug, Clone)]
pub struct DebugMessage {
    /// Id of the process that wrote it.
    pub pid: u32,
    /// Name of that process (such as `myapp.exe`), `None` when unknown.
    pub process_name: Option<String>,
    /// Decoded text, without its trailing line break.
    pub text: String,
    /// Local time of capture.
    pub timestamp: LocalTime,
}

impl DebugMessage {
    /// A message captured at `timestamp` (the program reads the local clock).
    pub fn new(
        pid: u32,
        process_name: Option<String>,
        text: String,
        timestamp: LocalTime,
    ) -> (m: DebugMessage)
        ensures
            m.pid == pid,
            m.process_name == process_name,
            m.text == text,
            m.timestamp == timestamp,
    {
        DebugMessage { pid, process_name, text, timestamp }
    }
}

} // verus!
