//! Wall-clock readings and the timestamp text the submission count is
//! compared against.
use std::time::{Duration, SystemTime, SystemTimeError, UNIX_EPOCH};
use vstd::prelude::*;

verus! {

/// The text `%Y-%m-%d %H:%M:%S` that `chrono` gives for the UTC instant
/// `secs` seconds after the Unix epoch, `None` outside chrono's date range.
pub uninterp spec fn utc_text(secs: int) -> Option<Seq<char>>;

/// `std::time::SystemTime`, a reading of the system clock.
#[verifier::external_type_specification]
#[verifier::external_body]
pub struct ExSystemTime(SystemTime);

/// `std::time::SystemTimeError`, a clock reading before the reference time.
#[verifier::external_type_specification]
#[verifier::external_body]
pub struct ExSystemTimeError(SystemTimeError);

/// `SystemTime::now`: the system clock's current reading. Which reading
/// comes back depends on the clock and is left unsaid.
#[verifier::external_body]
fn system_now() -> (t: SystemTime) {
    SystemTime::now()
}

/// `SystemTime::duration_since(UNIX_EPOCH)`: how long after the Unix epoch
/// `t` lies, or an error when the clock reads earlier. Nothing is stated of
/// the value, which rests on the clock reading.
#[verifier::external_body]
fn since_unix_epoch(t: &SystemTime) -> (r: Result<Duration, SystemTimeError>) {
    t.duration_since(UNIX_EPOCH)
}

/// `Duration::as_millis`: the whole milliseconds of `d`. Nothing is stated
/// of the value, which rests on the clock reading it came from.
#[verifier::external_body]
fn whole_millis(d: &Duration) -> (ms: u128) {
    d.as_millis()
}

/// The current Unix time in milliseconds by the system clock; `None` when
/// the clock reads before 1970 or too far ahead for an `i64`.
pub(crate) fn utc_now_millis() -> (t: Option<i64>)
    ensures
        t matches Some(ms) ==> ms >= 0,
{
    let now = system_now();
    match since_unix_epoch(&now) {
        Ok(d) => {
            let ms = whole_millis(&d);
            if ms <= 0x7fff_ffff_ffff_ffffu128 {
                Some(ms as i64)
            } else {
                None
            }
        },
        Err(_) => None,
    }
}

/// A log of the system-clock readings taken through it. Only this module
/// adds to it, and only the value the clock gave, so a time that a holder
/// states to be its latest entry is a clock reading in milliseconds.
pub struct ClockLog {
    readings: Ghost<Seq<i64>>,
}

impl ClockLog {
    /// The readings taken so far, in milliseconds since the Unix epoch.
    pub closed spec fn readings(self) -> Seq<i64> {
        self.readings@
    }

    /// An empty log.
    pub fn new() -> (l: Self)
        ensures
            l.readings() == Seq::<i64>::empty(),
    {
        ClockLog { readings: Ghost(Seq::empty()) }
    }

    /// Reads the system clock in milliseconds and logs the reading; `None`,
    /// with nothing logged, when the clock cannot be read.
    pub fn read_ms(&mut self) -> (t: Option<i64>)
        ensures
            t matches Some(ms) ==> ms >= 0 && final(self).readings() == old(self).readings().push(ms),
            t is None ==> final(self).readings() == old(self).readings(),
    {
        let t = utc_now_millis();
        match t {
            Some(ms) => {
                self.readings = Ghost(self.readings@.push(ms));
            },
            None => {},
        }
        t
    }
}

/// `chrono::DateTime::from_timestamp(secs, 0)` formatted with
/// `%Y-%m-%d %H:%M:%S`: named by `utc_text`.
#[verifier::external_body]
fn format_utc_secs(secs: i64) -> (r: Option<String>)
    ensures
        match r {
            Some(s) => utc_text(secs as int) == Some(s@),
            None => utc_text(secs as int) is None,
        },
{
    match chrono::DateTime::from_timestamp(secs, 0) {
        Some(d) => Some(d.format("%Y-%m-%d %H:%M:%S").to_string()),
        None => None,
    }
}

/// The text of an optional string.
pub open spec fn opt_chars(o: Option<String>) -> Option<Seq<char>> {
    match o {
        Some(s) => Some(s@),
        None => None,
    }
}

/// The start of the rate window ending at `now_secs`, as stored timestamps
/// are written; `None` when it falls outside the representable dates.
pub fn rate_limit_cutoff(now_secs: i64, window_secs: u64) -> (r: Option<String>)
    requires
        now_secs >= 0,
        window_secs <= i64::MAX / 1000,
    ensures
        opt_chars(r) == utc_text(now_secs - window_secs),
{
    format_utc_secs(now_secs - window_secs as i64)
}

/// The start of the rate window ending now; `None` when the clock cannot
/// be read (it reads before 1970) or the start has no date.
pub fn submission_cutoff(window_secs: u64) -> (r: Option<String>)
    requires
        window_secs <= i64::MAX / 1000,
    ensures
        r is Some ==> exists|now: i64| now >= 0 && opt_chars(r) == #[trigger] utc_text(now - window_secs),
{
    match utc_now_millis() {
        Some(ms) => rate_limit_cutoff(ms / 1000, window_secs),
        None => None,
    }
}

} // verus!
