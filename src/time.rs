use vstd::prelude::*;
use crate::module::{Module, UpdateStatus};

verus! {

/// Latest wall-clock reading that is shown: the last second of year 9999,
/// in seconds since the Unix epoch.
pub const LATEST_CLOCK_SECS: i64 = 253_402_300_799;

/// Relies on chrono::DateTime::from_timestamp, which gives a date for every
/// second and nanosecond in range, then on `with_timezone(&chrono::Local)`
/// and the `Display` of chrono's `DateTime`, which writes the local date,
/// a space and the offset. Between the epoch and year 9999 chrono's time
/// zone lookup finds a local time type, so none of its `unwrap`s fires.
/// The text depends on the time zone, so only that it is not empty is
/// stated.
#[verifier::external_body]
fn local_time_text(secs: i64, nanos: u32) -> (r: String)
    requires
        0 <= secs <= LATEST_CLOCK_SECS,
        nanos < 1_000_000_000,
    ensures
        r@.len() > 0,
{
    match chrono::DateTime::from_timestamp(secs, nanos) {
        Option::Some(d) => format!("{}", d.with_timezone(&chrono::Local)),
        Option::None => String::new(),
    }
}

/// The local date and time.
pub struct TimeModule(String);

impl TimeModule {
    pub fn new() -> (r: Self)
        ensures
            r.text() == Seq::<char>::empty(),
    {
        TimeModule(String::new())
    }

    /// Shows `now_text`, the current time as text.
    pub fn update_with(&mut self, now_text: String) -> (r: UpdateStatus)
        ensures
            r == UpdateStatus::All,
            final(self).text() == now_text@,
    {
        self.0 = now_text;
        UpdateStatus::All
    }

    /// Shows the wall-clock time `secs` seconds and `nanos` nanoseconds
    /// after the Unix epoch, in the local time zone. A reading before the
    /// epoch, after year 9999 or with a nanosecond part of a second or more
    /// is not shown, and the text is left as it was.
    pub fn update(&mut self, secs: i64, nanos: u32) -> (r: UpdateStatus)
        ensures
            (0 <= secs <= LATEST_CLOCK_SECS && nanos < 1_000_000_000) ==> r == UpdateStatus::All
                && final(self).text().len() > 0,
            !(0 <= secs <= LATEST_CLOCK_SECS && nanos < 1_000_000_000) ==> r
                == UpdateStatus::Unchanged && final(self).text() == old(self).text(),
    {
        if secs < 0 || secs > LATEST_CLOCK_SECS || nanos >= 1_000_000_000 {
            return UpdateStatus::Unchanged;
        }
        let t = local_time_text(secs, nanos);
        self.update_with(t)
    }
}

impl Module for TimeModule {
    closed spec fn text(&self) -> Seq<char> {
        self.0@
    }

    open spec fn interval(&self) -> u64 {
        1000
    }

    fn get_string(&self) -> (r: &str) {
        self.0.as_str()
    }

    fn update_interval(&self) -> (r: u64) {
        1000
    }
}

} // verus!
