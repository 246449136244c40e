use vstd::prelude::*;

use crate::time::ClockTime;

verus! {

/// One second, in nanoseconds: the least spacing between two status reports.
pub const REPORT_INTERVAL_NANOS: u128 = 1_000_000_000;

/// Limits status reports to one per second of wall-clock time.
#[derive(Debug, Clone, Copy)]
pub struct StatusThrottle {
    pub last_emitted: ClockTime,
}

/// Whether a report is due at `now`, the last one having been made at `last`:
/// `now` is strictly later, by at least one second.
pub open spec fn report_due(last: ClockTime, now: ClockTime) -> bool {
    now.total_nanos() > last.total_nanos() && now.total_nanos() - last.total_nanos()
        >= REPORT_INTERVAL_NANOS
}

impl StatusThrottle {
    /// A throttle whose last report counts as made at `now`.
    pub fn new(now: ClockTime) -> (r: StatusThrottle)
        ensures
            r.last_emitted == now,
    {
        StatusThrottle { last_emitted: now }
    }

    /// Decides whether a status report is made at `now`, and if so records
    /// `now` as the time of the last report. A `now` that is not later than
    /// the last report (a clock that went back) never makes one.
    pub fn offer(&mut self, now: ClockTime) -> (emit: bool)
        ensures
            emit == report_due(old(self).last_emitted, now),
            final(self).last_emitted == if emit {
                now
            } else {
                old(self).last_emitted
            },
    {
        let last = self.last_emitted.as_nanos();
        let current = now.as_nanos();
        if current > last && current - last >= REPORT_INTERVAL_NANOS {
            self.last_emitted = now;
            true
        } else {
            false
        }
    }
}

} // verus!
