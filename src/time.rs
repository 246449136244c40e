use vstd::prelude::*;

verus! {

/// A wall-clock reading: time since an epoch, in whole seconds and nanoseconds.
#[derive(Debug, Clone, Copy, PartialEq, Eq, Structural)]
pub struct ClockTime {
    pub secs: u64,
    pub nanos: u32,
}

/// The timestamp carried by a reading: seconds as a signed 32-bit count and
/// the nanoseconds within the second.
#[derive(Debug, Clone, Copy, PartialEq, Eq, Structural)]
pub struct Stamp {
    pub sec: i32,
    pub nanosec: u32,
}

impl ClockTime {
    /// The time in nanoseconds since the epoch.
    pub open spec fn total_nanos(self) -> int {
        self.secs * 1_000_000_000 + self.nanos
    }

    pub fn new(secs: u64, nanos: u32) -> (r: ClockTime)
        ensures
            r.secs == secs,
            r.nanos == nanos,
    {
        ClockTime { secs, nanos }
    }

    /// The time in nanoseconds since the epoch.
    pub fn as_nanos(&self) -> (r: u128)
        ensures
            r == self.total_nanos(),
    {
        assert(self.secs * 1_000_000_000 <= 0xffff_ffff_ffff_ffff * 1_000_000_000)
            by (nonlinear_arith);
        self.secs as u128 * 1_000_000_000 + self.nanos as u128
    }

    /// The reading's timestamp: the seconds cut to 32 bits, as a signed count,
    /// and the nanoseconds unchanged.
    pub fn to_stamp(&self) -> (r: Stamp)
        ensures
            r.sec == self.secs as i32,
            r.nanosec == self.nanos,
    {
        Stamp { sec: self.secs as i32, nanosec: self.nanos }
    }
}

} // verus!
