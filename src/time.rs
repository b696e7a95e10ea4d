use vstd::prelude::*;

verus! {

/// Nanoseconds in one second.
pub const NANOS_PER_SEC: u32 = 1_000_000_000;

/// A span of time, or an offset from the capture backend's epoch: whole seconds and nanoseconds.
#[derive(Debug, Clone, Copy, PartialEq, Eq, Structural)]
pub struct TimeSpan {
    pub secs: u64,
    pub nanos: u32,
}

impl TimeSpan {
    /// The span in nanoseconds.
    pub open spec fn total(self) -> int {
        self.secs as int * NANOS_PER_SEC as int + self.nanos as int
    }

    /// The span of `secs` seconds and `nanos` nanoseconds.
    pub fn new(secs: u64, nanos: u32) -> (r: TimeSpan)
        ensures
            r.secs == secs,
            r.nanos == nanos,
    {
        TimeSpan { secs, nanos }
    }

    /// The span of `ms` milliseconds.
    pub fn from_millis(ms: u64) -> (r: TimeSpan)
        ensures
            r.total() == ms as int * 1_000_000,
            r.nanos < NANOS_PER_SEC,
    {
        let secs = ms / 1000;
        let rest = ms % 1000;
        let nanos = (rest as u32) * 1_000_000;
        assert(secs as int * 1_000_000_000 + rest as int * 1_000_000 == ms as int * 1_000_000)
            by (nonlinear_arith)
            requires
                secs == ms / 1000,
                rest == ms % 1000,
        ;
        TimeSpan { secs, nanos }
    }

    /// The span in nanoseconds, computed exactly.
    pub fn as_nanos(&self) -> (r: u128)
        ensures
            r as int == self.total(),
    {
        assert(self.secs as int * 1_000_000_000 <= 0xffff_ffff_ffff_ffff * 1_000_000_000)
            by (nonlinear_arith);
        self.secs as u128 * NANOS_PER_SEC as u128 + self.nanos as u128
    }
}

/// Conversion from the `timeval` that capture backends stamp packets with.
pub trait DurationExt: Sized {
    /// The span in nanoseconds.
    spec fn spec_nanos(&self) -> int;

    /// The span of `tv_sec` seconds and `tv_usec` microseconds.
    fn from_timeval(tv_sec: i64, tv_usec: i64) -> (r: Self)
        requires
            0 <= tv_sec,
            0 <= tv_usec < 1_000_000,
        ensures
            r.spec_nanos() == tv_sec as int * 1_000_000_000 + tv_usec as int * 1000,
    ;
}

impl DurationExt for TimeSpan {
    open spec fn spec_nanos(&self) -> int {
        self.total()
    }

    fn from_timeval(tv_sec: i64, tv_usec: i64) -> (r: TimeSpan) {
        TimeSpan { secs: tv_sec as u64, nanos: (tv_usec as u32) * 1000 }
    }
}

} // verus!
