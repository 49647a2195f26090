//! Spans of time.

use vstd::prelude::*;

verus! {

/// Nanoseconds in a second.
pub const NANOS_PER_SEC: u32 = 1_000_000_000;

/// Nanoseconds in a millisecond.
pub const NANOS_PER_MILLI: u32 = 1_000_000;

/// Milliseconds in a second.
pub const MILLIS_PER_SEC: u64 = 1000;

/// A span of time: whole seconds and the nanoseconds beyond them.
#[derive(Debug, Clone, Copy, PartialEq, Eq, Structural)]
pub struct Duration {
    pub secs: u64,
    pub nanos: u32,
}

impl Duration {
    /// The part beyond the whole seconds is less than a second.
    pub open spec fn wf(self) -> bool {
        self.nanos < NANOS_PER_SEC
    }

    /// The whole milliseconds in the span.
    pub open spec fn millis(self) -> nat {
        self.secs as nat * MILLIS_PER_SEC as nat + self.nanos as nat / NANOS_PER_MILLI as nat
    }

    /// The nanoseconds in the span.
    pub open spec fn total(self) -> nat {
        self.secs as nat * NANOS_PER_SEC as nat + self.nanos as nat
    }

    /// Whether the span is at least as long as `limit`.
    pub fn reaches(&self, limit: &Duration) -> (r: bool)
        ensures
            r == (self.total() >= limit.total()),
    {
        self.as_nanos() >= limit.as_nanos()
    }

    /// The nanoseconds in the span.
    pub fn as_nanos(&self) -> (r: u128)
        ensures
            r == self.total(),
    {
        assert(self.secs * NANOS_PER_SEC <= 0xffff_ffff_ffff_ffff * 1_000_000_000)
            by (nonlinear_arith)
            requires
                self.secs <= 0xffff_ffff_ffff_ffff,
                NANOS_PER_SEC == 1_000_000_000,
        ;
        self.secs as u128 * NANOS_PER_SEC as u128 + self.nanos as u128
    }

    /// A span of whole seconds.
    pub fn from_secs(secs: u64) -> (r: Duration)
        ensures
            r.wf(),
            r.secs == secs,
            r.nanos == 0,
    {
        Duration { secs, nanos: 0 }
    }

    /// A span of whole milliseconds.
    pub fn from_millis(millis: u64) -> (r: Duration)
        ensures
            r.wf(),
            r.millis() == millis,
            r.secs == millis / MILLIS_PER_SEC,
            r.nanos == millis % MILLIS_PER_SEC * NANOS_PER_MILLI,
    {
        Duration {
            secs: millis / MILLIS_PER_SEC,
            nanos: (millis % MILLIS_PER_SEC) as u32 * NANOS_PER_MILLI,
        }
    }

    /// The whole seconds in the span.
    pub fn as_secs(&self) -> (r: u64)
        ensures
            r == self.secs,
    {
        self.secs
    }

    /// The whole milliseconds in the span, kept to 64 bits.
    pub fn millis_u64(&self) -> (r: u64)
        ensures
            r == self.millis() % 0x1_0000_0000_0000_0000,
            self.millis() <= u64::MAX ==> r == self.millis(),
    {
        let whole: u128 = self.secs as u128 * MILLIS_PER_SEC as u128;
        assert(whole <= 0xffff_ffff_ffff_ffff * 1000) by (nonlinear_arith)
            requires
                whole == self.secs * MILLIS_PER_SEC,
                self.secs <= 0xffff_ffff_ffff_ffff,
                MILLIS_PER_SEC == 1000,
        ;
        let wide: u128 = whole + (self.nanos / NANOS_PER_MILLI) as u128;
        let kept: u64 = #[verifier::truncate]
        (wide as u64);
        assert(wide as u64 == wide % 0x1_0000_0000_0000_0000) by (bit_vector);
        kept
    }
}

} // verus!
