//! Simulated time.
//!
//! The device counts time in cycles of its clock; people count it in micro-
//! and milliseconds. A [`CpuDuration`] is a number of cycles, and the
//! conversions take the clock's frequency.

use vstd::prelude::*;

verus! {

/// Microseconds in a second.
pub const MICROS_PER_SEC: u64 = 1_000_000;

/// Milliseconds in a second.
pub const MILLIS_PER_SEC: u64 = 1_000;

/// `n` held to what sixty-four bits can count: nothing below zero, nothing
/// beyond the largest `u64`.
pub open spec fn saturated(n: int) -> int {
    if n > u64::MAX {
        u64::MAX as int
    } else if n < 0 {
        0
    } else {
        n
    }
}

/// The whole cycles that a clock of `clock_frequency` hertz runs through in
/// `n` units of time, where a second has `per_sec` units.
pub open spec fn cycles_in(clock_frequency: u32, n: int, per_sec: int) -> int {
    n * clock_frequency / per_sec
}

/// The whole units of time, where a second has `per_sec` units, that a clock
/// of `clock_frequency` hertz needs for `cycles` cycles.
pub open spec fn time_of(clock_frequency: u32, cycles: int, per_sec: int) -> int {
    cycles * per_sec / (clock_frequency as int)
}

/// A span of simulated time, in cycles of the device's clock.
#[derive(Clone, Copy, Debug, PartialEq, Eq, Structural)]
pub struct CpuDuration {
    cycles: u64,
}

impl View for CpuDuration {
    type V = int;

    /// The number of cycles.
    closed spec fn view(&self) -> int {
        self.cycles as int
    }
}

impl CpuDuration {
    /// A duration is told by its number of cycles, which fits sixty-four
    /// bits.
    pub proof fn lemma_cycles(self, other: Self)
        ensures
            0 <= self@ <= u64::MAX,
            self@ == other@ <==> self == other,
    {
    }

    /// The span of `cycles` cycles.
    pub fn new(cycles: u64) -> (d: Self)
        ensures
            d@ == cycles,
    {
        Self { cycles }
    }

    /// No time at all.
    pub fn zero() -> (d: Self)
        ensures
            d@ == 0,
    {
        Self { cycles: 0 }
    }

    /// The cycles that a clock of `clock_frequency` hertz runs through in
    /// `n` microseconds, rounded down; the longest span there is, where the
    /// count is beyond it.
    pub fn micros(clock_frequency: u32, n: u64) -> (d: Self)
        ensures
            d@ == saturated(cycles_in(clock_frequency, n as int, MICROS_PER_SEC as int)),
    {
        Self { cycles: scale(n, clock_frequency as u64, MICROS_PER_SEC) }
    }

    /// The cycles that a clock of `clock_frequency` hertz runs through in
    /// `n` milliseconds, rounded down; the longest span there is, where the
    /// count is beyond it.
    pub fn millis(clock_frequency: u32, n: u64) -> (d: Self)
        ensures
            d@ == saturated(cycles_in(clock_frequency, n as int, MILLIS_PER_SEC as int)),
    {
        Self { cycles: scale(n, clock_frequency as u64, MILLIS_PER_SEC) }
    }

    /// The number of cycles.
    pub fn as_cycles(self) -> (cycles: u64)
        ensures
            cycles == self@,
    {
        self.cycles
    }

    /// The whole microseconds that a clock of `clock_frequency` hertz needs
    /// for this span.
    pub fn as_micros(self, clock_frequency: u32) -> (n: u64)
        requires
            clock_frequency > 0,
        ensures
            n == saturated(time_of(clock_frequency, self@, MICROS_PER_SEC as int)),
    {
        scale(self.cycles, MICROS_PER_SEC, clock_frequency as u64)
    }

    /// The whole milliseconds that a clock of `clock_frequency` hertz needs
    /// for this span.
    pub fn as_millis(self, clock_frequency: u32) -> (n: u64)
        requires
            clock_frequency > 0,
        ensures
            n == saturated(time_of(clock_frequency, self@, MILLIS_PER_SEC as int)),
    {
        scale(self.cycles, MILLIS_PER_SEC, clock_frequency as u64)
    }

    /// Whether the span is empty.
    pub fn is_zero(self) -> (zero: bool)
        ensures
            zero == (self@ == 0),
    {
        self.cycles == 0
    }

    /// This span and `other` on end; the longest span there is, where the
    /// sum is beyond it.
    pub fn saturating_add(self, other: Self) -> (d: Self)
        ensures
            d@ == saturated(self@ + other@),
    {
        Self { cycles: self.cycles.saturating_add(other.cycles) }
    }

    /// What is left of this span once `other` has passed; nothing, where
    /// `other` is the longer one.
    pub fn saturating_sub(self, other: Self) -> (d: Self)
        ensures
            d@ == saturated(self@ - other@),
    {
        Self { cycles: self.cycles.saturating_sub(other.cycles) }
    }
}

/// `n * times / per`, rounded down, and the largest `u64` where that is
/// beyond it.
fn scale(n: u64, times: u64, per: u64) -> (scaled: u64)
    requires
        per > 0,
    ensures
        scaled == saturated(n * times / (per as int)),
{
    assert(n * times <= u64::MAX * u64::MAX) by (nonlinear_arith)
        requires
            n <= u64::MAX,
            times <= u64::MAX,
    ;
    let wide: u128 = n as u128 * times as u128 / per as u128;
    if wide > u64::MAX as u128 {
        u64::MAX
    } else {
        wide as u64
    }
}

} // verus!
