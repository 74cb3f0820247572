//! What a component sees of the world while it is being resumed.

use crate::duration::{saturated, CpuDuration};
use crate::simulator::{AvrSimulator, AvrSimulatorView};
use vstd::prelude::*;

verus! {

/// What a [`ComponentRuntime`] holds.
#[verifier::ext_equal]
pub struct ComponentRuntimeView {
    /// The simulated device as the host sees it.
    pub sim: AvrSimulatorView,
    /// The frequency of the device's clock, in hertz.
    pub clock_frequency: u32,
    /// Cycles that the device has run since the runtime was set up.
    pub elapsed: int,
    /// Cycles that the device has run since components were last resumed.
    pub tt: int,
}

impl ComponentRuntimeView {
    /// The simulator is well-formed and the clock readings are counts of
    /// cycles.
    pub open spec fn wf(self) -> bool {
        &&& self.sim.wf()
        &&& 0 <= self.tt <= u64::MAX
        &&& 0 <= self.elapsed <= u64::MAX
    }

    /// The same clock readings as in `other`.
    pub open spec fn same_clock(self, other: Self) -> bool {
        &&& self.clock_frequency == other.clock_frequency
        &&& self.elapsed == other.elapsed
        &&& self.tt == other.tt
    }

    /// The runtime once the device has run `cycles` cycles more.
    pub open spec fn advanced(self, cycles: u64) -> Self {
        ComponentRuntimeView {
            elapsed: saturated(self.elapsed + cycles),
            tt: cycles as int,
            ..self
        }
    }
}

/// The simulator and the clock, as handed to each component that is
/// resumed. A component may work on the simulator; the clock it can only
/// read.
pub struct ComponentRuntime {
    sim: AvrSimulator,
    clock_frequency: u32,
    elapsed: CpuDuration,
    tt: CpuDuration,
}

impl View for ComponentRuntime {
    type V = ComponentRuntimeView;

    closed spec fn view(&self) -> ComponentRuntimeView {
        ComponentRuntimeView {
            sim: self.sim@,
            clock_frequency: self.clock_frequency,
            elapsed: self.elapsed@,
            tt: self.tt@,
        }
    }
}

impl ComponentRuntime {
    /// A runtime around `sim`, whose clock runs at `clock_frequency` hertz
    /// and has not run yet.
    pub fn new(sim: AvrSimulator, clock_frequency: u32) -> (rt: Self)
        ensures
            rt@ == (ComponentRuntimeView { sim: sim@, clock_frequency, elapsed: 0, tt: 0 }),
    {
        Self { sim, clock_frequency, elapsed: CpuDuration::zero(), tt: CpuDuration::zero() }
    }

    /// The simulator.
    pub fn sim(&mut self) -> (sim: &mut AvrSimulator)
        ensures
            sim@ == old(self)@.sim,
            final(self)@ == (ComponentRuntimeView { sim: final(sim)@, ..old(self)@ }),
    {
        &mut self.sim
    }

    /// The frequency of the device's clock, in hertz.
    pub fn clock_frequency(&self) -> (clock_frequency: u32)
        ensures
            clock_frequency == self@.clock_frequency,
    {
        self.clock_frequency
    }

    /// The time that has passed since components were last resumed.
    pub fn tt(&self) -> (tt: CpuDuration)
        ensures
            tt@ == self@.tt,
    {
        self.tt
    }

    /// The time that has passed since the runtime was set up. It never goes
    /// back.
    pub fn elapsed(&self) -> (elapsed: CpuDuration)
        ensures
            elapsed@ == self@.elapsed,
    {
        self.elapsed
    }

    /// Moves the clock on by the `cycles` cycles that one step of the device
    /// took.
    pub(crate) fn advance(&mut self, cycles: u64)
        ensures
            final(self)@ == old(self)@.advanced(cycles),
            final(self)@.elapsed >= old(self)@.elapsed,
    {
        proof {
            self.elapsed.lemma_cycles(self.elapsed);
        }
        self.tt = CpuDuration::new(cycles);
        self.elapsed = self.elapsed.saturating_add(self.tt);
    }
}

} // verus!
