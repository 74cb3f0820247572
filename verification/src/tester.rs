//! The host's handle on a simulated device.

use crate::components::runtime::{ComponentRuntime, ComponentRuntimeView};
use crate::duration::CpuDuration;
use crate::simulator::AvrSimulator;
use vstd::prelude::*;

verus! {

/// The cycles that a step of the device is taken to have lasted, given its
/// cycle counter before and after the step: the difference, and one cycle
/// where the counter has not moved on, as it does not while the device is
/// asleep. So time passes with every step.
pub open spec fn step_cycles(before: u64, after: u64) -> int {
    if after > before {
        after - before
    } else {
        1
    }
}

/// The cycles that a step of the device is taken to have lasted.
pub fn cycles_taken(before: u64, after: u64) -> (cycles: u64)
    ensures
        cycles == step_cycles(before, after),
        cycles >= 1,
{
    if after > before {
        after - before
    } else {
        1
    }
}

/// The simulated device together with its clock, as test code holds it.
///
/// Whoever steps the device calls [`AvrTester::before_step`], lets the device
/// run one step, reports what it did, and calls [`AvrTester::after_step`]
/// with the cycles that the step took; then the components are resumed.
pub struct AvrTester {
    rt: ComponentRuntime,
}

impl View for AvrTester {
    type V = ComponentRuntimeView;

    closed spec fn view(&self) -> ComponentRuntimeView {
        self.rt@
    }
}

impl AvrTester {
    /// A tester for the device behind `sim`, whose clock runs at
    /// `clock_frequency` hertz.
    pub fn new(sim: AvrSimulator, clock_frequency: u32) -> (avr: Self)
        ensures
            avr@ == (ComponentRuntimeView { sim: sim@, clock_frequency, elapsed: 0, tt: 0 }),
    {
        Self { rt: ComponentRuntime::new(sim, clock_frequency) }
    }

    /// The simulator.
    pub fn sim(&mut self) -> (sim: &mut AvrSimulator)
        ensures
            sim@ == old(self)@.sim,
            final(self)@ == (ComponentRuntimeView { sim: final(sim)@, ..old(self)@ }),
    {
        self.rt.sim()
    }

    /// The runtime to resume components in.
    pub fn rt(&mut self) -> (rt: &mut ComponentRuntime)
        ensures
            rt@ == old(self)@,
            final(self)@ == final(rt)@,
    {
        &mut self.rt
    }

    /// The frequency of the device's clock, in hertz.
    pub fn clock_frequency(&self) -> (clock_frequency: u32)
        ensures
            clock_frequency == self@.clock_frequency,
    {
        self.rt.clock_frequency()
    }

    /// The time for which the device has run.
    pub fn elapsed(&self) -> (elapsed: CpuDuration)
        ensures
            elapsed@ == self@.elapsed,
    {
        self.rt.elapsed()
    }

    /// Gets the device ready for its next step: whatever the host queued for
    /// it is handed over.
    pub fn before_step(&mut self)
        requires
            old(self)@.wf(),
        ensures
            final(self)@ == (ComponentRuntimeView {
                sim: old(self)@.sim.flushed(),
                ..old(self)@
            }),
            final(self)@.wf(),
    {
        self.rt.sim().flush();
    }

    /// Moves the clock on by the `cycles` cycles that the device's last step
    /// took. The time elapsed never goes back.
    pub fn after_step(&mut self, cycles: u64)
        ensures
            final(self)@ == old(self)@.advanced(cycles),
            final(self)@.elapsed >= old(self)@.elapsed,
    {
        self.rt.advance(cycles);
    }
}

} // verus!
