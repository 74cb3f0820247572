//! Analog inputs.

use crate::components::runtime::{ComponentRuntime, ComponentRuntimeView};
use crate::simulator::avr::{IoCtl, Irq, Raise, ADC_IRQ_ADC0};
use crate::tester::AvrTester;
use vstd::prelude::*;

verus! {

/// What applying `voltage` millivolts to ADC channel `pin` puts on the wire
/// to the device.
pub open spec fn adc_raise(pin: u32, voltage: u32) -> Raise {
    Raise { irq: Irq { ioctl: IoCtl::AdcGetIrq, index: (ADC_IRQ_ADC0 + pin) as u32 }, value: voltage }
}

/// Manages a single analog pin (e.g. `ADC1`).
pub struct AnalogPin<'a> {
    pub avr: &'a mut AvrTester,
    pub pin: u32,
}

impl<'a> AnalogPin<'a> {
    /// A handle on ADC channel `pin` of `avr`.
    pub fn new(avr: &'a mut AvrTester, pin: u32) -> (analog: Self)
        ensures
            analog.pin == pin,
            *analog.avr == *old(avr),
            *final(analog.avr) == *final(avr),
    {
        Self { avr, pin }
    }

    /// Applies `voltage` millivolts to this ADC.
    pub fn set_mv(&mut self, voltage: u32)
        ensures
            final(self).avr@ == (ComponentRuntimeView {
                sim: old(self).avr@.sim.with_raise(adc_raise(old(self).pin, voltage)),
                ..old(self).avr@
            }),
            final(self).pin == old(self).pin,
            *final(final(self).avr) == *final(old(self).avr),
    {
        self.avr.sim().set_adc_voltage(self.pin, voltage);
    }
}

/// The same for components: a handle that borrows nothing, used with the
/// runtime that the component is resumed in.
pub struct AnalogPinAsync {
    pin: u32,
}

impl AnalogPinAsync {
    /// The ADC channel that the handle stands for.
    pub closed spec fn pin(&self) -> u32 {
        self.pin
    }

    /// A handle on ADC channel `pin`.
    pub fn new(pin: u32) -> (analog: Self)
        ensures
            analog.pin() == pin,
    {
        Self { pin }
    }

    /// Applies `voltage` millivolts to this ADC of the device behind `rt`.
    pub fn set_mv(&self, rt: &mut ComponentRuntime, voltage: u32)
        ensures
            final(rt)@ == (ComponentRuntimeView {
                sim: old(rt)@.sim.with_raise(adc_raise(self.pin(), voltage)),
                ..old(rt)@
            }),
    {
        rt.sim().set_adc_voltage(self.pin, voltage);
    }
}

} // verus!
