//! Driving a pin from a component.

use crate::components::runtime::{ComponentRuntime, ComponentRuntimeView};
use crate::components::{Component, Poll, Resumed};
use crate::simulator::avr::{IoCtl, Irq, Raise};
use crate::simulator::{AvrSimulatorView, PinId};
use vstd::prelude::*;

verus! {

/// What a [`PinWrite`] does.
pub struct PinWriteView {
    /// The pin to drive.
    pub pin: PinId,
    /// The level to drive the pin to; `true` is high.
    pub high: bool,
}

impl PinWriteView {
    /// What is put on the wire to the device.
    pub open spec fn raise(self) -> Raise {
        Raise {
            irq: Irq {
                ioctl: IoCtl::IoPortGetIrq { port: self.pin.port() },
                index: self.pin.pin() as u32,
            },
            value: if self.high {
                1
            } else {
                0
            },
        }
    }
}

/// Drives a pin to a level, once, and is done.
pub struct PinWrite {
    pin: PinId,
    high: bool,
}

impl View for PinWrite {
    type V = PinWriteView;

    closed spec fn view(&self) -> PinWriteView {
        PinWriteView { pin: self.pin, high: self.high }
    }
}

impl PinWrite {
    /// Drives `pin` high (`high`) or low (`!high`) when it is resumed.
    pub fn new(pin: PinId, high: bool) -> (write: Self)
        ensures
            write@ == (PinWriteView { pin, high }),
    {
        Self { pin, high }
    }
}

impl Component for PinWrite {
    /// Every attempt drives the pin, and is done.
    open spec fn resumed(model: PinWriteView, rt: ComponentRuntimeView) -> Resumed<PinWriteView> {
        Resumed {
            component: model,
            rt: ComponentRuntimeView {
                sim: AvrSimulatorView {
                    pins: rt.sim.pins.update(model.pin.index(), model.high),
                    ..rt.sim.with_raise(model.raise())
                },
                ..rt
            },
            poll: Poll::Ready,
        }
    }

    fn poll(&mut self, rt: &mut ComponentRuntime) -> (poll: Poll) {
        rt.sim().set_pin_state(self.pin, self.high);
        Poll::Ready
    }
}

} // verus!
