//! Waiting for a pin to reach a level.

use crate::components::runtime::{ComponentRuntime, ComponentRuntimeView};
use crate::components::{Component, Poll, Resumed};
use crate::simulator::PinId;
use vstd::prelude::*;

verus! {

/// What a [`PinLevelFuture`] waits for.
pub struct PinLevelView {
    /// The pin that is watched.
    pub pin: PinId,
    /// The level waited for; `true` is high.
    pub high: bool,
}

/// Completes as soon as a pin is seen at a given level.
pub struct PinLevelFuture {
    pin: PinId,
    high: bool,
}

impl View for PinLevelFuture {
    type V = PinLevelView;

    closed spec fn view(&self) -> PinLevelView {
        PinLevelView { pin: self.pin, high: self.high }
    }
}

impl PinLevelFuture {
    /// A wait for `pin` to be high (`high`) or low (`!high`).
    pub fn new(pin: PinId, high: bool) -> (wait: Self)
        ensures
            wait@ == (PinLevelView { pin, high }),
    {
        Self { pin, high }
    }
}

impl Component for PinLevelFuture {
    /// The wait is over if and only if the pin is at the level waited for
    /// at the moment of the attempt. Nothing changes.
    open spec fn resumed(model: PinLevelView, rt: ComponentRuntimeView) -> Resumed<PinLevelView> {
        Resumed {
            component: model,
            rt,
            poll: if rt.sim.pins[model.pin.index()] == model.high {
                Poll::Ready
            } else {
                Poll::Pending
            },
        }
    }

    fn poll(&mut self, rt: &mut ComponentRuntime) -> (poll: Poll) {
        if rt.sim().get_pin_state(self.pin) == self.high {
            Poll::Ready
        } else {
            Poll::Pending
        }
    }
}

} // verus!
