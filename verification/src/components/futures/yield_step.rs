//! Waiting for the device to take one more step.

use crate::components::runtime::{ComponentRuntime, ComponentRuntimeView};
use crate::components::{Component, Poll, Resumed};
use vstd::prelude::*;

verus! {

/// Waits at the first attempt and completes at the second: whatever the
/// component looks at next, it sees it as the next step of the device left
/// it.
pub struct YieldFuture {
    yielded: bool,
}

impl View for YieldFuture {
    type V = bool;

    /// Whether the first attempt has been made.
    closed spec fn view(&self) -> bool {
        self.yielded
    }
}

impl YieldFuture {
    /// A wait for the next step of the device.
    pub fn new() -> (wait: Self)
        ensures
            !wait@,
    {
        Self { yielded: false }
    }
}

impl Component for YieldFuture {
    /// The first attempt waits, every later one is done. The runtime is
    /// left alone.
    open spec fn resumed(model: bool, rt: ComponentRuntimeView) -> Resumed<bool> {
        Resumed {
            component: true,
            rt,
            poll: if model {
                Poll::Ready
            } else {
                Poll::Pending
            },
        }
    }

    fn poll(&mut self, rt: &mut ComponentRuntime) -> (poll: Poll) {
        if self.yielded {
            Poll::Ready
        } else {
            self.yielded = true;
            Poll::Pending
        }
    }
}

} // verus!
