//! Doing one thing after another.

use crate::components::runtime::{ComponentRuntime, ComponentRuntimeView};
use crate::components::{Component, Poll, Resumed};
use vstd::prelude::*;

verus! {

/// What a [`Then`] holds.
pub struct ThenView<A, B> {
    /// The part that runs first.
    pub first: A,
    /// The part that runs once the first is done.
    pub second: B,
    /// Whether the first part is done.
    pub first_done: bool,
}

/// Runs `first` to its end, then `second`, as one component.
pub struct Then<A: Component, B: Component> {
    first: A,
    second: B,
    first_done: bool,
}

impl<A: Component, B: Component> View for Then<A, B> {
    type V = ThenView<A::V, B::V>;

    closed spec fn view(&self) -> ThenView<A::V, B::V> {
        ThenView { first: self.first@, second: self.second@, first_done: self.first_done }
    }
}

impl<A: Component, B: Component> Then<A, B> {
    /// `first`, followed by `second`.
    pub fn new(first: A, second: B) -> (both: Self)
        ensures
            both@ == (ThenView { first: first@, second: second@, first_done: false }),
    {
        Self { first, second, first_done: false }
    }

    /// The part that runs first.
    pub fn first(&self) -> (first: &A)
        ensures
            first@ == self@.first,
    {
        &self.first
    }

    /// The part that runs second.
    pub fn second(&self) -> (second: &B)
        ensures
            second@ == self@.second,
    {
        &self.second
    }
}

impl<A: Component, B: Component> Component for Then<A, B> {
    /// While the first part is not done, it is resumed. In the attempt in
    /// which it comes to its end the second part starts at once, in the
    /// runtime as the first left it; from then on only the second part is
    /// resumed. The whole is done when the second part is.
    open spec fn resumed(model: ThenView<A::V, B::V>, rt: ComponentRuntimeView) -> Resumed<
        ThenView<A::V, B::V>,
    > {
        if model.first_done {
            let second = B::resumed(model.second, rt);
            Resumed {
                component: ThenView { second: second.component, ..model },
                rt: second.rt,
                poll: second.poll,
            }
        } else {
            let first = A::resumed(model.first, rt);
            match first.poll {
                Poll::Pending => Resumed {
                    component: ThenView { first: first.component, ..model },
                    rt: first.rt,
                    poll: Poll::Pending,
                },
                Poll::Ready => {
                    let second = B::resumed(model.second, first.rt);
                    Resumed {
                        component: ThenView {
                            first: first.component,
                            second: second.component,
                            first_done: true,
                        },
                        rt: second.rt,
                        poll: second.poll,
                    }
                },
            }
        }
    }

    fn poll(&mut self, rt: &mut ComponentRuntime) -> (poll: Poll) {
        if !self.first_done {
            match self.first.poll(rt) {
                Poll::Pending => {
                    return Poll::Pending;
                },
                Poll::Ready => {
                    self.first_done = true;
                },
            }
        }
        self.second.poll(rt)
    }
}

} // verus!
