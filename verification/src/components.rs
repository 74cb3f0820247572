//! Components: tasks that run beside the simulated device, resumed once
//! after each of its steps.

pub mod futures;
pub mod laws;
pub mod runtime;
pub mod shift_register;

use runtime::{ComponentRuntime, ComponentRuntimeView};
use vstd::prelude::*;

verus! {

/// How an attempt to resume a component ended.
#[derive(Clone, Copy, Debug, PartialEq, Eq, Structural)]
pub enum Poll {
    /// The component has run to its end.
    Ready,
    /// The component waits for something; it is to be resumed again after
    /// the next step of the device.
    Pending,
}

/// What an attempt to resume a component leaves behind.
pub struct Resumed<M> {
    /// The component.
    pub component: M,
    /// The runtime that the component was shown.
    pub rt: ComponentRuntimeView,
    /// How the attempt ended.
    pub poll: Poll,
}

/// A task that can be resumed.
pub trait Component: View + Sized {
    /// What one attempt to resume the component makes of it and of the
    /// runtime.
    spec fn resumed(model: Self::V, rt: ComponentRuntimeView) -> Resumed<Self::V>;

    /// Resumes the component once: it runs until it has to wait or is done.
    /// The clock is left as it was.
    fn poll(&mut self, rt: &mut ComponentRuntime) -> (poll: Poll)
        requires
            old(rt)@.wf(),
        ensures
            final(rt)@.wf(),
            final(rt)@.same_clock(old(rt)@),
            final(self)@ == Self::resumed(old(self)@, old(rt)@).component,
            final(rt)@ == Self::resumed(old(self)@, old(rt)@).rt,
            poll == Self::resumed(old(self)@, old(rt)@).poll,
    ;
}

/// Where a component stands with the runtime that it was added to.
#[derive(Clone, Copy, Debug, PartialEq, Eq, Structural)]
pub enum ComponentState {
    /// Resumed after each step of the device.
    Active,
    /// Kept as it is, and passed over, until it is resumed by hand.
    Paused,
    /// Gone, by removal or because it ran to its end; never resumed again.
    Removed,
}

/// Names one component for as long as the runtime holds it. A handle says
/// nothing of where the component is stored, and is never given out twice.
#[derive(Clone, Copy, Debug, PartialEq, Eq, Structural)]
pub struct ComponentHandle {
    id: u64,
}

impl View for ComponentHandle {
    type V = int;

    /// The number under which the component was added.
    closed spec fn view(&self) -> int {
        self.id as int
    }
}

/// Why a component could not be paused, resumed or removed.
#[derive(Clone, Copy, Debug, PartialEq, Eq, Structural)]
pub enum ComponentError {
    /// The runtime holds no component under that handle: it was removed, or
    /// it ran to its end.
    Removed,
}

/// One component as the runtime holds it.
pub struct SlotView<M> {
    /// The number under which the component was added.
    pub id: int,
    /// Whether the component is passed over when components are resumed.
    pub paused: bool,
    /// The component.
    pub component: M,
}

/// What a [`Components`] holds.
#[verifier::ext_equal]
pub struct ComponentsView<M> {
    /// The components, in the order in which they were added.
    pub slots: Seq<SlotView<M>>,
    /// How many components were ever added; the next one gets this number.
    pub issued: int,
}

impl<M> ComponentsView<M> {
    /// The components stand in the order of their numbers, and each number
    /// was given out.
    pub open spec fn ordered(self) -> bool {
        &&& 0 <= self.issued
        &&& forall|i: int|
            0 <= i < self.slots.len() ==> 0 <= (#[trigger] self.slots[i]).id < self.issued
        &&& forall|i: int, j: int|
            0 <= i < j < self.slots.len() ==> (#[trigger] self.slots[i]).id < (
            #[trigger] self.slots[j]).id
    }

    /// The components are in order, and their count fits the counter.
    pub open spec fn wf(self) -> bool {
        &&& self.ordered()
        &&& self.issued <= u64::MAX
    }

    /// Whether a component is held under number `id`.
    pub open spec fn contains(self, id: int) -> bool {
        exists|i: int| 0 <= i < self.slots.len() && (#[trigger] self.slots[i]).id == id
    }

    /// Where the component with number `id` stands.
    pub open spec fn position(self, id: int) -> int {
        choose|i: int| 0 <= i < self.slots.len() && (#[trigger] self.slots[i]).id == id
    }

    /// The state of the component with number `id`.
    pub open spec fn state(self, id: int) -> ComponentState {
        if !self.contains(id) {
            ComponentState::Removed
        } else if self.slots[self.position(id)].paused {
            ComponentState::Paused
        } else {
            ComponentState::Active
        }
    }

    /// The runtime once `component` has been added: it stands last, active,
    /// under the next number.
    pub open spec fn added(self, component: M) -> Self {
        ComponentsView {
            slots: self.slots.push(SlotView { id: self.issued, paused: false, component }),
            issued: self.issued + 1,
        }
    }

    /// The runtime once the component with number `id`, if it is held, has
    /// been paused (`paused`) or resumed (`!paused`). Nothing else changes.
    pub open spec fn with_paused(self, id: int, paused: bool) -> Self {
        if self.contains(id) {
            let at = self.position(id);
            ComponentsView {
                slots: self.slots.update(at, SlotView { paused, ..self.slots[at] }),
                ..self
            }
        } else {
            self
        }
    }

    /// The runtime once the component with number `id`, if it is held, has
    /// been removed. The others keep their order.
    pub open spec fn removed(self, id: int) -> Self {
        if self.contains(id) {
            ComponentsView { slots: self.slots.remove(self.position(id)), ..self }
        } else {
            self
        }
    }

    /// In an ordered runtime a component is found where it stands.
    pub proof fn lemma_position(self, at: int)
        requires
            self.ordered(),
            0 <= at < self.slots.len(),
        ensures
            self.contains(self.slots[at].id),
            self.position(self.slots[at].id) == at,
    {
        let id = self.slots[at].id;
        let chosen = self.position(id);
        assert(self.slots[chosen].id == id);
        if chosen < at {
            assert(self.slots[chosen].id < self.slots[at].id);
        } else if chosen > at {
            assert(self.slots[at].id < self.slots[chosen].id);
        }
    }

    /// A component may change where it stands, as long as it keeps its
    /// number.
    pub proof fn lemma_kept_in_order(self, at: int, slot: SlotView<M>)
        requires
            self.ordered(),
            0 <= at < self.slots.len(),
            slot.id == self.slots[at].id,
        ensures
            (ComponentsView { slots: self.slots.update(at, slot), ..self }).ordered(),
    {
        let after = self.slots.update(at, slot);
        assert forall|i: int, j: int| 0 <= i < j < after.len() implies (#[trigger] after[i]).id < (
        #[trigger] after[j]).id by {
            assert(self.slots[i].id < self.slots[j].id);
        }
        assert forall|i: int| 0 <= i < after.len() implies 0 <= (#[trigger] after[i]).id
            < self.issued by {
            assert(0 <= self.slots[i].id < self.issued);
        }
    }

    /// Dropping a component leaves the others in order.
    pub proof fn lemma_dropped_in_order(self, at: int)
        requires
            self.ordered(),
            0 <= at < self.slots.len(),
        ensures
            (ComponentsView { slots: self.slots.remove(at), ..self }).ordered(),
    {
        let after = self.slots.remove(at);
        assert forall|i: int, j: int| 0 <= i < j < after.len() implies (#[trigger] after[i]).id < (
        #[trigger] after[j]).id by {
            let from_i = if i < at { i } else { i + 1 };
            let from_j = if j < at { j } else { j + 1 };
            assert(self.slots[from_i].id < self.slots[from_j].id);
        }
        assert forall|i: int| 0 <= i < after.len() implies 0 <= (#[trigger] after[i]).id
            < self.issued by {
            let from_i = if i < at { i } else { i + 1 };
            assert(0 <= self.slots[from_i].id < self.issued);
        }
    }

    /// Adding a component makes it active under the next number, and leaves
    /// every other state as it is.
    pub proof fn lemma_added_states(self, component: M)
        requires
            self.ordered(),
        ensures
            self.added(component).ordered(),
            self.added(component).state(self.issued) == ComponentState::Active,
            forall|other: int|
                other != self.issued ==> #[trigger] self.added(component).state(other)
                    == self.state(other),
    {
        let next = self.added(component);
        assert forall|i: int, j: int| 0 <= i < j < next.slots.len() implies (
        #[trigger] next.slots[i]).id < (#[trigger] next.slots[j]).id by {
            if j < self.slots.len() {
                assert(self.slots[i].id < self.slots[j].id);
            } else {
                assert(self.slots[i].id < self.issued);
            }
        }
        assert forall|i: int| 0 <= i < next.slots.len() implies 0 <= (#[trigger] next.slots[i]).id
            < next.issued by {
            if i < self.slots.len() {
                assert(self.slots[i].id < self.issued);
            }
        }
        next.lemma_position(self.slots.len() as int);
        assert forall|other: int| other != self.issued implies #[trigger] next.state(other)
            == self.state(other) by {
            if self.contains(other) {
                let at = self.position(other);
                assert(next.slots[at] == self.slots[at]);
                next.lemma_position(at);
            } else if next.contains(other) {
                let at = next.position(other);
                assert(next.slots[at].id == other);
                assert(self.slots[at].id == other);
            }
        }
    }

    /// Pausing or resuming a component that is held changes its state, and
    /// leaves every other state as it is.
    pub proof fn lemma_with_paused_states(self, id: int, paused: bool)
        requires
            self.ordered(),
        ensures
            self.with_paused(id, paused).ordered(),
            self.with_paused(id, paused).state(id) == if !self.contains(id) {
                ComponentState::Removed
            } else if paused {
                ComponentState::Paused
            } else {
                ComponentState::Active
            },
            forall|other: int|
                other != id ==> #[trigger] self.with_paused(id, paused).state(other) == self.state(
                    other,
                ),
    {
        let next = self.with_paused(id, paused);
        if self.contains(id) {
            let here = self.position(id);
            self.lemma_kept_in_order(here, SlotView { paused, ..self.slots[here] });
            next.lemma_position(here);
            assert forall|other: int| other != id implies #[trigger] next.state(other)
                == self.state(other) by {
                if self.contains(other) {
                    let at = self.position(other);
                    assert(next.slots[at] == self.slots[at]);
                    next.lemma_position(at);
                } else if next.contains(other) {
                    let at = next.position(other);
                    assert(next.slots[at].id == other);
                    assert(self.slots[at].id == other);
                }
            }
        }
    }

    /// Removing a component leaves nothing under its number, and leaves
    /// every other state as it is.
    pub proof fn lemma_removed_states(self, id: int)
        requires
            self.ordered(),
        ensures
            self.removed(id).ordered(),
            self.removed(id).state(id) == ComponentState::Removed,
            forall|other: int|
                other != id ==> #[trigger] self.removed(id).state(other) == self.state(other),
    {
        let next = self.removed(id);
        if self.contains(id) {
            let here = self.position(id);
            self.lemma_dropped_in_order(here);
            if next.contains(id) {
                let k = next.position(id);
                let from = if k < here {
                    k
                } else {
                    k + 1
                };
                assert(next.slots[k].id == id);
                assert(self.slots[from].id == id);
                self.lemma_position(from);
            }
            assert forall|other: int| other != id implies #[trigger] next.state(other)
                == self.state(other) by {
                if self.contains(other) {
                    let at = self.position(other);
                    let to = if at < here {
                        at
                    } else {
                        at - 1
                    };
                    assert(self.slots[at].id == other);
                    assert(next.slots[to] == self.slots[at]);
                    next.lemma_position(to);
                } else if next.contains(other) {
                    let k = next.position(other);
                    let from = if k < here {
                        k
                    } else {
                        k + 1
                    };
                    assert(next.slots[k].id == other);
                    assert(self.slots[from].id == other);
                }
            }
        }
    }
}

/// What one pass over `slots` leaves behind, when the runtime is `rt` at
/// its start: the components that are still held, and the runtime.
///
/// The components are taken in the order in which they stand. A paused one
/// is kept as it is. Any other is resumed once, in the runtime as the ones
/// before it left it; it is kept if it waits, and dropped if it is done.
pub open spec fn polled<C: Component>(slots: Seq<SlotView<C::V>>, rt: ComponentRuntimeView) -> (
    Seq<SlotView<C::V>>,
    ComponentRuntimeView,
)
    decreases slots.len(),
{
    if slots.len() == 0 {
        (slots, rt)
    } else {
        let (kept, rt) = polled::<C>(slots.drop_last(), rt);
        let slot = slots.last();
        if slot.paused {
            (kept.push(slot), rt)
        } else {
            let resumed = C::resumed(slot.component, rt);
            match resumed.poll {
                Poll::Ready => (kept, resumed.rt),
                Poll::Pending => (
                    kept.push(SlotView { component: resumed.component, ..slot }),
                    resumed.rt,
                ),
            }
        }
    }
}

/// Two sequences that agree from some place on agree at that place and
/// after it.
proof fn lemma_tails<A>(a: Seq<A>, i: int, b: Seq<A>, j: int)
    requires
        0 <= i < a.len(),
        0 <= j <= b.len(),
        a.subrange(i, a.len() as int) == b.subrange(j, b.len() as int),
    ensures
        j < b.len(),
        a[i] == b[j],
        a.subrange(i + 1, a.len() as int) == b.subrange(j + 1, b.len() as int),
{
    let tail_a = a.subrange(i, a.len() as int);
    let tail_b = b.subrange(j, b.len() as int);
    assert(tail_a.len() == tail_b.len());
    assert(a[i] == tail_a[0]);
    assert(b[j] == tail_b[0]);
    let rest_a = a.subrange(i + 1, a.len() as int);
    let rest_b = b.subrange(j + 1, b.len() as int);
    assert forall|k: int| 0 <= k < rest_a.len() implies #[trigger] rest_a[k] == rest_b[k] by {
        assert(a[i + 1 + k] == tail_a[k + 1]);
        assert(b[j + 1 + k] == tail_b[k + 1]);
    }
    assert(rest_a =~= rest_b);
}

struct Slot<C> {
    id: u64,
    paused: bool,
    component: C,
}

impl<C: Component> View for Slot<C> {
    type V = SlotView<C::V>;

    closed spec fn view(&self) -> SlotView<C::V> {
        SlotView { id: self.id as int, paused: self.paused, component: self.component@ }
    }
}

/// The components that run beside one simulated device.
pub struct Components<C: Component> {
    slots: Vec<Slot<C>>,
    next_id: u64,
}

impl<C: Component> View for Components<C> {
    type V = ComponentsView<C::V>;

    closed spec fn view(&self) -> ComponentsView<C::V> {
        ComponentsView {
            slots: Seq::new(self.slots@.len(), |i: int| self.slots@[i]@),
            issued: self.next_id as int,
        }
    }
}

impl<C: Component> Components<C> {
    /// A runtime with no components.
    pub fn new() -> (components: Self)
        ensures
            components@ == (ComponentsView::<C::V> { slots: Seq::empty(), issued: 0 }),
            components@.wf(),
    {
        Self { slots: Vec::new(), next_id: 0 }
    }

    /// How many components are held.
    pub fn len(&self) -> (len: usize)
        ensures
            len == self@.slots.len(),
    {
        self.slots.len()
    }

    /// Whether no component is held.
    pub fn is_empty(&self) -> (empty: bool)
        ensures
            empty == (self@.slots.len() == 0),
    {
        self.slots.len() == 0
    }

    /// Where the component under `handle` stands, if it is held.
    fn find(&self, handle: ComponentHandle) -> (at: Option<usize>)
        requires
            self@.wf(),
        ensures
            at is Some <==> self@.contains(handle@),
            at is Some ==> at.unwrap() == self@.position(handle@) && at.unwrap()
                < self.slots@.len(),
    {
        let mut at: usize = 0;
        while at < self.slots.len()
            invariant
                0 <= at <= self.slots@.len(),
                self@.wf(),
                forall|i: int| 0 <= i < at ==> (#[trigger] self@.slots[i]).id != handle@,
            decreases self.slots@.len() - at,
        {
            if self.slots[at].id == handle.id {
                proof {
                    self@.lemma_position(at as int);
                }
                return Some(at);
            }
            at += 1;
        }
        None
    }

    /// Adds `component`, active and behind the components already there, and
    /// gives out the handle to it. Nothing changes for the others.
    ///
    /// The runtime counts the components it has ever held in sixty-four
    /// bits, and cannot take more.
    pub fn add(&mut self, component: C) -> (handle: ComponentHandle)
        requires
            old(self)@.wf(),
            old(self)@.issued < u64::MAX,
        ensures
            final(self)@ == old(self)@.added(component@),
            handle@ == old(self)@.issued,
            final(self)@.wf(),
            final(self)@.state(handle@) == ComponentState::Active,
            forall|other: int|
                other != handle@ ==> #[trigger] final(self)@.state(other) == old(self)@.state(
                    other,
                ),
    {
        let id = self.next_id;
        self.slots.push(Slot { id, paused: false, component });
        self.next_id = id + 1;
        proof {
            assert(self@.slots =~= old(self)@.added(component@).slots);
            old(self)@.lemma_added_states(component@);
        }
        ComponentHandle { id }
    }

    /// Whether another component can still be added.
    pub fn can_add(&self) -> (can: bool)
        ensures
            can == (self@.issued < u64::MAX),
    {
        self.next_id < u64::MAX
    }

    /// The state of the component under `handle`.
    pub fn state(&self, handle: ComponentHandle) -> (state: ComponentState)
        requires
            self@.wf(),
        ensures
            state == self@.state(handle@),
    {
        match self.find(handle) {
            None => ComponentState::Removed,
            Some(at) => {
                if self.slots[at].paused {
                    ComponentState::Paused
                } else {
                    ComponentState::Active
                }
            },
        }
    }

    /// The component under `handle`, if it is held.
    pub fn get(&self, handle: ComponentHandle) -> (component: Option<&C>)
        requires
            self@.wf(),
        ensures
            component is Some <==> self@.contains(handle@),
            component is Some ==> component.unwrap()@ == self@.slots[self@.position(
                handle@,
            )].component,
    {
        match self.find(handle) {
            None => None,
            Some(at) => Some(&self.slots[at].component),
        }
    }

    /// Marks the component under `handle` as paused or not.
    fn set_paused(&mut self, handle: ComponentHandle, paused: bool) -> (done: Result<
        (),
        ComponentError,
    >)
        requires
            old(self)@.wf(),
        ensures
            final(self)@ == old(self)@.with_paused(handle@, paused),
            done is Ok <==> old(self)@.contains(handle@),
            done is Err ==> done == Err::<(), ComponentError>(ComponentError::Removed),
            final(self)@.wf(),
            done is Ok ==> final(self)@.state(handle@) == if paused {
                ComponentState::Paused
            } else {
                ComponentState::Active
            },
            forall|other: int|
                other != handle@ ==> #[trigger] final(self)@.state(other) == old(self)@.state(
                    other,
                ),
    {
        proof {
            old(self)@.lemma_with_paused_states(handle@, paused);
        }
        match self.find(handle) {
            None => Err(ComponentError::Removed),
            Some(at) => {
                self.slots[at].paused = paused;
                proof {
                    let slot = SlotView { paused, ..old(self)@.slots[at as int] };
                    assert(self@.slots =~= old(self)@.slots.update(at as int, slot));
                }
                Ok(())
            },
        }
    }

    /// Pauses the component under `handle`: it is passed over, and stays
    /// exactly as it is, until it is resumed. Pausing a paused component
    /// changes nothing. Fails, and changes nothing, when no component is
    /// held under `handle`.
    pub fn pause(&mut self, handle: ComponentHandle) -> (done: Result<(), ComponentError>)
        requires
            old(self)@.wf(),
        ensures
            final(self)@ == old(self)@.with_paused(handle@, true),
            done is Ok <==> old(self)@.contains(handle@),
            done is Err ==> done == Err::<(), ComponentError>(ComponentError::Removed),
            final(self)@.wf(),
            done is Ok ==> final(self)@.state(handle@) == ComponentState::Paused,
            forall|other: int|
                other != handle@ ==> #[trigger] final(self)@.state(other) == old(self)@.state(
                    other,
                ),
    {
        self.set_paused(handle, true)
    }

    /// Lets the component under `handle` go on from where it was paused.
    /// Resuming an active component changes nothing. Fails, and changes
    /// nothing, when no component is held under `handle`.
    pub fn resume(&mut self, handle: ComponentHandle) -> (done: Result<(), ComponentError>)
        requires
            old(self)@.wf(),
        ensures
            final(self)@ == old(self)@.with_paused(handle@, false),
            done is Ok <==> old(self)@.contains(handle@),
            done is Err ==> done == Err::<(), ComponentError>(ComponentError::Removed),
            final(self)@.wf(),
            done is Ok ==> final(self)@.state(handle@) == ComponentState::Active,
            forall|other: int|
                other != handle@ ==> #[trigger] final(self)@.state(other) == old(self)@.state(
                    other,
                ),
    {
        self.set_paused(handle, false)
    }

    /// Takes the component under `handle` out and hands it back as it is;
    /// it will not be resumed again. The others keep their order. Fails, and
    /// changes nothing, when no component is held under `handle`.
    pub fn remove(&mut self, handle: ComponentHandle) -> (removed: Result<C, ComponentError>)
        requires
            old(self)@.wf(),
        ensures
            final(self)@ == old(self)@.removed(handle@),
            removed is Ok <==> old(self)@.contains(handle@),
            removed is Ok ==> removed.unwrap()@ == old(self)@.slots[old(self)@.position(
                handle@,
            )].component,
            removed is Err ==> removed->Err_0 == ComponentError::Removed,
            final(self)@.wf(),
            final(self)@.state(handle@) == ComponentState::Removed,
            forall|other: int|
                other != handle@ ==> #[trigger] final(self)@.state(other) == old(self)@.state(
                    other,
                ),
    {
        proof {
            old(self)@.lemma_removed_states(handle@);
        }
        match self.find(handle) {
            None => Err(ComponentError::Removed),
            Some(at) => {
                let slot = self.slots.remove(at);
                proof {
                    assert(self@.slots =~= old(self)@.slots.remove(at as int));
                }
                Ok(slot.component)
            },
        }
    }

    /// Resumes every active component once, in the order in which they were
    /// added. A component that is done is dropped; the others stay as their
    /// attempt left them. A paused component is passed over and stays
    /// exactly as it is, and nothing comes back that was not held. To be
    /// called once after each step of the device.
    pub fn poll_all(&mut self, rt: &mut ComponentRuntime)
        requires
            old(self)@.wf(),
            old(rt)@.wf(),
        ensures
            final(self)@ == (ComponentsView {
                slots: polled::<C>(old(self)@.slots, old(rt)@).0,
                ..old(self)@
            }),
            final(rt)@ == polled::<C>(old(self)@.slots, old(rt)@).1,
            final(self)@.wf(),
            final(rt)@.wf(),
            final(rt)@.same_clock(old(rt)@),
            forall|id: int|
                old(self)@.state(id) == ComponentState::Removed ==> #[trigger] final(self)@.state(
                    id,
                ) == ComponentState::Removed,
            forall|id: int|
                old(self)@.state(id) == ComponentState::Paused ==> {
                    &&& #[trigger] final(self)@.state(id) == ComponentState::Paused
                    &&& final(self)@.slots[final(self)@.position(id)].component == old(
                        self,
                    )@.slots[old(self)@.position(id)].component
                },
    {
        proof {
            laws::lemma_polled_states::<C>(self@, rt@);
        }
        let ghost before = self@.slots;
        let ghost start = rt@;
        let ghost done: int = 0;
        let mut at: usize = 0;
        while at < self.slots.len()
            invariant
                0 <= at <= self.slots@.len(),
                at <= done <= before.len(),
                self@.slots.len() - at == before.len() - done,
                self@.slots.subrange(0, at as int) == polled::<C>(before.subrange(0, done), start).0,
                rt@ == polled::<C>(before.subrange(0, done), start).1,
                self@.slots.subrange(at as int, self@.slots.len() as int) == before.subrange(
                    done,
                    before.len() as int,
                ),
                self@.issued == old(self)@.issued,
                self@.wf(),
                rt@.wf(),
                rt@.same_clock(start),
            decreases self.slots@.len() - at,
        {
            let ghost now = self@;
            let ghost prefix = before.subrange(0, done + 1);
            proof {
                assert(prefix.drop_last() == before.subrange(0, done));
                assert(prefix.last() == before[done]);
                lemma_tails(now.slots, at as int, before, done);
            }
            let mut ready = false;
            if !self.slots[at].paused {
                let slot = &mut self.slots[at];
                match slot.component.poll(rt) {
                    Poll::Ready => {
                        ready = true;
                    },
                    Poll::Pending => {},
                }
            }
            let ghost resumed = self@.slots[at as int];
            proof {
                assert(self@.slots == now.slots.update(at as int, resumed));
                now.lemma_kept_in_order(at as int, resumed);
            }
            if ready {
                self.slots.remove(at);
                proof {
                    assert(self@.slots == now.slots.remove(at as int));
                    now.lemma_dropped_in_order(at as int);
                    assert(self@.slots.subrange(0, at as int) == now.slots.subrange(0, at as int));
                    assert(self@.slots.subrange(at as int, self@.slots.len() as int)
                        == now.slots.subrange(at as int + 1, now.slots.len() as int));
                }
            } else {
                proof {
                    assert(self@.slots.subrange(0, at as int + 1) == now.slots.subrange(
                        0,
                        at as int,
                    ).push(resumed));
                    assert(self@.slots.subrange(at as int + 1, self@.slots.len() as int)
                        == now.slots.subrange(at as int + 1, now.slots.len() as int));
                }
                at += 1;
            }
            proof {
                done = done + 1;
            }
        }
        proof {
            assert(before.subrange(0, done) == before);
            assert(self@.slots.subrange(0, at as int) == self@.slots);
        }
    }
}

} // verus!
