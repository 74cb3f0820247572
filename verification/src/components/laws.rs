//! What holds of a runtime through everything that can be done with it.

use crate::components::runtime::ComponentRuntimeView;
use crate::components::{polled, Component, ComponentState, ComponentsView, SlotView};
use vstd::prelude::*;

verus! {

/// One thing that can be done with a runtime.
pub enum Step<M> {
    /// A component is added.
    Add { component: M },
    /// The component with number `id` is paused.
    Pause { id: int },
    /// The component with number `id` is resumed.
    Resume { id: int },
    /// The component with number `id` is removed.
    Remove { id: int },
    /// Every active component is resumed once, the runtime being `rt` when
    /// the first one is.
    PollAll { rt: ComponentRuntimeView },
}

/// The runtime after `step`.
pub open spec fn after<C: Component>(view: ComponentsView<C::V>, step: Step<C::V>)
    -> ComponentsView<C::V> {
    match step {
        Step::Add { component } => view.added(component),
        Step::Pause { id } => view.with_paused(id, true),
        Step::Resume { id } => view.with_paused(id, false),
        Step::Remove { id } => view.removed(id),
        Step::PollAll { rt } => ComponentsView { slots: polled::<C>(view.slots, rt).0, ..view },
    }
}

/// The runtime after `steps`, first to last.
pub open spec fn after_all<C: Component>(view: ComponentsView<C::V>, steps: Seq<Step<C::V>>)
    -> ComponentsView<C::V>
    decreases steps.len(),
{
    if steps.len() == 0 {
        view
    } else {
        after::<C>(after_all::<C>(view, steps.drop_last()), steps.last())
    }
}

/// `kept` is what a pass made of `slot`: the same component under the same
/// number, paused or not as before, and untouched if it was paused.
pub open spec fn came_from<M>(kept: SlotView<M>, slot: SlotView<M>) -> bool {
    &&& kept.id == slot.id
    &&& kept.paused == slot.paused
    &&& slot.paused ==> kept.component == slot.component
}

/// The numbers in `slots` grow from each component to the next.
pub open spec fn increasing<M>(slots: Seq<SlotView<M>>) -> bool {
    forall|i: int, j: int|
        0 <= i < j < slots.len() ==> (#[trigger] slots[i]).id < (#[trigger] slots[j]).id
}

/// A pass brings no component in and changes no order: whatever is held
/// after it was held before, under the same number, and the components
/// that are kept stand as they stood.
pub proof fn lemma_polled_came_from<C: Component>(
    slots: Seq<SlotView<C::V>>,
    rt: ComponentRuntimeView,
)
    ensures
        polled::<C>(slots, rt).0.len() <= slots.len(),
        forall|k: int|
            0 <= k < polled::<C>(slots, rt).0.len() ==> exists|i: int|
                0 <= i < slots.len() && came_from(
                    #[trigger] polled::<C>(slots, rt).0[k],
                    #[trigger] slots[i],
                ),
        increasing(slots) ==> increasing(polled::<C>(slots, rt).0),
    decreases slots.len(),
{
    let kept = polled::<C>(slots, rt).0;
    if slots.len() > 0 {
        let front = slots.drop_last();
        lemma_polled_came_from::<C>(front, rt);
        let kept_front = polled::<C>(front, rt).0;
        assert forall|k: int| 0 <= k < kept.len() implies exists|i: int|
            0 <= i < slots.len() && came_from(#[trigger] kept[k], #[trigger] slots[i]) by {
            if k < kept_front.len() {
                assert(kept[k] == kept_front[k]);
                let i = choose|i: int|
                    0 <= i < front.len() && came_from(kept_front[k], #[trigger] front[i]);
                assert(front[i] == slots[i]);
                assert(came_from(kept[k], slots[i]));
            } else {
                assert(came_from(kept[k], slots[slots.len() - 1]));
            }
        }
        if increasing(slots) {
            assert(increasing(front)) by {
                assert forall|i: int, j: int| 0 <= i < j < front.len() implies (
                #[trigger] front[i]).id < (#[trigger] front[j]).id by {
                    assert(slots[i].id < slots[j].id);
                }
            }
            assert forall|a: int, b: int| 0 <= a < b < kept.len() implies (#[trigger] kept[a]).id
                < (#[trigger] kept[b]).id by {
                if b < kept_front.len() {
                    assert(kept_front[a].id < kept_front[b].id);
                } else {
                    let i = choose|i: int|
                        0 <= i < front.len() && came_from(kept_front[a], #[trigger] front[i]);
                    assert(slots[i].id < slots[slots.len() - 1].id);
                }
            }
        }
    }
}

/// A pass keeps every paused component exactly as it is.
pub proof fn lemma_polled_keeps_paused<C: Component>(
    slots: Seq<SlotView<C::V>>,
    rt: ComponentRuntimeView,
    at: int,
)
    requires
        0 <= at < slots.len(),
        slots[at].paused,
    ensures
        exists|k: int|
            0 <= k < polled::<C>(slots, rt).0.len() && #[trigger] polled::<C>(slots, rt).0[k]
                == slots[at],
    decreases slots.len(),
{
    let kept = polled::<C>(slots, rt).0;
    let front = slots.drop_last();
    let kept_front = polled::<C>(front, rt).0;
    if at == slots.len() - 1 {
        assert(kept[kept_front.len() as int] == slots[at]);
    } else {
        lemma_polled_keeps_paused::<C>(front, rt, at);
        let k = choose|k: int| 0 <= k < kept_front.len() && #[trigger] kept_front[k] == front[at];
        assert(kept[k] == slots[at]);
    }
}

/// A paused component is not seen: the pass leaves the runtime, and every
/// other component, exactly as it would if the paused one were not there.
pub proof fn lemma_paused_is_not_seen<C: Component>(
    slots: Seq<SlotView<C::V>>,
    rt: ComponentRuntimeView,
    at: int,
)
    requires
        0 <= at < slots.len(),
        slots[at].paused,
    ensures
        polled::<C>(slots, rt).1 == polled::<C>(slots.remove(at), rt).1,
        exists|k: int|
            {
                &&& 0 <= k < polled::<C>(slots, rt).0.len()
                &&& #[trigger] polled::<C>(slots, rt).0[k] == slots[at]
                &&& polled::<C>(slots, rt).0.remove(k) == polled::<C>(slots.remove(at), rt).0
            },
    decreases slots.len(),
{
    let kept = polled::<C>(slots, rt).0;
    let front = slots.drop_last();
    let kept_front = polled::<C>(front, rt).0;
    let without = slots.remove(at);
    if at == slots.len() - 1 {
        assert(without == front);
        let k = kept_front.len() as int;
        assert(kept[k] == slots[at]);
        assert(kept.remove(k) == kept_front);
    } else {
        lemma_paused_is_not_seen::<C>(front, rt, at);
        let k = choose|k: int|
            {
                &&& 0 <= k < kept_front.len()
                &&& #[trigger] kept_front[k] == front[at]
                &&& kept_front.remove(k) == polled::<C>(front.remove(at), rt).0
            };
        assert(without.drop_last() == front.remove(at));
        assert(without.last() == slots.last());
        let kept_without = polled::<C>(without, rt).0;
        assert(kept[k] == slots[at]);
        assert(kept.remove(k) == kept_without);
    }
}

/// What a pass does to the states: a component that was not held is not
/// held after it, and a paused component is still held, paused, and exactly
/// what it was.
pub proof fn lemma_polled_states<C: Component>(view: ComponentsView<C::V>, rt: ComponentRuntimeView)
    requires
        view.ordered(),
    ensures
        after::<C>(view, Step::PollAll { rt }).ordered(),
        forall|id: int|
            view.state(id) == ComponentState::Removed ==> #[trigger] after::<C>(
                view,
                Step::PollAll { rt },
            ).state(id) == ComponentState::Removed,
        forall|id: int|
            view.state(id) == ComponentState::Paused ==> {
                &&& #[trigger] after::<C>(view, Step::PollAll { rt }).state(id)
                    == ComponentState::Paused
                &&& after::<C>(view, Step::PollAll { rt }).slots[after::<C>(
                    view,
                    Step::PollAll { rt },
                ).position(id)].component == view.slots[view.position(id)].component
            },
{
    let next = after::<C>(view, Step::PollAll { rt });
    lemma_after_in_order::<C>(view, Step::PollAll { rt });
    lemma_polled_came_from::<C>(view.slots, rt);
    assert forall|id: int| view.state(id) == ComponentState::Removed implies #[trigger] next.state(
        id,
    ) == ComponentState::Removed by {
        if next.contains(id) {
            let k = next.position(id);
            let i = choose|i: int|
                0 <= i < view.slots.len() && came_from(next.slots[k], #[trigger] view.slots[i]);
            assert(view.slots[i].id == id);
        }
    }
    assert forall|id: int| view.state(id) == ComponentState::Paused implies {
        &&& #[trigger] next.state(id) == ComponentState::Paused
        &&& next.slots[next.position(id)].component == view.slots[view.position(id)].component
    } by {
        let at = view.position(id);
        lemma_polled_keeps_paused::<C>(view.slots, rt, at);
        let k = choose|k: int|
            0 <= k < next.slots.len() && #[trigger] next.slots[k] == view.slots[at];
        next.lemma_position(k);
    }
}

/// Whatever is done with an ordered runtime leaves it ordered, and no
/// number is taken back.
pub proof fn lemma_after_in_order<C: Component>(view: ComponentsView<C::V>, step: Step<C::V>)
    requires
        view.ordered(),
    ensures
        after::<C>(view, step).ordered(),
        after::<C>(view, step).issued >= view.issued,
{
    let next = after::<C>(view, step);
    match step {
        Step::Add { component } => {
            assert forall|i: int, j: int| 0 <= i < j < next.slots.len() implies (
            #[trigger] next.slots[i]).id < (#[trigger] next.slots[j]).id by {
                if j < view.slots.len() {
                    assert(view.slots[i].id < view.slots[j].id);
                } else {
                    assert(view.slots[i].id < view.issued);
                }
            }
            assert forall|i: int| 0 <= i < next.slots.len() implies 0 <= (
            #[trigger] next.slots[i]).id < next.issued by {
                if i < view.slots.len() {
                    assert(view.slots[i].id < view.issued);
                }
            }
        },
        Step::Pause { id } => {
            if view.contains(id) {
                let at = view.position(id);
                view.lemma_kept_in_order(at, SlotView { paused: true, ..view.slots[at] });
            }
        },
        Step::Resume { id } => {
            if view.contains(id) {
                let at = view.position(id);
                view.lemma_kept_in_order(at, SlotView { paused: false, ..view.slots[at] });
            }
        },
        Step::Remove { id } => {
            if view.contains(id) {
                view.lemma_dropped_in_order(view.position(id));
            }
        },
        Step::PollAll { rt } => {
            lemma_polled_came_from::<C>(view.slots, rt);
            assert(increasing(view.slots));
            assert forall|k: int| 0 <= k < next.slots.len() implies 0 <= (
            #[trigger] next.slots[k]).id < next.issued by {
                let i = choose|i: int|
                    0 <= i < view.slots.len() && came_from(next.slots[k], #[trigger] view.slots[i]);
                assert(0 <= view.slots[i].id < view.issued);
            }
        },
    }
}

/// Removal is final. A handle under which the runtime holds nothing, because
/// its component was removed or came to its end, stays that way whatever is
/// done afterwards: no pass resumes that component again, and no component
/// added later gets that handle.
pub proof fn lemma_removed_stays_removed<C: Component>(
    view: ComponentsView<C::V>,
    id: int,
    steps: Seq<Step<C::V>>,
)
    requires
        view.ordered(),
        id < view.issued,
        !view.contains(id),
    ensures
        !after_all::<C>(view, steps).contains(id),
        after_all::<C>(view, steps).state(id) == ComponentState::Removed,
        after_all::<C>(view, steps).ordered(),
        after_all::<C>(view, steps).issued >= view.issued,
    decreases steps.len(),
{
    if steps.len() > 0 {
        let before = after_all::<C>(view, steps.drop_last());
        let step = steps.last();
        let next = after::<C>(before, step);
        lemma_removed_stays_removed::<C>(view, id, steps.drop_last());
        lemma_after_in_order::<C>(before, step);
        if next.contains(id) {
            let k = next.position(id);
            assert(next.slots[k].id == id);
            match step {
                Step::Add { component } => {
                    if k < before.slots.len() {
                        assert(before.slots[k].id == id);
                    }
                },
                Step::Pause { id: other } => {
                    assert(before.slots[k].id == id);
                },
                Step::Resume { id: other } => {
                    assert(before.slots[k].id == id);
                },
                Step::Remove { id: other } => {
                    let at = before.position(other);
                    let from = if k < at {
                        k
                    } else {
                        k + 1
                    };
                    assert(before.slots[from].id == id);
                },
                Step::PollAll { rt } => {
                    lemma_polled_came_from::<C>(before.slots, rt);
                    let i = choose|i: int|
                        0 <= i < before.slots.len() && came_from(
                            next.slots[k],
                            #[trigger] before.slots[i],
                        );
                    assert(before.slots[i].id == id);
                },
            }
            assert(false);
        }
    }
}

/// No step in `steps` resumes or removes the component with number `id`.
pub open spec fn leaves_alone<M>(steps: Seq<Step<M>>, id: int) -> bool {
    forall|k: int|
        0 <= k < steps.len() ==> #[trigger] steps[k] != Step::<M>::Resume { id } && steps[k]
            != Step::<M>::Remove { id }
}

/// A paused component is frozen. However often the device is stepped and
/// the others are resumed, and whatever else is added, paused, resumed or
/// removed, the paused component is still held and is exactly what it was
/// when it was paused; once resumed, it goes on from there.
pub proof fn lemma_paused_stays_frozen<C: Component>(
    view: ComponentsView<C::V>,
    id: int,
    steps: Seq<Step<C::V>>,
)
    requires
        view.ordered(),
        view.state(id) == ComponentState::Paused,
        leaves_alone(steps, id),
    ensures
        ({
            let later = after_all::<C>(view, steps);
            let resumed = after::<C>(later, Step::Resume { id });
            &&& later.ordered()
            &&& later.state(id) == ComponentState::Paused
            &&& later.slots[later.position(id)].component == view.slots[view.position(
                id,
            )].component
            &&& resumed.state(id) == ComponentState::Active
            &&& resumed.slots[resumed.position(id)].component == view.slots[view.position(
                id,
            )].component
        }),
    decreases steps.len(),
{
    let later = after_all::<C>(view, steps);
    if steps.len() > 0 {
        let before = after_all::<C>(view, steps.drop_last());
        let step = steps.last();
        assert(leaves_alone(steps.drop_last(), id)) by {
            assert forall|k: int| 0 <= k < steps.drop_last().len() implies #[trigger] steps.drop_last()[k]
                != Step::<C::V>::Resume { id } && steps.drop_last()[k] != Step::<C::V>::Remove {
                id,
            } by {
                assert(steps.drop_last()[k] == steps[k]);
            }
        }
        lemma_paused_stays_frozen::<C>(view, id, steps.drop_last());
        lemma_after_in_order::<C>(before, step);
        let at = before.position(id);
        let slot = before.slots[at];
        assert(steps[steps.len() - 1] == step);
        match step {
            Step::Add { component } => {
                assert(later.slots[at] == slot);
                later.lemma_position(at);
            },
            Step::Pause { id: other } => {
                if before.contains(other) {
                    let there = before.position(other);
                    if there == at {
                        assert(later.slots[at] == slot);
                    } else {
                        assert(later.slots[at] == slot);
                    }
                }
                later.lemma_position(at);
            },
            Step::Resume { id: other } => {
                if before.contains(other) {
                    let there = before.position(other);
                    assert(before.slots[there].id == other);
                    assert(other != id);
                    assert(later.slots[at] == slot);
                }
                later.lemma_position(at);
            },
            Step::Remove { id: other } => {
                if before.contains(other) {
                    let there = before.position(other);
                    assert(before.slots[there].id == other);
                    assert(other != id);
                    let to = if at < there {
                        at
                    } else {
                        at - 1
                    };
                    assert(later.slots[to] == slot);
                    later.lemma_position(to);
                } else {
                    later.lemma_position(at);
                }
            },
            Step::PollAll { rt } => {
                lemma_polled_keeps_paused::<C>(before.slots, rt, at);
                let k = choose|k: int|
                    0 <= k < later.slots.len() && #[trigger] later.slots[k] == before.slots[at];
                later.lemma_position(k);
            },
        }
    }
    let at = later.position(id);
    let resumed = after::<C>(later, Step::Resume { id });
    lemma_after_in_order::<C>(later, Step::Resume { id });
    assert(resumed.slots[at].id == id);
    resumed.lemma_position(at);
}

} // verus!
