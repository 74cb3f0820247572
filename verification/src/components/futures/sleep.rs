//! Waiting for simulated time to pass.

use crate::components::runtime::{ComponentRuntime, ComponentRuntimeView};
use crate::components::{Component, Poll, Resumed};
use crate::duration::{saturated, CpuDuration};
use vstd::prelude::*;

verus! {

/// Completes once the device has run for a given time.
pub struct SleepFuture {
    duration: CpuDuration,
}

impl View for SleepFuture {
    type V = int;

    /// The cycles still to wait.
    closed spec fn view(&self) -> int {
        self.duration@
    }
}

impl SleepFuture {
    /// A wait of `duration`, counted from the next time components are
    /// resumed.
    pub fn new(duration: CpuDuration) -> (sleep: Self)
        ensures
            sleep@ == duration@,
    {
        Self { duration }
    }

    /// The time still to wait.
    pub fn remaining(&self) -> (left: CpuDuration)
        ensures
            left@ == self@,
    {
        self.duration
    }
}

impl Component for SleepFuture {
    /// The time since components were last resumed comes off what is left
    /// to wait, down to nothing; the wait is over when nothing is left.
    open spec fn resumed(model: int, rt: ComponentRuntimeView) -> Resumed<int> {
        let left = saturated(model - rt.tt);
        Resumed {
            component: left,
            rt,
            poll: if left == 0 {
                Poll::Ready
            } else {
                Poll::Pending
            },
        }
    }

    fn poll(&mut self, rt: &mut ComponentRuntime) -> (poll: Poll) {
        self.duration = self.duration.saturating_sub(rt.tt());

        if self.duration.is_zero() {
            Poll::Ready
        } else {
            Poll::Pending
        }
    }
}

/// What is left to wait after one attempt in each of `rts`, first to last.
pub open spec fn left_after(left: int, rts: Seq<ComponentRuntimeView>) -> int
    decreases rts.len(),
{
    if rts.len() == 0 {
        left
    } else {
        SleepFuture::resumed(left_after(left, rts.drop_last()), rts.last()).component
    }
}

/// The time that passed over the attempts in `rts`: the sum of what each
/// runtime reads as the time since the attempt before.
pub open spec fn time_over(rts: Seq<ComponentRuntimeView>) -> int
    decreases rts.len(),
{
    if rts.len() == 0 {
        0
    } else {
        time_over(rts.drop_last()) + rts.last().tt
    }
}

/// What is left to wait is the time asked for less the time that passed,
/// and never less than nothing.
pub proof fn lemma_left_after(left: int, rts: Seq<ComponentRuntimeView>)
    requires
        0 <= left <= u64::MAX,
        forall|i: int| 0 <= i < rts.len() ==> 0 <= (#[trigger] rts[i]).tt,
    ensures
        0 <= time_over(rts),
        left_after(left, rts) == if time_over(rts) >= left {
            0
        } else {
            left - time_over(rts)
        },
    decreases rts.len(),
{
    if rts.len() > 0 {
        assert forall|i: int| 0 <= i < rts.drop_last().len() implies 0 <= (
        #[trigger] rts.drop_last()[i]).tt by {
            assert(rts.drop_last()[i] == rts[i]);
        }
        lemma_left_after(left, rts.drop_last());
        assert(rts.last() == rts[rts.len() - 1]);
    }
}

/// A sleep is over exactly when its time is up: the attempt made in the
/// last of `rts` completes if and only if the time that passed over all
/// attempts so far, that one included, has reached the time asked for.
pub proof fn lemma_sleep_is_over_when_time_is_up(left: int, rts: Seq<ComponentRuntimeView>)
    requires
        0 <= left <= u64::MAX,
        rts.len() > 0,
        forall|i: int| 0 <= i < rts.len() ==> 0 <= (#[trigger] rts[i]).tt,
    ensures
        SleepFuture::resumed(left_after(left, rts.drop_last()), rts.last()).poll == (if time_over(
            rts,
        ) >= left {
            Poll::Ready
        } else {
            Poll::Pending
        }),
{
    lemma_left_after(left, rts);
}

/// Until its time is up a sleep waits at every attempt: if the time asked
/// for has not passed over all of `rts`, then none of the attempts in them
/// completed.
pub proof fn lemma_sleep_waits_until_then(left: int, rts: Seq<ComponentRuntimeView>, n: int)
    requires
        0 <= left <= u64::MAX,
        0 < n <= rts.len(),
        forall|i: int| 0 <= i < rts.len() ==> 0 <= (#[trigger] rts[i]).tt,
        time_over(rts) < left,
    ensures
        SleepFuture::resumed(
            left_after(left, rts.subrange(0, n).drop_last()),
            rts.subrange(0, n).last(),
        ).poll == Poll::Pending,
{
    let upto = rts.subrange(0, n);
    assert forall|i: int| 0 <= i < upto.len() implies 0 <= (#[trigger] upto[i]).tt by {
        assert(upto[i] == rts[i]);
    }
    lemma_sleep_is_over_when_time_is_up(left, upto);
    lemma_time_grows(rts, n);
}

/// Time only adds up: over more attempts no less time has passed.
pub proof fn lemma_time_grows(rts: Seq<ComponentRuntimeView>, n: int)
    requires
        0 <= n <= rts.len(),
        forall|i: int| 0 <= i < rts.len() ==> 0 <= (#[trigger] rts[i]).tt,
    ensures
        time_over(rts.subrange(0, n)) <= time_over(rts),
    decreases rts.len() - n,
{
    if n < rts.len() {
        let longer = rts.subrange(0, n + 1);
        assert(longer.drop_last() == rts.subrange(0, n));
        assert(longer.last() == rts[n]);
        lemma_time_grows(rts, n + 1);
    } else {
        assert(rts.subrange(0, n) == rts);
    }
}

} // verus!
