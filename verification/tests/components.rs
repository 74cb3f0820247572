use avr_tester::components::futures::pin_level::PinLevelFuture;
use avr_tester::components::futures::pin_write::PinWrite;
use avr_tester::components::futures::sleep::SleepFuture;
use avr_tester::components::futures::then::Then;
use avr_tester::components::futures::yield_step::YieldFuture;
use avr_tester::components::{Component, ComponentError, ComponentState, Components, Poll};
use avr_tester::duration::CpuDuration;
use avr_tester::simulator::avr::{Avr, IoCtl, Irq, Raise};
use avr_tester::simulator::{AvrSimulator, PinId};
use avr_tester::tester::AvrTester;

const CLOCK_FREQUENCY: u32 = 16_000_000;

/// One step of the device takes a microsecond here.
const CYCLES_PER_STEP: u64 = 16;

fn tester() -> AvrTester {
    AvrTester::new(AvrSimulator::new(Avr::new(Vec::new())), CLOCK_FREQUENCY)
}

fn run_for_ms<C: Component>(avr: &mut AvrTester, components: &mut Components<C>, n: u64) {
    let mut left = CpuDuration::millis(CLOCK_FREQUENCY, n);
    while !left.is_zero() {
        avr.before_step();
        avr.after_step(CYCLES_PER_STEP);
        components.poll_all(avr.rt());
        left = left.saturating_sub(CpuDuration::new(CYCLES_PER_STEP));
    }
}

fn pin(port: char, pin: u8) -> PinId {
    PinId::new(port, pin).unwrap()
}

fn pin_irq(port: char, index: u32) -> Irq {
    Irq { ioctl: IoCtl::IoPortGetIrq { port }, index }
}

/// A component that sleeps fifty milliseconds and then leaves its mark.
#[test]
fn timed_sleep() {
    let mut avr = tester();
    let mut components = Components::new();
    let marker = pin('C', 3);
    let sleep = SleepFuture::new(CpuDuration::millis(CLOCK_FREQUENCY, 50));
    let handle = components.add(Then::new(sleep, PinWrite::new(marker, true)));

    run_for_ms(&mut avr, &mut components, 49);
    assert!(!avr.sim().get_pin_state(marker));
    assert!(avr.sim().avr().take_raised().is_empty());
    assert_eq!(components.state(handle), ComponentState::Active);

    run_for_ms(&mut avr, &mut components, 2);
    assert_eq!(avr.elapsed().as_millis(CLOCK_FREQUENCY), 51);
    assert!(avr.sim().get_pin_state(marker));
    assert_eq!(
        avr.sim().avr().take_raised(),
        vec![Raise { irq: pin_irq('C', 3), value: 1 }]
    );
    assert_eq!(components.state(handle), ComponentState::Removed);

    run_for_ms(&mut avr, &mut components, 60);
    assert!(avr.sim().avr().take_raised().is_empty());
}

#[test]
fn sleep_is_over_exactly_when_its_time_is_up() {
    let mut avr = tester();
    let mut sleep = SleepFuture::new(CpuDuration::new(10));

    for passed in [4, 0, 5] {
        avr.after_step(passed);
        assert_eq!(sleep.poll(avr.rt()), Poll::Pending);
    }
    assert_eq!(sleep.remaining(), CpuDuration::new(1));

    avr.after_step(1);
    assert_eq!(sleep.poll(avr.rt()), Poll::Ready);
    assert!(sleep.remaining().is_zero());
}

#[test]
fn sleep_does_not_carry_time_over() {
    let mut avr = tester();
    let mut sleep = SleepFuture::new(CpuDuration::new(10));
    avr.after_step(1_000);
    assert_eq!(sleep.poll(avr.rt()), Poll::Ready);
    assert!(sleep.remaining().is_zero());
}

#[test]
fn sleep_of_no_time_is_over_at_once() {
    let mut avr = tester();
    let mut sleep = SleepFuture::new(CpuDuration::zero());
    assert_eq!(sleep.poll(avr.rt()), Poll::Ready);
}

#[test]
fn sleep_waits_while_the_clock_stands() {
    let mut avr = tester();
    let mut sleep = SleepFuture::new(CpuDuration::new(1));
    assert_eq!(sleep.poll(avr.rt()), Poll::Pending);
    assert_eq!(sleep.poll(avr.rt()), Poll::Pending);
    assert_eq!(sleep.remaining(), CpuDuration::new(1));
}

#[test]
fn yield_waits_exactly_once() {
    let mut avr = tester();
    let mut wait = YieldFuture::new();
    assert_eq!(wait.poll(avr.rt()), Poll::Pending);
    assert_eq!(wait.poll(avr.rt()), Poll::Ready);
    assert_eq!(wait.poll(avr.rt()), Poll::Ready);
}

#[test]
fn pin_level_is_reached_when_the_pin_is_there() {
    let mut avr = tester();
    let mut high = PinLevelFuture::new(pin('B', 0), true);
    let mut low = PinLevelFuture::new(pin('B', 0), false);

    assert_eq!(high.poll(avr.rt()), Poll::Pending);
    assert_eq!(low.poll(avr.rt()), Poll::Ready);

    avr.sim().notify(pin_irq('B', 1), 1);
    assert_eq!(high.poll(avr.rt()), Poll::Pending);

    avr.sim().notify(pin_irq('B', 0), 1);
    assert_eq!(high.poll(avr.rt()), Poll::Ready);
    assert_eq!(low.poll(avr.rt()), Poll::Pending);
}

#[test]
fn second_part_starts_in_the_attempt_that_ends_the_first() {
    let mut avr = tester();
    let marker = pin('A', 0);
    let mut both = Then::new(YieldFuture::new(), PinLevelFuture::new(marker, true));

    assert_eq!(both.poll(avr.rt()), Poll::Pending);
    // the wait for the step is over, the wait for the pin begins
    assert_eq!(both.poll(avr.rt()), Poll::Pending);
    avr.sim().notify(pin_irq('A', 0), 1);
    assert_eq!(both.poll(avr.rt()), Poll::Ready);

    let mut at_once = Then::new(SleepFuture::new(CpuDuration::zero()), PinWrite::new(marker, false));
    assert_eq!(at_once.poll(avr.rt()), Poll::Ready);
    assert!(!avr.sim().get_pin_state(marker));
}

#[test]
fn components_are_resumed_in_the_order_added() {
    let mut avr = tester();
    let mut components = Components::new();
    assert!(components.is_empty());
    components.add(PinWrite::new(pin('B', 2), true));
    components.add(PinWrite::new(pin('A', 1), false));
    components.add(PinWrite::new(pin('K', 7), true));
    assert_eq!(components.len(), 3);

    components.poll_all(avr.rt());

    assert_eq!(
        avr.sim().avr().take_raised(),
        vec![
            Raise { irq: pin_irq('B', 2), value: 1 },
            Raise { irq: pin_irq('A', 1), value: 0 },
            Raise { irq: pin_irq('K', 7), value: 1 },
        ]
    );
    assert!(components.is_empty());
}

#[test]
fn each_component_is_resumed_once_per_pass() {
    let mut avr = tester();
    let mut components = Components::new();
    let first = components.add(YieldFuture::new());
    let second = components.add(YieldFuture::new());

    components.poll_all(avr.rt());
    assert_eq!(components.state(first), ComponentState::Active);
    assert_eq!(components.state(second), ComponentState::Active);

    components.poll_all(avr.rt());
    assert_eq!(components.state(first), ComponentState::Removed);
    assert_eq!(components.state(second), ComponentState::Removed);
}

#[test]
fn paused_component_is_frozen() {
    let mut avr = tester();
    let mut components = Components::new();
    let paused = components.add(SleepFuture::new(CpuDuration::new(100)));
    let other = components.add(SleepFuture::new(CpuDuration::new(100)));

    avr.after_step(30);
    components.poll_all(avr.rt());
    assert_eq!(components.pause(paused), Ok(()));
    assert_eq!(components.state(paused), ComponentState::Paused);
    // pausing again changes nothing
    assert_eq!(components.pause(paused), Ok(()));

    for _ in 0..5 {
        avr.after_step(10);
        components.poll_all(avr.rt());
    }
    assert_eq!(components.get(paused).unwrap().remaining(), CpuDuration::new(70));
    assert_eq!(components.get(other).unwrap().remaining(), CpuDuration::new(20));

    assert_eq!(components.resume(paused), Ok(()));
    assert_eq!(components.state(paused), ComponentState::Active);
    avr.after_step(20);
    components.poll_all(avr.rt());
    assert_eq!(components.get(paused).unwrap().remaining(), CpuDuration::new(50));
    assert_eq!(components.state(other), ComponentState::Removed);
    assert_eq!(components.len(), 1);
}

#[test]
fn paused_component_has_no_effect() {
    let mut avr = tester();
    let mut components = Components::new();
    let first = components.add(PinWrite::new(pin('B', 0), true));
    let second = components.add(PinWrite::new(pin('B', 1), true));
    components.pause(first).unwrap();

    components.poll_all(avr.rt());
    assert_eq!(
        avr.sim().avr().take_raised(),
        vec![Raise { irq: pin_irq('B', 1), value: 1 }]
    );
    assert_eq!(components.state(first), ComponentState::Paused);
    assert_eq!(components.state(second), ComponentState::Removed);

    components.resume(first).unwrap();
    components.poll_all(avr.rt());
    assert_eq!(
        avr.sim().avr().take_raised(),
        vec![Raise { irq: pin_irq('B', 0), value: 1 }]
    );
}

#[test]
fn removed_component_is_gone_for_good() {
    let mut avr = tester();
    let mut components = Components::new();
    let first = components.add(SleepFuture::new(CpuDuration::new(100)));
    let second = components.add(SleepFuture::new(CpuDuration::new(200)));

    avr.after_step(40);
    components.poll_all(avr.rt());
    let removed = components.remove(first).unwrap();
    assert_eq!(removed.remaining(), CpuDuration::new(60));
    assert_eq!(components.state(first), ComponentState::Removed);
    assert!(components.get(first).is_none());

    assert_eq!(components.pause(first), Err(ComponentError::Removed));
    assert_eq!(components.resume(first), Err(ComponentError::Removed));
    assert!(matches!(components.remove(first), Err(ComponentError::Removed)));

    avr.after_step(40);
    components.poll_all(avr.rt());
    assert_eq!(components.state(first), ComponentState::Removed);
    assert_eq!(components.get(second).unwrap().remaining(), CpuDuration::new(120));

    // a component added later gets a handle of its own
    let third = components.add(SleepFuture::new(CpuDuration::new(1)));
    assert_ne!(third, first);
    assert_ne!(third, second);
    assert_eq!(components.state(first), ComponentState::Removed);
    assert_eq!(components.len(), 2);
}

#[test]
fn component_that_is_done_is_removed() {
    let mut avr = tester();
    let mut components = Components::new();
    let handle = components.add(SleepFuture::new(CpuDuration::new(10)));
    assert!(components.can_add());

    avr.after_step(10);
    components.poll_all(avr.rt());

    assert_eq!(components.state(handle), ComponentState::Removed);
    assert_eq!(components.pause(handle), Err(ComponentError::Removed));
    assert!(components.is_empty());
}

#[test]
fn removing_keeps_the_others_in_order() {
    let mut avr = tester();
    let mut components = Components::new();
    let a = components.add(PinWrite::new(pin('A', 0), true));
    let b = components.add(PinWrite::new(pin('A', 1), true));
    let c = components.add(PinWrite::new(pin('A', 2), true));
    components.remove(b).unwrap();
    assert_eq!(components.state(a), ComponentState::Active);
    assert_eq!(components.state(c), ComponentState::Active);

    components.poll_all(avr.rt());
    assert_eq!(
        avr.sim().avr().take_raised(),
        vec![
            Raise { irq: pin_irq('A', 0), value: 1 },
            Raise { irq: pin_irq('A', 2), value: 1 },
        ]
    );
}
