use avr_tester::duration::CpuDuration;

const CLOCK_FREQUENCY: u32 = 16_000_000;

#[test]
fn micros_are_counted_in_cycles() {
    assert_eq!(CpuDuration::micros(CLOCK_FREQUENCY, 150).as_cycles(), 2_400);
    assert_eq!(CpuDuration::micros(CLOCK_FREQUENCY, 0).as_cycles(), 0);
    assert_eq!(CpuDuration::micros(1_000_000, 7).as_cycles(), 7);
}

#[test]
fn millis_are_counted_in_cycles() {
    assert_eq!(CpuDuration::millis(CLOCK_FREQUENCY, 50).as_cycles(), 800_000);
    assert_eq!(CpuDuration::millis(CLOCK_FREQUENCY, 1).as_cycles(), 16_000);
}

#[test]
fn conversions_round_down() {
    // a clock of 1.5 MHz runs through one and a half cycles in a microsecond
    assert_eq!(CpuDuration::micros(1_500_000, 1).as_cycles(), 1);
    assert_eq!(CpuDuration::micros(1_500_000, 3).as_cycles(), 4);
    assert_eq!(CpuDuration::new(31).as_micros(CLOCK_FREQUENCY), 1);
    assert_eq!(CpuDuration::new(15).as_micros(CLOCK_FREQUENCY), 0);
    assert_eq!(CpuDuration::new(15_999).as_millis(CLOCK_FREQUENCY), 0);
}

#[test]
fn cycles_are_counted_in_time() {
    assert_eq!(CpuDuration::new(2_400).as_micros(CLOCK_FREQUENCY), 150);
    assert_eq!(CpuDuration::new(800_000).as_millis(CLOCK_FREQUENCY), 50);
    assert_eq!(CpuDuration::new(800_000).as_micros(CLOCK_FREQUENCY), 50_000);
}

#[test]
fn a_stopped_clock_runs_through_no_cycles() {
    assert_eq!(CpuDuration::micros(0, 1_000), CpuDuration::zero());
    assert!(CpuDuration::millis(0, u64::MAX).is_zero());
}

#[test]
fn conversions_stop_at_the_longest_span() {
    assert_eq!(CpuDuration::millis(u32::MAX, u64::MAX).as_cycles(), u64::MAX);
    assert_eq!(CpuDuration::micros(2_000_000, u64::MAX).as_cycles(), u64::MAX);
    assert_eq!(CpuDuration::micros(1_000_000, u64::MAX).as_cycles(), u64::MAX);
    assert_eq!(CpuDuration::micros(500_000, u64::MAX).as_cycles(), u64::MAX / 2);
    assert_eq!(CpuDuration::new(u64::MAX).as_micros(1), u64::MAX);
}

#[test]
fn subtraction_stops_at_nothing() {
    let long = CpuDuration::new(10);
    let short = CpuDuration::new(4);
    assert_eq!(long.saturating_sub(short), CpuDuration::new(6));
    assert_eq!(short.saturating_sub(long), CpuDuration::zero());
    assert_eq!(long.saturating_sub(long), CpuDuration::zero());
    assert!(short.saturating_sub(long).is_zero());
    assert!(!long.saturating_sub(short).is_zero());
}

#[test]
fn addition_stops_at_the_longest_span() {
    let long = CpuDuration::new(u64::MAX - 1);
    assert_eq!(long.saturating_add(CpuDuration::new(1)), CpuDuration::new(u64::MAX));
    assert_eq!(long.saturating_add(CpuDuration::new(2)), CpuDuration::new(u64::MAX));
    assert_eq!(CpuDuration::new(3).saturating_add(CpuDuration::new(4)).as_cycles(), 7);
}
