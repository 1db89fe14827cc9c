use broken::rate::{Rate, RateError};
use broken::spin::{Pace, Spin, SpinMode, POLL_INTERVAL};

const MS: u64 = 1_000_000;

fn ten_hertz() -> SpinMode {
    SpinMode::frequency(10_000).unwrap()
}

#[test]
fn default_mode_is_freewheel() {
    assert_eq!(SpinMode::default(), SpinMode::Freewheel);
}

#[test]
fn frequency_mode_refuses_zero_and_negative_rates() {
    assert_eq!(SpinMode::frequency(0), Err(RateError::NegativeOrZeroRate));
    assert_eq!(SpinMode::frequency(-5_000), Err(RateError::NegativeOrZeroRate));
}

#[test]
fn frequency_mode_holds_the_rate() {
    assert_eq!(
        SpinMode::frequency(5_000),
        Ok(SpinMode::Frequency(Rate::new(5_000).unwrap()))
    );
}

#[test]
fn new_spin_has_its_first_beat_at_the_start() {
    let spin = Spin::new(42);
    assert_eq!(spin.next_call(), 42);
    assert!(!spin.is_stopped());
}

#[test]
fn freewheel_invokes_at_once_and_keeps_the_beat() {
    let mut spin = Spin::new(7);
    assert_eq!(spin.pace(&SpinMode::Freewheel, 1_000), Pace::Invoke { wait: 0 });
    assert_eq!(spin.pace(&SpinMode::Freewheel, 0), Pace::Invoke { wait: 0 });
    assert_eq!(spin.next_call(), 7);
}

#[test]
fn ondemand_polls_every_millisecond_until_triggered() {
    let mut spin = Spin::new(0);
    assert_eq!(POLL_INTERVAL, MS);
    assert_eq!(spin.pace(&SpinMode::Ondemand(None), 5), Pace::Poll { wait: MS });
    assert_eq!(spin.pace(&SpinMode::Ondemand(None), 5 + MS), Pace::Poll { wait: MS });
    assert_eq!(
        spin.pace(&SpinMode::Ondemand(Some(())), 5 + 2 * MS),
        Pace::Invoke { wait: 0 }
    );
    assert_eq!(spin.next_call(), 0);
    assert!(!spin.is_stopped());
}

#[test]
fn first_fixed_frequency_invocation_is_immediate() {
    let mut spin = Spin::new(1_000);
    assert_eq!(spin.pace(&ten_hertz(), 1_000), Pace::Invoke { wait: 0 });
    assert_eq!(spin.next_call(), 1_000 + 100 * MS);
}

#[test]
fn fixed_frequency_waits_until_the_beat() {
    let mut spin = Spin::new(0);
    assert_eq!(spin.pace(&ten_hertz(), 0), Pace::Invoke { wait: 0 });
    assert_eq!(spin.pace(&ten_hertz(), 30 * MS), Pace::Invoke { wait: 70 * MS });
    assert_eq!(spin.next_call(), 200 * MS);
}

#[test]
fn phase_lock_over_fifty_beats_at_ten_hertz() {
    let start: u64 = 123_456_789;
    let mut spin = Spin::new(start);
    let mut now = start;
    for k in 0..=50u64 {
        let beat = start + k * 100 * MS;
        assert_eq!(spin.next_call(), beat);
        match spin.pace(&ten_hertz(), now) {
            Pace::Invoke { wait } => assert_eq!(now + wait, beat),
            other => panic!("unexpected pace {:?}", other),
        }
        assert!(spin.settle(Some(())));
        // the body takes a different time at every turn, always under a period
        now = beat + (k * 7 % 90) * MS;
    }
    assert_eq!(spin.next_call(), start + 51 * 100 * MS);
}

#[test]
fn overrun_is_absorbed_without_resetting_the_beat() {
    let mut spin = Spin::new(0);
    assert_eq!(spin.pace(&ten_hertz(), 0), Pace::Invoke { wait: 0 });
    // the body ran for 250 ms: two beats were overrun
    assert_eq!(spin.pace(&ten_hertz(), 250 * MS), Pace::Invoke { wait: 0 });
    assert_eq!(spin.next_call(), 200 * MS);
    assert_eq!(spin.pace(&ten_hertz(), 251 * MS), Pace::Invoke { wait: 0 });
    assert_eq!(spin.next_call(), 300 * MS);
    // back on the nominal beats
    assert_eq!(spin.pace(&ten_hertz(), 252 * MS), Pace::Invoke { wait: 48 * MS });
    assert_eq!(spin.next_call(), 400 * MS);
}

#[test]
fn pace_exactly_on_the_beat_does_not_wait() {
    let mut spin = Spin::new(0);
    spin.pace(&ten_hertz(), 0);
    assert_eq!(spin.pace(&ten_hertz(), 100 * MS), Pace::Invoke { wait: 0 });
}

#[test]
fn settle_some_goes_on() {
    let mut spin = Spin::new(0);
    assert!(spin.settle(Some(())));
    assert!(!spin.is_stopped());
}

#[test]
fn settle_none_stops_for_good() {
    let mut spin = Spin::new(0);
    spin.pace(&ten_hertz(), 0);
    assert!(!spin.settle(None));
    assert!(spin.is_stopped());
    assert_eq!(spin.pace(&ten_hertz(), 500 * MS), Pace::Halt);
    assert_eq!(spin.pace(&SpinMode::Freewheel, 500 * MS), Pace::Halt);
    assert_eq!(spin.pace(&SpinMode::Ondemand(Some(())), 500 * MS), Pace::Halt);
    assert_eq!(spin.pace(&SpinMode::Ondemand(None), 500 * MS), Pace::Halt);
    assert_eq!(spin.next_call(), 100 * MS);
    assert!(!spin.settle(Some(())));
    assert!(spin.is_stopped());
}

#[test]
fn mode_may_change_between_invocations() {
    let mut spin = Spin::new(0);
    assert_eq!(spin.pace(&ten_hertz(), 0), Pace::Invoke { wait: 0 });
    assert_eq!(spin.pace(&SpinMode::Freewheel, 10 * MS), Pace::Invoke { wait: 0 });
    assert_eq!(spin.pace(&ten_hertz(), 20 * MS), Pace::Invoke { wait: 80 * MS });
    let fifty = SpinMode::frequency(50_000).unwrap();
    assert_eq!(spin.pace(&fifty, 150 * MS), Pace::Invoke { wait: 50 * MS });
    assert_eq!(spin.next_call(), 220 * MS);
}

#[test]
fn only_a_fixed_frequency_pace_can_run_out_of_room() {
    let spin = Spin::new(u64::MAX);
    assert!(spin.can_pace(&SpinMode::Freewheel));
    assert!(spin.can_pace(&SpinMode::Ondemand(None)));
    assert!(spin.can_pace(&SpinMode::Ondemand(Some(()))));
    assert!(!spin.can_pace(&ten_hertz()));
    assert!(Spin::new(u64::MAX - 100 * MS).can_pace(&ten_hertz()));
    assert!(!Spin::new(u64::MAX - 100 * MS + 1).can_pace(&ten_hertz()));
}

#[test]
fn a_stopped_spin_can_always_be_paced() {
    let mut spin = Spin::new(u64::MAX);
    spin.settle(None);
    assert!(spin.can_pace(&ten_hertz()));
    assert_eq!(spin.pace(&ten_hertz(), 0), Pace::Halt);
    assert_eq!(spin.next_call(), u64::MAX);
}

#[test]
fn freewheel_paces_at_the_end_of_time() {
    let mut spin = Spin::new(u64::MAX);
    assert_eq!(spin.pace(&SpinMode::Freewheel, u64::MAX), Pace::Invoke { wait: 0 });
    assert_eq!(spin.pace(&SpinMode::Ondemand(None), 0), Pace::Poll { wait: MS });
}
