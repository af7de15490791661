//! Behaviour of the gain parameter and its smoothing ramp.

use react_gain::param::{GainParameter, GainTransaction, WriteOrigin, MAX_AMP_MICRO, MIN_AMP_MICRO};

#[test]
fn new_parameter_is_unity_and_quiet() {
    let mut p = GainParameter::new();
    assert_eq!(p.current_value(), MAX_AMP_MICRO);
    assert_eq!(p.smoothed_value(), MAX_AMP_MICRO);
    assert!(!p.consume_if_dirty());
}

#[test]
fn ramp_reaches_target_in_exactly_the_window() {
    let mut p = GainParameter::new();
    p.activate(1000); // 40 ms at 1 kHz: a 40-sample ramp
    p.write(500_000, WriteOrigin::Ui);
    let mut last = p.smoothed_value();
    for step in 1..=40 {
        let v = p.advance_one_sample();
        assert!(v <= last, "downward ramp must not rise at step {step}");
        if step < 40 {
            assert_ne!(v, 500_000, "target reached early at step {step}");
        }
        last = v;
    }
    assert_eq!(last, 500_000);
    // Once the window has elapsed, every further call returns the target.
    assert_eq!(p.advance_one_sample(), 500_000);
    assert_eq!(p.advance_one_sample(), 500_000);
}

#[test]
fn ramp_steps_are_exact_linear_interpolation() {
    let mut p = GainParameter::new();
    p.activate(1000);
    p.write(500_000, WriteOrigin::Ui);
    // 1_000_000 - 500_000 * k / 40, truncated.
    assert_eq!(p.advance_one_sample(), 987_500);
    assert_eq!(p.advance_one_sample(), 975_000);
    assert_eq!(p.advance_one_sample(), 962_500);
}

#[test]
fn ramp_length_follows_sample_rate() {
    let mut p = GainParameter::new();
    p.activate(48_000); // 40 ms at 48 kHz: 1920 samples
    p.write(500_000, WriteOrigin::Ui);
    for _ in 0..1919 {
        let v = p.advance_one_sample();
        assert!(v > 500_000);
    }
    assert_eq!(p.advance_one_sample(), 500_000);
}

#[test]
fn restarted_ramp_rebases_from_interpolated_value() {
    let mut p = GainParameter::new();
    p.activate(1000);
    p.write(0, WriteOrigin::Ui); // clamps to the minimum, 1_000
    for _ in 0..20 {
        p.advance_one_sample();
    }
    // Halfway down: 1_000_000 - 999_000 * 20 / 40.
    assert_eq!(p.smoothed_value(), 500_500);
    p.write(MAX_AMP_MICRO, WriteOrigin::Ui);
    // The new ramp starts from 500_500, not from the abandoned target.
    assert_eq!(p.advance_one_sample(), 500_500 + 499_500 / 40);
    for _ in 0..40 {
        p.advance_one_sample();
    }
    assert_eq!(p.smoothed_value(), MAX_AMP_MICRO);
}

#[test]
fn write_clamps_above_the_range() {
    let mut p = GainParameter::new();
    p.write(10_000_000, WriteOrigin::Ui); // the wire value 10.0 when unity is the maximum
    assert_eq!(p.current_value(), MAX_AMP_MICRO);
}

#[test]
fn write_clamps_below_the_range() {
    let mut p = GainParameter::new();
    p.write(-5, WriteOrigin::Ui);
    assert_eq!(p.current_value(), MIN_AMP_MICRO);
}

#[test]
fn rapid_writes_coalesce_into_one_notification() {
    let mut p = GainParameter::new();
    p.write(300_000, WriteOrigin::Ui);
    p.write(700_000, WriteOrigin::HostAutomation);
    assert!(p.consume_if_dirty());
    assert!(!p.consume_if_dirty());
}

#[test]
fn transaction_ending_last_wins() {
    let mut p = GainParameter::new();
    let mut ui = GainTransaction::begin();
    let mut host = GainTransaction::begin();
    ui.set_value(300_000);
    host.set_value(800_000);
    host.end(&mut p);
    ui.end(&mut p);
    assert_eq!(p.current_value(), 300_000);
    // The following audio block settles on the last committed value.
    for _ in 0..50 {
        p.advance_one_sample();
    }
    assert_eq!(p.smoothed_value(), 300_000);
}

#[test]
fn empty_transaction_changes_nothing() {
    let mut p = GainParameter::new();
    p.write(400_000, WriteOrigin::Ui);
    assert!(p.consume_if_dirty());
    let tx = GainTransaction::begin();
    tx.end(&mut p);
    assert_eq!(p.current_value(), 400_000);
    assert!(!p.consume_if_dirty());
}

#[test]
fn advance_block_matches_single_steps() {
    let mut a = GainParameter::new();
    let mut b = GainParameter::new();
    a.activate(1000);
    b.activate(1000);
    a.write(250_000, WriteOrigin::Ui);
    b.write(250_000, WriteOrigin::Ui);
    let gains = a.advance_block(64);
    assert_eq!(gains.len(), 64);
    for (k, g) in gains.iter().enumerate() {
        let v = b.advance_one_sample();
        assert_eq!(*g, v, "block gain differs at sample {k}");
    }
    assert_eq!(gains[63], 250_000);
}
