use cth_0_1::entropy::health::{
    FailReason, HealthState, HealthTest, APT_CUTOFF, APT_WINDOW, RCT_CUTOFF, STARTUP_SAMPLES,
};

fn drain_startup(h: &mut HealthTest) {
    // 0,1,2,...,15,0,1,... : no repeats in a row (RCT quiet), each value
    // W/16 = 32 times per window (APT quiet, cutoff 84).
    let mut i = 0u8;
    while !h.is_ok() {
        let s = h.feed(i % 16);
        i = i.wrapping_add(1);
        if let HealthState::Failed(_) = s {
            panic!("unexpected failure during start-up");
        }
    }
}

#[test]
fn startup_blocks_output_then_passes() {
    let mut h = HealthTest::new();
    assert!(matches!(h.state(), HealthState::Startup { .. }));
    drain_startup(&mut h);
    assert!(h.is_ok());
    assert!(h.total_samples >= STARTUP_SAMPLES as u64);
}

#[test]
fn rct_fires_at_cutoff() {
    let mut h = HealthTest::new();
    drain_startup(&mut h);
    let mut fired_at = None;
    for k in 1..=RCT_CUTOFF + 2 {
        if let HealthState::Failed(FailReason::Rct { run, .. }) = h.feed(9) {
            fired_at = Some((k, run));
            break;
        }
    }
    let (k, run) = fired_at.expect("RCT did not fire");
    assert_eq!(run, RCT_CUTOFF, "must fire at the cutoff");
    assert!(k <= RCT_CUTOFF, "fired too late: {k}");
}

#[test]
fn rct_does_not_fire_below_cutoff() {
    let mut h = HealthTest::new();
    drain_startup(&mut h);
    for _ in 0..RCT_CUTOFF - 1 {
        assert!(!matches!(h.feed(3), HealthState::Failed(_)));
    }
    assert!(!matches!(h.feed(4), HealthState::Failed(_)));
    for _ in 0..RCT_CUTOFF - 1 {
        assert!(!matches!(h.feed(3), HealthState::Failed(_)));
    }
    assert!(h.is_ok(), "no failure below the threshold");
}

#[test]
fn apt_fires_on_skewed_distribution() {
    let mut h = HealthTest::new();
    drain_startup(&mut h);
    let mut failed = None;
    for i in 0..APT_WINDOW * 2 {
        let s = if i % 2 == 0 { 5 } else { (i % 16) as u8 | 1 };
        let s = if s == 5 && i % 2 == 1 { 7 } else { s };
        if let HealthState::Failed(r) = h.feed(s) {
            failed = Some(r);
            break;
        }
    }
    match failed {
        Some(FailReason::Apt { count, .. }) => {
            assert_eq!(count, APT_CUTOFF, "APT must fire at the cutoff");
        }
        Some(FailReason::Rct { run, .. }) => {
            panic!("RCT fired where APT was expected (run={run})");
        }
        None => panic!("APT did not fire"),
    }
}

#[test]
fn uniform_stream_stays_healthy() {
    let mut h = HealthTest::new();
    drain_startup(&mut h);
    let mut x: u32 = 0x1234_5678;
    for _ in 0..200_000 {
        x = x.wrapping_mul(1_664_525).wrapping_add(1_013_904_223);
        let s = ((x >> 16) & 0x0F) as u8;
        if matches!(h.feed(s), HealthState::Failed(_)) {
            panic!("false alarm on a healthy stream (sample #{})", h.total_samples);
        }
    }
    assert!(h.is_ok());
}

#[test]
fn failure_latches_until_reset() {
    let mut h = HealthTest::new();
    drain_startup(&mut h);
    for _ in 0..RCT_CUTOFF {
        let _ = h.feed(1);
    }
    assert!(matches!(h.state(), HealthState::Failed(_)));
    for i in 0..1000u32 {
        assert!(matches!(h.feed((i % 16) as u8), HealthState::Failed(_)));
    }
    h.reset();
    assert!(matches!(h.state(), HealthState::Startup { .. }));
}

// ---- further cases ----

#[test]
fn fresh_test_reports_full_startup() {
    let h = HealthTest::new();
    assert_eq!(h.state(), HealthState::Startup { remaining: STARTUP_SAMPLES });
    assert!(!h.is_ok());
    let d = HealthTest::default();
    assert_eq!(d.state(), HealthState::Startup { remaining: STARTUP_SAMPLES });
}

#[test]
fn feed_counts_down_startup() {
    let mut h = HealthTest::new();
    assert_eq!(h.feed(0), HealthState::Startup { remaining: STARTUP_SAMPLES - 1 });
    assert_eq!(h.feed(1), HealthState::Startup { remaining: STARTUP_SAMPLES - 2 });
    assert_eq!(h.total_samples, 2);
}

#[test]
fn last_startup_sample_answers_zero_then_state_is_healthy() {
    let mut h = HealthTest::new();
    let mut last = HealthState::Healthy;
    for i in 0..STARTUP_SAMPLES {
        last = h.feed((i % 16) as u8);
    }
    assert_eq!(last, HealthState::Startup { remaining: 0 });
    assert_eq!(h.state(), HealthState::Healthy);
    assert_eq!(h.feed(3), HealthState::Healthy);
}

#[test]
fn only_low_nibble_counts() {
    // 0x19 and 0x29 and 0x09 all have the nibble 9: a run of RCT_CUTOFF.
    let mut h = HealthTest::new();
    let vals = [0x09u8, 0x19, 0x29, 0x39, 0x49, 0x59, 0x69];
    let mut r = HealthState::Healthy;
    for v in vals {
        r = h.feed(v);
    }
    assert_eq!(r, HealthState::Failed(FailReason::Rct { value: 9, run: RCT_CUTOFF }));
}

#[test]
fn rct_failure_during_startup_is_reported() {
    let mut h = HealthTest::new();
    for _ in 0..RCT_CUTOFF - 1 {
        assert!(matches!(h.feed(2), HealthState::Startup { .. }));
    }
    assert_eq!(h.feed(2), HealthState::Failed(FailReason::Rct { value: 2, run: RCT_CUTOFF }));
    assert_eq!(h.rct_max_run, RCT_CUTOFF);
    // latched: counters stop
    let before = h.total_samples;
    let _ = h.feed(5);
    assert_eq!(h.total_samples, before);
}

#[test]
fn max_counters_track_peaks() {
    let mut h = HealthTest::new();
    for v in [4u8, 4, 4, 1] {
        let _ = h.feed(v);
    }
    assert_eq!(h.rct_max_run, 3);
    // APT reference is 4; seen 3 times in the window so far.
    assert_eq!(h.apt_max_count, 3);
}

#[test]
fn rct_needs_seven_in_a_row_not_seven_in_total() {
    let mut h = HealthTest::new();
    // seven 5s in total, never seven in a row
    for v in [5u8, 5, 5, 5, 5, 5, 6, 5] {
        assert!(!matches!(h.feed(v), HealthState::Failed(_)));
    }
}

#[test]
fn apt_counts_within_one_window_only() {
    // 83 hits of the reference per window never fail; windows restart.
    let mut h = HealthTest::new();
    for _w in 0..3 {
        for i in 0..APT_WINDOW as u32 {
            let s = if i < 2 * 83 && i % 2 == 0 { 5u8 } else { ((i % 14) as u8 + 6) % 16 };
            let s = if s == 5 && !(i < 2 * 83 && i % 2 == 0) { 4 } else { s };
            assert!(!matches!(h.feed(s), HealthState::Failed(FailReason::Apt { .. })), "i={i}");
        }
    }
}
