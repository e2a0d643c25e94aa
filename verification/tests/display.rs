use cth_0_1::entropy::health::{HealthTest, APT_CUTOFF, RCT_CUTOFF, STARTUP_SAMPLES};
use cth_0_1::ui::{
    channel_line, entropy_line, is_live, rate_line, status_line, total_line, view_of, ChannelLine,
    ChannelView, EntropyLine, OutMode, RateLine, Snapshot, StatusLine, TotalLine,
};

fn ok_view() -> ChannelView {
    ChannelView { state: 1, startup_left: 0, rct_run: 4, rct_cutoff: 7, apt_peak: 53, apt_cutoff: 84 }
}

fn snap(z1: ChannelView, z2: ChannelView, mode: OutMode, budget_x100: u16) -> Snapshot {
    Snapshot {
        z1,
        z2,
        h_per_byte_x10: 34,
        budget_x100,
        out_bps: 2700,
        total_bytes: 5 * 1024 * 1024,
        mode,
        seed_count: 9,
    }
}

#[test]
fn mode_names() {
    assert_eq!(OutMode::Raw.as_str(), "RAW");
    assert_eq!(OutMode::Drbg.as_str(), "DRBG");
}

#[test]
fn view_of_fresh_test_is_startup() {
    let h = HealthTest::new();
    let v = view_of(&h);
    assert_eq!(v.state, 0);
    assert_eq!(v.startup_left, STARTUP_SAMPLES);
    assert_eq!(v.rct_cutoff, RCT_CUTOFF);
    assert_eq!(v.apt_cutoff, APT_CUTOFF);
}

#[test]
fn view_of_failed_test() {
    let mut h = HealthTest::new();
    for _ in 0..RCT_CUTOFF {
        let _ = h.feed(6);
    }
    let v = view_of(&h);
    assert_eq!(v.state, 2);
    assert_eq!(v.rct_run, RCT_CUTOFF);
    assert_eq!(channel_line(&v), ChannelLine::Fail);
}

#[test]
fn channel_lines() {
    assert_eq!(
        channel_line(&ok_view()),
        ChannelLine::Margins { rct_run: 4, rct_cutoff: 7, apt_peak: 53, apt_cutoff: 84 }
    );
    let init = ChannelView { state: 0, startup_left: 17, ..ok_view() };
    assert_eq!(channel_line(&init), ChannelLine::Init { left: 17 });
}

#[test]
fn full_entropy_only_when_backed() {
    let s = snap(ok_view(), ok_view(), OutMode::Raw, 212);
    assert!(is_live(&s));
    assert_eq!(entropy_line(&s), EntropyLine::FullEntropy { h_int: 3, h_frac: 4 });
    let short = snap(ok_view(), ok_view(), OutMode::Raw, 150);
    assert_eq!(entropy_line(&short), EntropyLine::Partial { h_int: 3, h_frac: 4, percent: 75 });
    let drbg = snap(ok_view(), ok_view(), OutMode::Drbg, 212);
    assert_eq!(entropy_line(&drbg), EntropyLine::Csprng { h_int: 3, h_frac: 4 });
    let failing = snap(ok_view(), ChannelView { state: 2, ..ok_view() }, OutMode::Raw, 212);
    assert!(!is_live(&failing));
    assert_eq!(entropy_line(&failing), EntropyLine::NoOutput);
    assert_eq!(status_line(&failing), StatusLine::Suppressed);
    assert_eq!(status_line(&s), StatusLine::Seeds { count: 9 });
}

#[test]
fn rate_and_total_lines() {
    assert_eq!(rate_line(2750), RateLine::KiloPerSecond { whole: 2, tenth: 7 });
    assert_eq!(rate_line(999), RateLine::BytesPerSecond { bytes: 999 });
    assert_eq!(total_line(5 * 1024 * 1024 + 512 * 1024), TotalLine::Mega { whole: 5, tenth: 5 });
    assert_eq!(total_line(1023 * 1024), TotalLine::Kilo { kb: 1023 });
    assert_eq!(total_line(0), TotalLine::Kilo { kb: 0 });
}
