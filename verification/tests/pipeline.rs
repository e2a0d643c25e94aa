use cth_0_1::entropy::conditioner::BLOCK_IN;
use cth_0_1::entropy::health::{HealthState, STARTUP_SAMPLES};
use cth_0_1::pipeline::{Command, Emit, Pipeline};
use cth_0_1::ui::OutMode;

fn reading(i: u32, offset: u32) -> u16 {
    // distinct nibbles in a row, evenly spread
    (0x100 + ((i + offset) % 16)) as u16
}

fn run_until_emit(p: &mut Pipeline, out: &mut [u8], start: u32) -> (Emit, u32) {
    let mut i = start;
    loop {
        let e = p.on_samples(reading(i, 0), reading(i, 5), out);
        i += 1;
        if !matches!(e, Emit::Nothing) {
            return (e, i);
        }
        assert!(i < start + 100_000, "no output");
    }
}

#[test]
fn startup_suppresses_then_raw_block_flows() {
    let mut p = Pipeline::new();
    let mut out = [0u8; 256];
    for i in 0..STARTUP_SAMPLES {
        assert!(matches!(p.on_samples(reading(i, 0), reading(i, 5), &mut out), Emit::Nothing));
    }
    assert_eq!(p.suppressed(), STARTUP_SAMPLES as u64);
    let (e, _) = run_until_emit(&mut p, &mut out, STARTUP_SAMPLES);
    match e {
        Emit::Raw(block) => assert_eq!(block.len(), 32),
        _ => panic!("RAW mode must hand out a block"),
    }
    assert_eq!(p.conditioner().blocks_out, 1);
    assert_eq!(p.conditioner().bytes_in, BLOCK_IN as u64);
    p.on_written(32, true);
    p.on_written(32, false);
    assert_eq!(p.total_out(), 32);
    assert_eq!(p.dropped(), 32);
    p.on_window();
    assert_eq!(p.out_bps(), 32);
}

#[test]
fn drbg_mode_reseeds_and_fills_buffer() {
    let mut p = Pipeline::new();
    assert_eq!(p.on_command(b'd'), Command::SelectDrbg);
    assert_eq!(p.mode(), OutMode::Drbg);
    let mut out = [0u8; 256];
    let (e, _) = run_until_emit(&mut p, &mut out, 0);
    assert!(matches!(e, Emit::Drbg));
    assert!(out.iter().any(|&b| b != 0));
    assert_eq!(p.drbg().seed_count, 1);
    assert_eq!(p.drbg().bytes_out, 256);
}

#[test]
fn failure_suppresses_until_health_reset() {
    let mut p = Pipeline::new();
    let mut out = [0u8; 256];
    for _ in 0..10 {
        assert!(matches!(p.on_samples(0x0AB3, 0x0001, &mut out), Emit::Nothing));
    }
    assert!(matches!(p.health_z1().state(), HealthState::Failed(_)));
    assert_eq!(p.on_command(b's'), Command::Status);
    assert_eq!(p.on_command(b'x'), Command::Ignored);
    assert!(matches!(p.health_z1().state(), HealthState::Failed(_)));
    assert_eq!(p.on_command(b'h'), Command::ResetHealth);
    assert!(matches!(p.health_z1().state(), HealthState::Startup { .. }));
    assert_eq!(p.on_command(b'r'), Command::SelectRaw);
}
