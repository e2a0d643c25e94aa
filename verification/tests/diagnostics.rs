use cth_0_1::diagnostics::{
    calibration_or_fallback, scaling, std_dev, write_header, write_sample, CalibSource, Scaling,
    StatsAccumulator, FALLBACK_DAC_Z1, FALLBACK_DAC_Z2, FRAME_LEN,
};
use cth_0_1::drivers::at24c256::CalibError;

#[test]
fn std_dev_of_running_sums() {
    assert_eq!(std_dev(0, 0, 0), 0);
    // samples 2,4,4,4,5,5,7,9: mean 5, E[x^2] = 29, var 4, std 2
    assert_eq!(std_dev(40, 232, 8), 2);
    // constant samples: no spread
    assert_eq!(std_dev(30, 300, 3), 0);
}

#[test]
fn accumulator_summarises_samples() {
    let mut a = StatsAccumulator::new();
    for r in [2u16, 4, 4, 4, 5, 5, 7, 9] {
        a.add(r);
    }
    assert_eq!(a.count(), 8);
    let s = a.finish(1234);
    assert_eq!(s.min, 2);
    assert_eq!(s.max, 9);
    assert_eq!(s.mean, 5);
    assert_eq!(s.std, 2);
    assert_eq!(s.nib[4], 3);
    assert_eq!(s.nib[5], 2);
    assert_eq!(s.elapsed_us, 1234);
    assert_eq!(s.span(), 7);
}

#[test]
fn empty_accumulator() {
    let s = StatsAccumulator::new().finish(0);
    assert_eq!(s.min, u16::MAX);
    assert_eq!(s.max, 0);
    assert_eq!(s.mean, 0);
    assert_eq!(s.std, 0);
    assert_eq!(s.span(), 0);
}

#[test]
fn scaling_verdicts() {
    assert_eq!(scaling(&[0, 5, 9]), Scaling::ZeroBase { top: 9 });
    assert_eq!(
        scaling(&[10, 15, 30]),
        Scaling::Ratio { base: 10, top: 30, ratio_x100: 300, scales: true }
    );
    assert_eq!(
        scaling(&[10, 12, 15]),
        Scaling::Ratio { base: 10, top: 15, ratio_x100: 150, scales: false }
    );
}

#[test]
fn calibration_fallback() {
    let (c, src) = calibration_or_fallback(Err(CalibError::Bus));
    assert_eq!(src, CalibSource::Fallback);
    assert_eq!(c.dac_z1, FALLBACK_DAC_Z1);
    assert_eq!(c.dac_z2, FALLBACK_DAC_Z2);
    assert_eq!(c.rsense_ohms, 1000);
    let (c2, src2) = calibration_or_fallback(Ok(c));
    assert_eq!(src2, CalibSource::Eeprom);
    assert_eq!(c2.dac_z1, FALLBACK_DAC_Z1);
}

#[test]
fn dump_frame_layout() {
    let mut frame = [0xEEu8; FRAME_LEN];
    write_header(&mut frame, 0x0102, 2, 7, 2004, 512, 0x0A0B0C0D);
    assert_eq!(&frame[0..4], b"CTH1");
    assert_eq!(&frame[4..6], &[0x02, 0x01]);
    assert_eq!(frame[6], 2);
    assert_eq!(frame[7], 7);
    assert_eq!(&frame[8..10], &2004u16.to_le_bytes());
    assert_eq!(&frame[10..12], &512u16.to_le_bytes());
    assert_eq!(&frame[12..16], &[0x0D, 0x0C, 0x0B, 0x0A]);
    assert_eq!(frame[16], 0xEE);
    write_sample(&mut frame, 3, 0x0FA1);
    assert_eq!(&frame[22..24], &[0xA1, 0x0F]);
    assert_eq!(frame[24], 0xEE);
}
