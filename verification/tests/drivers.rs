use cth_0_1::drivers::at24c256::{
    memory_address_bytes, parse_v1, CalibError, MAGIC, VERSION_1_0, VERSION_1_1,
};
use cth_0_1::drivers::hc4067::{
    gain_table_entry, is_connected, rf_total, stage2_gain_x100, total_gain_x100, Hc4067,
    CONNECTED_CHANNELS,
};
use cth_0_1::drivers::mcp4922::{code_to_ma_frac, code_to_ua, command_bytes, Mcp4922, Zener};

fn record(version: u16, dac_z1: u16, dac_z2: u16, mux_z1: u8, mux_z2: u8) -> [u8; 32] {
    let mut b = [0u8; 32];
    b[0..4].copy_from_slice(&MAGIC.to_le_bytes());
    b[4..6].copy_from_slice(&version.to_le_bytes());
    b[6..14].copy_from_slice(&1_725_029_869u64.to_le_bytes());
    b[14..16].copy_from_slice(&(-52i16).to_le_bytes());
    b[16..18].copy_from_slice(&1000u16.to_le_bytes());
    b[18..20].copy_from_slice(&dac_z1.to_le_bytes());
    b[20..24].copy_from_slice(&3_510u32.to_le_bytes());
    b[24..26].copy_from_slice(&dac_z2.to_le_bytes());
    b[26..30].copy_from_slice(&3_620u32.to_le_bytes());
    b[30] = mux_z1;
    b[31] = mux_z2;
    b
}

#[test]
fn parses_a_valid_record() {
    let b = record(VERSION_1_1, 2850, 2892, 5, 14);
    let r = parse_v1(&b).expect("valid record");
    assert_eq!(r.version, VERSION_1_1);
    assert_eq!(r.timestamp_utc, 1_725_029_869);
    assert_eq!(r.temp_c_x10, -52);
    assert_eq!(r.rsense_ohms, 1000);
    assert_eq!(r.dac_z1, 2850);
    assert_eq!(r.dac_z2, 2892);
    assert_eq!(r.shannon_z1_mb, 3510);
    assert_eq!(r.shannon_z2_mb, 3620);
    assert_eq!(r.mux_z1, 5);
    assert_eq!(r.mux_z2, 14);
    assert!(parse_v1(&record(VERSION_1_0, 0, 4095, 0, 0)).is_ok());
}

#[test]
fn short_buffer_is_invalid() {
    let b = record(VERSION_1_1, 1, 1, 0, 0);
    assert_eq!(parse_v1(&b[..31]).unwrap_err(), CalibError::Invalid);
    assert_eq!(parse_v1(&[]).unwrap_err(), CalibError::Invalid);
}

#[test]
fn wrong_magic_is_reported() {
    let mut b = record(VERSION_1_1, 1, 1, 0, 0);
    b[0] = 0xFF;
    let expected = u32::from_le_bytes([0xFF, b[1], b[2], b[3]]);
    assert_eq!(parse_v1(&b).unwrap_err(), CalibError::BadMagic(expected));
    assert_eq!(parse_v1(&[0xFFu8; 32]).unwrap_err(), CalibError::BadMagic(0xFFFF_FFFF));
}

#[test]
fn unknown_version_is_reported() {
    let b = record(0x0200, 1, 1, 0, 0);
    assert_eq!(parse_v1(&b).unwrap_err(), CalibError::UnknownVersion(0x0200));
}

#[test]
fn out_of_range_fields_are_invalid() {
    assert_eq!(parse_v1(&record(VERSION_1_1, 4096, 1, 0, 0)).unwrap_err(), CalibError::Invalid);
    assert_eq!(parse_v1(&record(VERSION_1_1, 1, 4096, 0, 0)).unwrap_err(), CalibError::Invalid);
    assert_eq!(parse_v1(&record(VERSION_1_1, 1, 1, 4, 0)).unwrap_err(), CalibError::Invalid);
    assert_eq!(parse_v1(&record(VERSION_1_1, 1, 1, 0, 16)).unwrap_err(), CalibError::Invalid);
}

#[test]
fn address_bytes_are_big_endian() {
    assert_eq!(memory_address_bytes(0x7000), [0x70, 0x00]);
    assert_eq!(memory_address_bytes(0x1234), [0x12, 0x34]);
}

#[test]
fn gain_table_and_connected_channels_agree() {
    for ch in 0u8..=20 {
        assert_eq!(is_connected(ch), CONNECTED_CHANNELS.contains(&ch), "ch {ch}");
        assert_eq!(is_connected(ch), gain_table_entry(ch).is_some());
        assert_eq!(is_connected(ch), rf_total(ch).is_some());
    }
}

#[test]
fn gains_match_the_formulas() {
    assert_eq!(rf_total(0), Some(2000));
    assert_eq!(rf_total(14), Some(8800));
    assert_eq!(rf_total(4), None);
    assert_eq!(rf_total(200), None);
    assert_eq!(stage2_gain_x100(0), Some(425)); // 2000*100/470
    assert_eq!(stage2_gain_x100(14), Some(1872)); // 8800*100/470
    assert_eq!(total_gain_x100(0), Some(21675)); // 510*425/10
    assert_eq!(total_gain_x100(3), Some(32538)); // 3000 -> 638 -> 32538
    assert_eq!(total_gain_x100(9), None);
}

#[test]
fn mux_select_and_disable() {
    let mut m = Hc4067::new();
    assert_eq!(m.selected(), None);
    assert_eq!(m.select(11), Ok([true, true, false, true]));
    assert_eq!(m.selected(), Some(11));
    assert_eq!(m.select(12), Err(12));
    assert_eq!(m.selected(), Some(11));
    assert_eq!(m.select(0), Ok([false, false, false, false]));
    m.disable();
    assert_eq!(m.selected(), None);
}

#[test]
fn dac_conversions() {
    assert_eq!(code_to_ua(0), 0);
    assert_eq!(code_to_ua(1638), 999);
    assert_eq!(code_to_ua(4095), 2499);
    assert_eq!(code_to_ma_frac(4095), (2, 49));
    assert_eq!(code_to_ma_frac(1638), (0, 99));
}

#[test]
fn dac_state_and_commands() {
    let mut d = Mcp4922::new();
    assert_eq!(d.code(Zener::Z1), 0);
    assert_eq!(d.set(Zener::Z1, 2004), 0x3000 | 2004);
    assert_eq!(d.set(Zener::Z2, 5000), 0xB000 | 4095);
    assert_eq!(d.code(Zener::Z1), 2004);
    assert_eq!(d.code(Zener::Z2), 4095);
    assert_eq!(d.current_ua(Zener::Z2), 2499);
    assert_eq!(d.shutdown(), [0x3000, 0xB000]);
    assert_eq!(d.code(Zener::Z1), 0);
    assert_eq!(d.code(Zener::Z2), 0);
    assert_eq!(command_bytes(0xB7D4), [0xB7, 0xD4]);
}
