//! AT24C256 32 KB I2C EEPROM: the calibration record and its byte layout.
//!
//! Device address 0x57 (A2A1A0 = 111), 2-byte memory addresses. The bus is
//! shared with the OLED, so reading is done by the caller's I2C code; this
//! module holds the record format and the address encoding.
use vstd::prelude::*;

use crate::drivers::hc4067::{gain_table, is_connected};

verus! {

/// I2C device address.
pub const DEV_ADDR: u8 = 0x57;

/// Address of the (latest) calibration record.
pub const CALIB_ADDR: u16 = 0x0000;

/// Address of the genesis message.
pub const GENESIS_ADDR: u16 = 0x7000;

/// "QRNG" in ASCII, read big-endian: 0x51524E47.
pub const MAGIC: u32 = 0x5152_4E47;

/// Record version 1.0.
pub const VERSION_1_0: u16 = 0x0100;

/// Record version 1.1.
pub const VERSION_1_1: u16 = 0x0101;

/// Length of a v1 record in bytes.
pub const RECORD_LEN: usize = 32;

/// Why a calibration record was not accepted.
#[derive(Debug, Clone, Copy, PartialEq, Eq, Structural)]
pub enum CalibError {
    /// The I2C read failed: no chip, a stuck bus or a cable problem.
    Bus,
    /// The magic did not match: there is no record at this address.
    BadMagic(u32),
    /// The magic matched but the version is unknown.
    UnknownVersion(u16),
    /// A field is out of range (empty mux channel, DAC code too large...),
    /// or the record is too short.
    Invalid,
}

/// A v1 calibration record (32 bytes, little-endian, packed).
#[derive(Debug, Clone, Copy)]
pub struct CalibV1 {
    pub version: u16,
    /// UNIX epoch of the calibration, taken from the host.
    pub timestamp_utc: u64,
    /// Temperature at calibration, times ten (DS18B20).
    pub temp_c_x10: i16,
    pub rsense_ohms: u16,
    /// DAC code for Z1.
    pub dac_z1: u16,
    /// DAC code for Z2.
    pub dac_z2: u16,
    /// Mux gain channel for Z1.
    pub mux_z1: u8,
    /// Mux gain channel for Z2.
    pub mux_z2: u8,
    /// Shannon entropy measured at calibration (millibit), for reference.
    pub shannon_z1_mb: u32,
    pub shannon_z2_mb: u32,
}

/// Little-endian unsigned value of `n` bytes of `b` starting at `off`.
pub open spec fn le_value(b: Seq<u8>, off: int, n: nat) -> int
    decreases n,
{
    if n == 0 {
        0
    } else {
        b[off] + 256 * le_value(b, off + 1, (n - 1) as nat)
    }
}

/// Two's-complement reading of a 16-bit pattern.
pub open spec fn as_i16(x: int) -> int {
    if x < 0x8000 {
        x
    } else {
        x - 0x10000
    }
}

/// The record's fields decoded at the v1 offsets:
///   0..4 magic, 4..6 version, 6..14 timestamp_utc, 14..16 temp_c_x10,
///   16..18 rsense_ohms, 18..20 dac_z1, 20..24 shannon_z1_mb, 24..26 dac_z2,
///   26..30 shannon_z2_mb, 30 mux_z1, 31 mux_z2.
pub open spec fn decoded_fields(b: Seq<u8>) -> CalibV1 {
    CalibV1 {
        version: le_value(b, 4, 2) as u16,
        timestamp_utc: le_value(b, 6, 8) as u64,
        temp_c_x10: as_i16(le_value(b, 14, 2)) as i16,
        rsense_ohms: le_value(b, 16, 2) as u16,
        dac_z1: le_value(b, 18, 2) as u16,
        shannon_z1_mb: le_value(b, 20, 4) as u32,
        dac_z2: le_value(b, 24, 2) as u16,
        shannon_z2_mb: le_value(b, 26, 4) as u32,
        mux_z1: b[30],
        mux_z2: b[31],
    }
}

/// Whether a decoded record's fields make sense: 12-bit DAC codes and mux
/// channels with a resistor fitted.
pub open spec fn plausible(rec: CalibV1) -> bool {
    &&& rec.dac_z1 <= 4095
    &&& rec.dac_z2 <= 4095
    &&& rec.mux_z1 < 16 && gain_table(rec.mux_z1 as int) is Some
    &&& rec.mux_z2 < 16 && gain_table(rec.mux_z2 as int) is Some
}

/// The result of parsing `b` as a v1 record.
pub open spec fn parse_v1_spec(b: Seq<u8>) -> Result<CalibV1, CalibError> {
    if b.len() < RECORD_LEN {
        Err(CalibError::Invalid)
    } else if le_value(b, 0, 4) != MAGIC {
        Err(CalibError::BadMagic(le_value(b, 0, 4) as u32))
    } else if le_value(b, 4, 2) != VERSION_1_0 && le_value(b, 4, 2) != VERSION_1_1 {
        Err(CalibError::UnknownVersion(le_value(b, 4, 2) as u16))
    } else if !plausible(decoded_fields(b)) {
        Err(CalibError::Invalid)
    } else {
        Ok(decoded_fields(b))
    }
}

fn u16_le(b: &[u8]) -> (v: u16)
    requires
        b@.len() >= 2,
    ensures
        v == le_value(b@, 0, 2),
{
    proof {
        reveal_with_fuel(le_value, 3);
    }
    b[0] as u16 + (b[1] as u16) * 256
}

fn u32_le(b: &[u8]) -> (v: u32)
    requires
        b@.len() >= 4,
    ensures
        v == le_value(b@, 0, 4),
{
    proof {
        reveal_with_fuel(le_value, 5);
    }
    b[0] as u32 + (b[1] as u32) * 0x100 + (b[2] as u32) * 0x1_0000 + (b[3] as u32) * 0x100_0000
}

fn u64_le(b: &[u8]) -> (v: u64)
    requires
        b@.len() >= 8,
    ensures
        v == le_value(b@, 0, 8),
{
    proof {
        reveal_with_fuel(le_value, 9);
    }
    b[0] as u64 + (b[1] as u64) * 0x100 + (b[2] as u64) * 0x1_0000 + (b[3] as u64) * 0x100_0000
        + (b[4] as u64) * 0x1_0000_0000 + (b[5] as u64) * 0x100_0000_0000 + (b[6] as u64)
        * 0x1_0000_0000_0000 + (b[7] as u64) * 0x100_0000_0000_0000
}

proof fn lemma_le_shift(b: Seq<u8>, lo: int, hi: int, off: int, n: nat)
    requires
        0 <= lo <= hi <= b.len(),
        0 <= off,
        off + n <= hi - lo,
    ensures
        le_value(b.subrange(lo, hi), off, n) == le_value(b, lo + off, n),
    decreases n,
{
    if n > 0 {
        lemma_le_shift(b, lo, hi, off + 1, (n - 1) as nat);
    }
}

/// Turns raw bytes into a record.
///
/// Fields are read one by one at explicit little-endian offsets, so the
/// layout stays readable in the code. A short buffer is `Invalid`; a wrong
/// magic is `BadMagic`; a version other than 1.0 or 1.1 is `UnknownVersion`
/// (reading a 1.0 layout as 1.1 would silently shift fields); a DAC code
/// above 12 bits or a mux channel without a resistor is `Invalid`.
pub fn parse_v1(buf: &[u8]) -> (r: Result<CalibV1, CalibError>)
    ensures
        r == parse_v1_spec(buf@),
{
    if buf.len() < RECORD_LEN {
        return Err(CalibError::Invalid);
    }
    let b = buf;
    proof {
        lemma_le_shift(b@, 0, 4, 0, 4);
        lemma_le_shift(b@, 4, 6, 0, 2);
        lemma_le_shift(b@, 6, 14, 0, 8);
        lemma_le_shift(b@, 14, 16, 0, 2);
        lemma_le_shift(b@, 16, 18, 0, 2);
        lemma_le_shift(b@, 18, 20, 0, 2);
        lemma_le_shift(b@, 20, 24, 0, 4);
        lemma_le_shift(b@, 24, 26, 0, 2);
        lemma_le_shift(b@, 26, 30, 0, 4);
    }

    let magic = u32_le(&buf[0..4]);
    if magic != MAGIC {
        return Err(CalibError::BadMagic(magic));
    }

    let version = u16_le(&buf[4..6]);
    if version != VERSION_1_0 && version != VERSION_1_1 {
        return Err(CalibError::UnknownVersion(version));
    }

    let temp_raw = u16_le(&buf[14..16]);
    let temp = temp_raw as i16;
    proof {
        assert(temp_raw < 0x8000 ==> temp_raw as i16 == temp_raw) by (bit_vector);
        assert(temp_raw >= 0x8000 ==> temp_raw as i16 == temp_raw - 0x10000) by (bit_vector);
    }
    let rec = CalibV1 {
        version,
        timestamp_utc: u64_le(&buf[6..14]),
        temp_c_x10: temp,
        rsense_ohms: u16_le(&buf[16..18]),
        dac_z1: u16_le(&buf[18..20]),
        shannon_z1_mb: u32_le(&buf[20..24]),
        dac_z2: u16_le(&buf[24..26]),
        shannon_z2_mb: u32_le(&buf[26..30]),
        mux_z1: buf[30],
        mux_z2: buf[31],
    };
    assert(rec == decoded_fields(b@));

    if rec.dac_z1 > 4095 || rec.dac_z2 > 4095 {
        return Err(CalibError::Invalid);
    }
    if !is_connected(rec.mux_z1) || !is_connected(rec.mux_z2) {
        return Err(CalibError::Invalid);
    }
    Ok(rec)
}

/// The two address bytes sent before a random read: high byte first.
pub fn memory_address_bytes(addr: u16) -> (a: [u8; 2])
    ensures
        a@ == seq![(addr / 256) as u8, (addr % 256) as u8],
{
    let a = [(addr >> 8) as u8, (addr & 0xFF) as u8];
    proof {
        assert(addr >> 8 == addr / 256) by (bit_vector);
        assert(addr & 0xFF == addr % 256) by (bit_vector);
    }
    a
}

} // verus!
