//! MCP4922 12-bit dual SPI DAC: sets the zener bias currents.
//!
//!   DAC --> op-amp (+)          I = V_DAC / R_sense
//!            op-amp (-) <-- R_sense
//!
//!   V_DAC = (code / 4096) * V_REF,  V_REF = 2.500 V,  R_sense = 1 kOhm
//!
//! The chip is WRITE-ONLY: its value cannot be read back, so the driver
//! keeps the codes it wrote (`z1` / `z2`) as the single source of truth.
use vstd::prelude::*;

verus! {

/// Reference voltage in mV.
pub const V_REF_MV: u32 = 2500;

/// Current sense resistor in ohms.
pub const R_SENSE_OHMS: u32 = 1000;

/// DAC full scale (12 bits).
pub const DAC_FULL_SCALE: u32 = 4096;

/// Largest DAC code.
pub const DAC_MAX_CODE: u16 = 4095;

/// Which zener / which DAC channel.
#[derive(Debug, Copy, Clone, PartialEq, Eq, Structural)]
pub enum Zener {
    /// DAC A -> zener 1 -> ADC1 / PA0
    Z1,
    /// DAC B -> zener 2 -> ADC2 / PA1
    Z2,
}

/// Bias current in microamperes for a DAC code:
/// I = code * 2500 / 4096 (R_sense = 1k, so mV = uA).
pub open spec fn ua_of(code: int) -> int {
    (code * V_REF_MV) / (DAC_FULL_SCALE as int)
}

/// Converts a DAC code to microamperes.
pub fn code_to_ua(code: u16) -> (ua: u32)
    ensures
        ua == ua_of(code as int),
{
    (code as u32 * V_REF_MV) / DAC_FULL_SCALE
}

/// (whole mA, hundredths of a mA), for display.
pub fn code_to_ma_frac(code: u16) -> (r: (u32, u32))
    ensures
        r.0 == ua_of(code as int) / 1000,
        r.1 == (ua_of(code as int) % 1000) / 10,
{
    let ua = code_to_ua(code);
    (ua / 1000, (ua % 1000) / 10)
}

/// The 16-bit command word that writes `code` to a channel:
/// b15 channel (0 = A, 1 = B), b14 unbuffered (0), b13 gain 1x (1),
/// b12 active (1), b11..b0 data.
pub open spec fn command_word(z: Zener, code: u16) -> u16 {
    match z {
        Zener::Z1 => (0x3000 + code) as u16,
        Zener::Z2 => (0xB000 + code) as u16,
    }
}

/// The code actually written for a requested code: clipped to 12 bits.
pub open spec fn clipped(code: u16) -> u16 {
    if code > DAC_MAX_CODE {
        DAC_MAX_CODE
    } else {
        code
    }
}

/// The two SPI bytes of a command word, high byte first.
pub fn command_bytes(cmd: u16) -> (b: [u8; 2])
    ensures
        b@ == seq![(cmd / 256) as u8, (cmd % 256) as u8],
{
    let b = [(cmd >> 8) as u8, (cmd & 0xFF) as u8];
    proof {
        assert(cmd >> 8 == cmd / 256) by (bit_vector);
        assert(cmd & 0xFF == cmd % 256) by (bit_vector);
    }
    b
}

/// The codes last written to the two channels of an MCP4922; the SPI
/// transfer of each command word is done by the caller.
pub struct Mcp4922 {
    z1: u16,
    z2: u16,
}

impl View for Mcp4922 {
    type V = (u16, u16);

    closed spec fn view(&self) -> (u16, u16) {
        (self.z1, self.z2)
    }
}

impl Mcp4922 {
    /// Both channels at 0: no current through the zeners at power-up. The
    /// caller writes the two commands of `shutdown()` to the chip.
    pub fn new() -> (d: Self)
        ensures
            d@ == (0u16, 0u16),
    {
        Mcp4922 { z1: 0, z2: 0 }
    }

    /// Sets a channel (0..4095; larger codes are clipped) and returns the
    /// command word to send.
    pub fn set(&mut self, z: Zener, code: u16) -> (cmd: u16)
        ensures
            cmd == command_word(z, clipped(code)),
            final(self)@ == (match z {
                Zener::Z1 => (clipped(code), old(self)@.1),
                Zener::Z2 => (old(self)@.0, clipped(code)),
            }),
    {
        let code = if code > DAC_MAX_CODE {
            DAC_MAX_CODE
        } else {
            code
        };
        match z {
            Zener::Z1 => {
                let cmd = 0x3000 | code;
                proof {
                    assert(code <= 4095 ==> 0x3000 | code == 0x3000 + code) by (bit_vector);
                }
                self.z1 = code;
                cmd
            },
            Zener::Z2 => {
                let cmd = 0xB000 | code;
                proof {
                    assert(code <= 4095 ==> 0xB000 | code == 0xB000 + code) by (bit_vector);
                }
                self.z2 = code;
                cmd
            },
        }
    }

    /// The last code written to a channel.
    pub fn code(&self, z: Zener) -> (c: u16)
        ensures
            c == (match z {
                Zener::Z1 => self@.0,
                Zener::Z2 => self@.1,
            }),
    {
        match z {
            Zener::Z1 => self.z1,
            Zener::Z2 => self.z2,
        }
    }

    /// The bias current of a channel's last code, in microamperes.
    pub fn current_ua(&self, z: Zener) -> (ua: u32)
        ensures
            ua == ua_of(
                match z {
                    Zener::Z1 => self@.0,
                    Zener::Z2 => self@.1,
                } as int,
            ),
    {
        code_to_ua(self.code(z))
    }

    /// Sets both channels to 0 (cuts the zener current) and returns the two
    /// command words to send, channel A first.
    pub fn shutdown(&mut self) -> (cmds: [u16; 2])
        ensures
            final(self)@ == (0u16, 0u16),
            cmds@ == seq![command_word(Zener::Z1, 0), command_word(Zener::Z2, 0)],
    {
        let a = self.set(Zener::Z1, 0);
        let b = self.set(Zener::Z2, 0);
        [a, b]
    }
}

} // verus!
