//! HC4067 16-channel analog mux: gain control of the second op-amp stage.
//!
//!   zener --> [stage 1: fixed x51.0] --> [stage 2: R_f / R_in] --> ADC
//!                                           ^
//!                        R_f = 2k0 (base) + resistor selected by the mux
//!
//! The mux picks a resistor in parallel with the feedback path; changing the
//! channel changes the gain. Channels without a resistor fitted are `None`
//! in the gain table, so the missing resistor cannot go unnoticed.
use vstd::prelude::*;

verus! {

/// Input resistor, the same for both zeners.
pub const R_IN_OHMS: u16 = 470;

/// Base feedback resistor (mux CH0 = bypass).
pub const R_F_BASE_OHMS: u16 = 2000;

/// Stage 1 gain times ten (fixed, the same for both zeners): 51.0x.
pub const STAGE1_GAIN_X10: u16 = 510;

/// Channels with a resistor fitted; the calibration sweep walks these.
pub const CONNECTED_CHANNELS: [u8; 9] = [0, 1, 2, 3, 5, 7, 10, 11, 14];

/// Channel -> extra feedback resistance in ohms; `None` = no resistor
/// fitted on that channel. Fitted: 0, 1, 2, 3, 5, 7, 10, 11, 14.
pub open spec fn gain_table(ch: int) -> Option<u16> {
    if ch == 0 {
        Some(0u16)
    } else if ch == 1 {
        Some(220u16)
    } else if ch == 2 {
        Some(470u16)
    } else if ch == 3 {
        Some(1000u16)
    } else if ch == 5 {
        Some(2200u16)
    } else if ch == 7 {
        Some(3300u16)
    } else if ch == 10 {
        Some(4700u16)
    } else if ch == 11 {
        Some(5100u16)
    } else if ch == 14 {
        Some(6800u16)
    } else {
        None
    }
}

/// The gain table entry of channel `ch` (`None` also for `ch >= 16`).
pub fn gain_table_entry(ch: u8) -> (e: Option<u16>)
    ensures
        e == gain_table(ch as int),
{
    match ch {
        0 => Some(0),
        1 => Some(220),
        2 => Some(470),
        3 => Some(1000),
        5 => Some(2200),
        7 => Some(3300),
        10 => Some(4700),
        11 => Some(5100),
        14 => Some(6800),
        _ => None,
    }
}

/// Whether channel `ch` has a resistor fitted.
pub fn is_connected(ch: u8) -> (b: bool)
    ensures
        b == (ch < 16 && gain_table(ch as int) is Some),
{
    ch < 16 && gain_table_entry(ch).is_some()
}

/// Total feedback resistance R_f in ohms, `None` for an empty channel.
pub fn rf_total(ch: u8) -> (r: Option<u16>)
    ensures
        r == (match gain_table(ch as int) {
            Some(extra) => Some((R_F_BASE_OHMS + extra) as u16),
            None => None,
        }),
{
    if ch >= 16 {
        return None;
    }
    match gain_table_entry(ch) {
        Some(extra) => Some(R_F_BASE_OHMS + extra),
        None => None,
    }
}

/// Stage 2 gain R_f / R_in times 100 (integer, rounded down), `None` for an
/// empty channel.
pub fn stage2_gain_x100(ch: u8) -> (g: Option<u32>)
    ensures
        g == (match gain_table(ch as int) {
            Some(extra) => Some((((R_F_BASE_OHMS + extra) * 100) / (R_IN_OHMS as int)) as u32),
            None => None,
        }),
        g matches Some(v) ==> v <= 1872,
{
    match rf_total(ch) {
        Some(rf) => Some((rf as u32 * 100) / R_IN_OHMS as u32),
        None => None,
    }
}

/// Total gain (stage 1 x stage 2) times 100, `None` for an empty channel.
pub fn total_gain_x100(ch: u8) -> (g: Option<u32>)
    ensures
        g == (match gain_table(ch as int) {
            Some(extra) => Some(
                ((STAGE1_GAIN_X10 * ((((R_F_BASE_OHMS + extra) * 100) / (R_IN_OHMS as int)))) / 10) as u32,
            ),
            None => None,
        }),
{
    let g = stage2_gain_x100(ch);
    match g {
        Some(g2) => {
            assert((STAGE1_GAIN_X10 as u32) * g2 <= 510 * 1872) by (nonlinear_arith)
                requires
                    g2 <= 1872,
                    STAGE1_GAIN_X10 == 510,
            ;
            Some((STAGE1_GAIN_X10 as u32 * g2) / 10)
        },
        None => None,
    }
}

/// `CONNECTED_CHANNELS` lists exactly the channels that `is_connected`
/// accepts, and every one of them has a gain.
pub proof fn lemma_connected_channels(ch: u8)
    ensures
        CONNECTED_CHANNELS@.contains(ch) <==> (ch < 16 && gain_table(ch as int) is Some),
{
    if ch < 16 && gain_table(ch as int) is Some {
        let i: int = if ch == 0 {
            0
        } else if ch == 1 {
            1
        } else if ch == 2 {
            2
        } else if ch == 3 {
            3
        } else if ch == 5 {
            4
        } else if ch == 7 {
            5
        } else if ch == 10 {
            6
        } else if ch == 11 {
            7
        } else {
            8
        };
        assert(CONNECTED_CHANNELS@[i] == ch);
    }
}

/// The four address lines S0..S3 (S0 least significant) for a channel.
pub open spec fn address_lines(ch: u8) -> Seq<bool> {
    seq![ch % 2 == 1, (ch / 2) % 2 == 1, (ch / 4) % 2 == 1, (ch / 8) % 2 == 1]
}

/// The channel number that address lines S0..S3 select (S0 least
/// significant).
pub open spec fn line_value(lines: Seq<bool>) -> int {
    (if lines[0] {
        1int
    } else {
        0
    }) + 2 * (if lines[1] {
        1int
    } else {
        0
    }) + 4 * (if lines[2] {
        1int
    } else {
        0
    }) + 8 * (if lines[3] {
        1int
    } else {
        0
    })
}

/// The address lines of a channel select that very channel: read as a
/// binary number with S0 least significant, they give the channel back.
pub proof fn lemma_address_lines_select_channel(ch: u8)
    requires
        ch < 16,
    ensures
        address_lines(ch).len() == 4,
        line_value(address_lines(ch)) == ch,
{
}

/// Selection state of an HC4067 (4 address lines and an inhibit line); the
/// pins themselves are driven by the caller.
pub struct Hc4067 {
    selected: Option<u8>,
}

impl View for Hc4067 {
    type V = Option<u8>;

    closed spec fn view(&self) -> Option<u8> {
        self.selected
    }
}

impl Hc4067 {
    /// A mux with all channels off (the caller holds INH high).
    pub fn new() -> (m: Self)
        ensures
            m@ is None,
    {
        Hc4067 { selected: None }
    }

    /// Selects a channel: on success returns the levels of S0..S3 to drive
    /// before pulling INH low; an empty channel is refused with its number
    /// and nothing changes.
    pub fn select(&mut self, ch: u8) -> (r: Result<[bool; 4], u8>)
        ensures
            (ch < 16 && gain_table(ch as int) is Some) ==> (r matches Ok(lines) && lines@
                == address_lines(ch) && final(self)@ == Some(ch)),
            r matches Ok(lines) ==> line_value(lines@) == ch,
            !(ch < 16 && gain_table(ch as int) is Some) ==> (r == Err::<[bool; 4], u8>(ch)
                && final(self)@ == old(self)@),
    {
        if !is_connected(ch) {
            return Err(ch);
        }
        let lines = [ch & 0b0001 != 0, ch & 0b0010 != 0, ch & 0b0100 != 0, ch & 0b1000 != 0];
        proof {
            assert((ch & 1u8 != 0) == (ch % 2 == 1)) by (bit_vector);
            assert((ch & 2u8 != 0) == ((ch / 2) % 2 == 1)) by (bit_vector);
            assert((ch & 4u8 != 0) == ((ch / 4) % 2 == 1)) by (bit_vector);
            assert((ch & 8u8 != 0) == ((ch / 8) % 2 == 1)) by (bit_vector);
        }
        self.selected = Some(ch);
        proof {
            assert(lines@ == address_lines(ch));
        }
        Ok(lines)
    }

    /// Disconnects all channels (the caller pulls INH high).
    pub fn disable(&mut self)
        ensures
            final(self)@ is None,
    {
        self.selected = None;
    }

    /// The selected channel, `None` while the mux is off.
    pub fn selected(&self) -> (s: Option<u8>)
        ensures
            s == self@,
    {
        self.selected
    }
}

} // verus!
