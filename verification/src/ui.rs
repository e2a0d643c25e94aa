//! What the 128x64 OLED says: the health of each channel against its
//! thresholds, the min-entropy assumption, the measured output rate, the
//! total output and the output mode.
//!
//! This module decides WHAT each line says; drawing the glyphs is done by
//! the firmware. The screen only states what it can stand behind: with a
//! failing or starting channel no entropy claim is made, and the full
//! entropy claim (8.00 bit/byte) needs RAW mode and a budget of at least 2x.
use vstd::prelude::*;

use crate::entropy::health::{
    HealthModel, HealthState, HealthTest, APT_CUTOFF, RCT_CUTOFF,
};

verus! {

/// What the device hands out.
#[derive(Debug, Copy, Clone, PartialEq, Eq, Structural)]
pub enum OutMode {
    /// The conditioner's output directly: every bit rests on measured
    /// physical entropy; slow.
    Raw,
    /// HMAC_DRBG output: fast and cryptographically strong, but a
    /// deterministic expansion.
    Drbg,
}

impl OutMode {
    /// The mode's name on screen.
    pub fn as_str(&self) -> (s: &'static str)
        ensures
            s@ == (match self {
                OutMode::Raw => "RAW"@,
                OutMode::Drbg => "DRBG"@,
            }),
    {
        match self {
            OutMode::Raw => "RAW",
            OutMode::Drbg => "DRBG",
        }
    }
}

/// Display state code of a starting channel.
pub const STATE_STARTUP: u8 = 0;

/// Display state code of a healthy channel.
pub const STATE_OK: u8 = 1;

/// Display state code of a failed channel.
pub const STATE_FAILED: u8 = 2;

/// The health summary of one channel as shown on screen.
pub struct ChannelView {
    /// 0 = start-up, 1 = ok, 2 = failure
    pub state: u8,
    /// Start-up samples still to pass.
    pub startup_left: u32,
    /// Longest run of equal samples / its cutoff.
    pub rct_run: u32,
    pub rct_cutoff: u32,
    /// APT peak / its cutoff.
    pub apt_peak: u16,
    pub apt_cutoff: u16,
}

/// The screen summary of a health test in state `m`.
pub open spec fn channel_view_of(m: HealthModel) -> ChannelView {
    let (state, startup_left) = match m.report() {
        HealthState::Startup { remaining } => (STATE_STARTUP, remaining),
        HealthState::Healthy => (STATE_OK, 0u32),
        HealthState::Failed(_) => (STATE_FAILED, 0u32),
    };
    ChannelView {
        state,
        startup_left,
        rct_run: m.rct_max_run,
        rct_cutoff: RCT_CUTOFF,
        apt_peak: m.apt_max_count,
        apt_cutoff: APT_CUTOFF,
    }
}

/// The screen summary of a channel's health test.
pub fn view_of(h: &HealthTest) -> (v: ChannelView)
    ensures
        v == channel_view_of(h@),
{
    let (state, startup_left) = match h.state() {
        HealthState::Startup { remaining } => (STATE_STARTUP, remaining),
        HealthState::Healthy => (STATE_OK, 0u32),
        HealthState::Failed(_) => (STATE_FAILED, 0u32),
    };
    ChannelView {
        state,
        startup_left,
        rct_run: h.rct_max_run(),
        rct_cutoff: RCT_CUTOFF,
        apt_peak: h.apt_max_count(),
        apt_cutoff: APT_CUTOFF,
    }
}

/// The smallest conditioner budget margin, times 100, for which the output
/// counts as full entropy (SP 800-90C: h_in >= 2n for a vetted conditioning
/// function).
pub const FULL_ENTROPY_BUDGET_X100: u16 = 200;

/// Everything the screen shows.
pub struct Snapshot {
    pub z1: ChannelView,
    pub z2: ChannelView,
    /// Min-entropy of the conditioner INPUT per BYTE, times ten
    /// (34 = 3.4 bit/byte).
    pub h_per_byte_x10: u16,
    /// Conditioner entropy budget margin times 100 (212 = 2.12x).
    pub budget_x100: u16,
    /// MEASURED output rate (bytes/second).
    pub out_bps: u32,
    /// Total bytes handed out.
    pub total_bytes: u64,
    pub mode: OutMode,
    /// Number of DRBG seedings.
    pub seed_count: u64,
}

/// Whether both channels are healthy, so that output flows.
pub open spec fn live(s: Snapshot) -> bool {
    s.z1.state == STATE_OK && s.z2.state == STATE_OK
}

/// The channel line: state and the margin to the thresholds.
#[derive(Debug, Copy, Clone, PartialEq, Eq, Structural)]
pub enum ChannelLine {
    /// "INIT n": start-up samples left.
    Init { left: u32 },
    /// "OK  R<run>/<cutoff> A<peak>/<cutoff>": worst MEASURED value, then the
    /// threshold, so the margin is seen at a glance.
    Margins { rct_run: u32, rct_cutoff: u32, apt_peak: u16, apt_cutoff: u16 },
    /// "** FAIL **".
    Fail,
}

/// The entropy line: measured source entropy -> output entropy.
#[derive(Debug, Copy, Clone, PartialEq, Eq, Structural)]
pub enum EntropyLine {
    /// "-- no output --": a channel is not healthy, so nothing is claimed.
    NoOutput,
    /// "h.h -> 8.00 b/B": RAW output with a budget of at least 2x is full
    /// entropy.
    FullEntropy { h_int: u16, h_frac: u16 },
    /// "h.h -> partial p%": RAW output with a short budget; 8.00 is NOT
    /// written.
    Partial { h_int: u16, h_frac: u16, percent: u16 },
    /// "h.h -> 256b CSPRNG": DRBG output claims cryptographic strength, not
    /// entropy density.
    Csprng { h_int: u16, h_frac: u16 },
}

/// The rate line.
#[derive(Debug, Copy, Clone, PartialEq, Eq, Structural)]
pub enum RateLine {
    /// "w.t KB/s"
    KiloPerSecond { whole: u32, tenth: u32 },
    /// "n B/s"
    BytesPerSecond { bytes: u32 },
}

/// The total line.
#[derive(Debug, Copy, Clone, PartialEq, Eq, Structural)]
pub enum TotalLine {
    /// "w.t MB"
    Mega { whole: u64, tenth: u64 },
    /// "n KB"
    Kilo { kb: u64 },
}

/// The bottom line.
#[derive(Debug, Copy, Clone, PartialEq, Eq, Structural)]
pub enum StatusLine {
    /// "seeds:n"
    Seeds { count: u64 },
    /// "OUTPUT SUPPRESSED"
    Suppressed,
}

/// Whether both channels of a snapshot are healthy (header "LIVE", else
/// "HOLD").
pub fn is_live(s: &Snapshot) -> (b: bool)
    ensures
        b == live(*s),
        b == (s.z1.state == STATE_OK && s.z2.state == STATE_OK),
{
    s.z1.state == STATE_OK && s.z2.state == STATE_OK
}

/// The channel line of a channel summary.
pub fn channel_line(v: &ChannelView) -> (l: ChannelLine)
    ensures
        v.state == STATE_STARTUP ==> l == (ChannelLine::Init { left: v.startup_left }),
        v.state == STATE_OK ==> l == (ChannelLine::Margins {
            rct_run: v.rct_run,
            rct_cutoff: v.rct_cutoff,
            apt_peak: v.apt_peak,
            apt_cutoff: v.apt_cutoff,
        }),
        v.state != STATE_STARTUP && v.state != STATE_OK ==> l == ChannelLine::Fail,
{
    match v.state {
        0 => ChannelLine::Init { left: v.startup_left },
        1 => ChannelLine::Margins {
            rct_run: v.rct_run,
            rct_cutoff: v.rct_cutoff,
            apt_peak: v.apt_peak,
            apt_cutoff: v.apt_cutoff,
        },
        _ => ChannelLine::Fail,
    }
}

/// The entropy line of a snapshot.
pub open spec fn entropy_line_of(s: Snapshot) -> EntropyLine {
    let h_int = (s.h_per_byte_x10 / 10) as u16;
    let h_frac = (s.h_per_byte_x10 % 10) as u16;
    if !live(s) {
        EntropyLine::NoOutput
    } else {
        match s.mode {
            OutMode::Raw => if s.budget_x100 >= FULL_ENTROPY_BUDGET_X100 {
                EntropyLine::FullEntropy { h_int, h_frac }
            } else {
                EntropyLine::Partial { h_int, h_frac, percent: (s.budget_x100 / 2) as u16 }
            },
            OutMode::Drbg => EntropyLine::Csprng { h_int, h_frac },
        }
    }
}

/// The entropy line: no claim without healthy channels; full entropy only
/// for RAW with a budget of at least 2x; DRBG claims a CSPRNG.
pub fn entropy_line(s: &Snapshot) -> (l: EntropyLine)
    ensures
        l == entropy_line_of(*s),
        s.z1.state != STATE_OK || s.z2.state != STATE_OK ==> l == EntropyLine::NoOutput,
        l is FullEntropy ==> s.z1.state == STATE_OK && s.z2.state == STATE_OK && s.mode
            == OutMode::Raw && s.budget_x100 >= FULL_ENTROPY_BUDGET_X100,
{
    let h_int = s.h_per_byte_x10 / 10;
    let h_frac = s.h_per_byte_x10 % 10;
    if !is_live(s) {
        EntropyLine::NoOutput
    } else {
        match s.mode {
            OutMode::Raw => if s.budget_x100 >= FULL_ENTROPY_BUDGET_X100 {
                EntropyLine::FullEntropy { h_int, h_frac }
            } else {
                EntropyLine::Partial { h_int, h_frac, percent: s.budget_x100 / 2 }
            },
            OutMode::Drbg => EntropyLine::Csprng { h_int, h_frac },
        }
    }
}

/// The screen never claims full entropy unless both channels are healthy,
/// the mode is RAW and the budget margin is at least 2.00; and it makes no
/// entropy claim at all while a channel is not healthy.
pub proof fn lemma_full_entropy_claim_is_backed(s: Snapshot)
    ensures
        entropy_line_of(s) is FullEntropy ==> live(s) && s.mode == OutMode::Raw && s.budget_x100
            >= FULL_ENTROPY_BUDGET_X100,
        !live(s) ==> entropy_line_of(s) == EntropyLine::NoOutput,
{
}

/// A failed or starting channel silences every claim: if either channel's
/// state is not ok, the screen is not live, makes no entropy claim and shows
/// that output is suppressed; full entropy is claimed only with both
/// channels ok, RAW mode and a budget of at least 2x.
pub proof fn lemma_unhealthy_channel_silences_claims(s: Snapshot)
    ensures
        s.z1.state != STATE_OK || s.z2.state != STATE_OK ==> {
            &&& !live(s)
            &&& entropy_line_of(s) == EntropyLine::NoOutput
        },
        entropy_line_of(s) is FullEntropy ==> s.z1.state == STATE_OK && s.z2.state == STATE_OK
            && s.mode == OutMode::Raw && s.budget_x100 >= FULL_ENTROPY_BUDGET_X100,
        live(s) <==> (s.z1.state == STATE_OK && s.z2.state == STATE_OK),
{
}

/// The rate line: "w.t KB/s" from 1000 B/s up, else "n B/s".
pub fn rate_line(out_bps: u32) -> (l: RateLine)
    ensures
        out_bps >= 1000 ==> l == (RateLine::KiloPerSecond {
            whole: out_bps / 1000,
            tenth: (out_bps % 1000) / 100,
        }),
        out_bps < 1000 ==> l == (RateLine::BytesPerSecond { bytes: out_bps }),
{
    if out_bps >= 1000 {
        RateLine::KiloPerSecond { whole: out_bps / 1000, tenth: (out_bps % 1000) / 100 }
    } else {
        RateLine::BytesPerSecond { bytes: out_bps }
    }
}

/// The total line: "w.t MB" from 1024 KB up, else "n KB" (KB = 1024 bytes).
pub fn total_line(total_bytes: u64) -> (l: TotalLine)
    ensures
        ({
            let kb = total_bytes / 1024;
            &&& kb >= 1024 ==> l == (TotalLine::Mega { whole: kb / 1024, tenth: ((kb % 1024) * 10 / 1024) as u64 })
            &&& kb < 1024 ==> l == (TotalLine::Kilo { kb })
        }),
{
    let kb = total_bytes / 1024;
    if kb >= 1024 {
        TotalLine::Mega { whole: kb / 1024, tenth: (kb % 1024) * 10 / 1024 }
    } else {
        TotalLine::Kilo { kb }
    }
}

/// The bottom line: the seed count while output flows, else a warning.
pub fn status_line(s: &Snapshot) -> (l: StatusLine)
    ensures
        live(*s) ==> l == (StatusLine::Seeds { count: s.seed_count }),
        !live(*s) ==> l == StatusLine::Suppressed,
        s.z1.state != STATE_OK || s.z2.state != STATE_OK ==> l == StatusLine::Suppressed,
        s.z1.state == STATE_OK && s.z2.state == STATE_OK ==> l == (StatusLine::Seeds {
            count: s.seed_count,
        }),
{
    if is_live(s) {
        StatusLine::Seeds { count: s.seed_count }
    } else {
        StatusLine::Suppressed
    }
}

} // verus!
