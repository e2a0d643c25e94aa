//! The entropy pipeline's decisions, sample by sample:
//!
//!   ADC 12-bit -> low nibble -> health (PER CHANNEL, raw nibble)
//!     -> byte = (Z1_nibble << 4) | Z2_nibble -> conditioner
//!     -> RAW: the block itself | DRBG: reseed with the block, then generate
//!
//! Output flows only while BOTH channels are healthy. The firmware reads the
//! ADCs, writes what this module hands out and reports back whether the
//! host took it; host commands (r = RAW, d = DRBG, h = reset health,
//! s = status) are decided here too.
use vstd::prelude::*;

use crate::entropy::conditioner::{initial_model, Conditioner, ConditionerModel, BLOCK_OUT};
use crate::entropy::drbg::{bytes_of, DrbgModel, HmacDrbg, SEEDLEN};
use crate::entropy::health::{fresh_model, HealthModel, HealthState, HealthTest};
use crate::ui::OutMode;

verus! {

/// What one pair of samples produced for the host.
pub enum Emit {
    /// Nothing to send.
    Nothing,
    /// A conditioner block, sent as it is (RAW mode).
    Raw([u8; BLOCK_OUT]),
    /// DRBG output was written into the caller's buffer (DRBG mode).
    Drbg,
}

/// What one pair of samples produced, as a value.
pub enum Emitted {
    Nothing,
    Raw(Seq<u8>),
    Drbg(Seq<u8>),
}

/// What a host command asks for.
#[derive(Debug, Copy, Clone, PartialEq, Eq, Structural)]
pub enum Command {
    /// `r`: switch to RAW output.
    SelectRaw,
    /// `d`: switch to DRBG output.
    SelectDrbg,
    /// `h`: health tests were reset; the start-up test runs again.
    ResetHealth,
    /// `s`: print a status report.
    Status,
    /// Any other byte is ignored.
    Ignored,
}

/// The pipeline's state, as a value.
pub struct PipelineModel {
    pub h1: HealthModel,
    pub h2: HealthModel,
    pub cond: ConditionerModel,
    pub rng: DrbgModel,
    pub mode: OutMode,
    /// Bytes the host took.
    pub total_out: u64,
    /// Bytes the host did not take in time.
    pub dropped: u64,
    /// Sample pairs whose output was suppressed by the health tests.
    pub suppressed: u64,
    /// Bytes delivered in the current one-second window.
    pub win_bytes: u32,
    /// Bytes delivered in the last complete window.
    pub out_bps: u32,
}

/// The byte fed to the conditioner: Z1's nibble high, Z2's nibble low.
pub open spec fn combined_byte(n1: u8, n2: u8) -> u8 {
    (n1 * 16 + n2) as u8
}

impl PipelineModel {
    /// Bounds every reachable state keeps.
    pub open spec fn wf(self) -> bool {
        self.h1.wf() && self.h2.wf() && self.cond.wf()
    }

    /// Room in every counter for one more step handing out at most
    /// `out_len` bytes (the counters would overflow otherwise).
    pub open spec fn has_room(self, out_len: nat) -> bool {
        &&& self.h1.total_samples < u64::MAX
        &&& self.h2.total_samples < u64::MAX
        &&& self.cond.bytes_in < u64::MAX
        &&& self.cond.blocks_out < u64::MAX
        &&& self.rng.seed_count < u64::MAX
        &&& self.rng.bytes_out + out_len <= u64::MAX
        &&& self.suppressed < u64::MAX
        &&& self.total_out + out_len + BLOCK_OUT <= u64::MAX
        &&& self.dropped + out_len + BLOCK_OUT <= u64::MAX
        &&& self.win_bytes + out_len + BLOCK_OUT <= u32::MAX
    }

    /// One pair of raw ADC readings through the pipeline; `out_len` is the
    /// length of the DRBG output buffer.
    pub open spec fn on_samples(self, r1: u16, r2: u16, out_len: nat) -> (PipelineModel, Emitted) {
        let n1 = (r1 % 16) as u8;
        let n2 = (r2 % 16) as u8;
        let (h1, s1) = self.h1.feed(n1);
        let (h2, s2) = self.h2.feed(n2);
        if s1 == HealthState::Healthy && s2 == HealthState::Healthy {
            let (cond, block) = self.cond.push(combined_byte(n1, n2));
            match block {
                None => (PipelineModel { h1, h2, cond, ..self }, Emitted::Nothing),
                Some(b) => match self.mode {
                    OutMode::Raw => (PipelineModel { h1, h2, cond, ..self }, Emitted::Raw(b)),
                    OutMode::Drbg => {
                        let (rng, res) = self.rng.reseed(b).generate(out_len);
                        match res {
                            Ok(bytes) => (
                                PipelineModel { h1, h2, cond, rng, ..self },
                                Emitted::Drbg(bytes),
                            ),
                            Err(_) => (PipelineModel { h1, h2, cond, rng, ..self }, Emitted::Nothing),
                        }
                    },
                },
            }
        } else {
            (
                PipelineModel { h1, h2, suppressed: (self.suppressed + 1) as u64, ..self },
                Emitted::Nothing,
            )
        }
    }

    /// The host took (`delivered`) or missed `len` bytes.
    pub open spec fn on_written(self, len: nat, delivered: bool) -> PipelineModel {
        if delivered {
            PipelineModel {
                total_out: (self.total_out + len) as u64,
                win_bytes: (self.win_bytes + len) as u32,
                ..self
            }
        } else {
            PipelineModel { dropped: (self.dropped + len) as u64, ..self }
        }
    }

    /// A host command byte.
    pub open spec fn on_command(self, c: u8) -> (PipelineModel, Command) {
        if c == 0x72 {
            (PipelineModel { mode: OutMode::Raw, ..self }, Command::SelectRaw)
        } else if c == 0x64 {
            (PipelineModel { mode: OutMode::Drbg, ..self }, Command::SelectDrbg)
        } else if c == 0x68 {
            (PipelineModel { h1: fresh_model(), h2: fresh_model(), ..self }, Command::ResetHealth)
        } else if c == 0x73 {
            (self, Command::Status)
        } else {
            (self, Command::Ignored)
        }
    }
}

/// The decision state of the running device.
pub struct Pipeline {
    hz1: HealthTest,
    hz2: HealthTest,
    cond: Conditioner,
    rng: HmacDrbg,
    mode: OutMode,
    total_out: u64,
    dropped: u64,
    suppressed: u64,
    win_bytes: u32,
    out_bps: u32,
}

impl View for Pipeline {
    type V = PipelineModel;

    closed spec fn view(&self) -> PipelineModel {
        PipelineModel {
            h1: self.hz1@,
            h2: self.hz2@,
            cond: self.cond@,
            rng: self.rng@,
            mode: self.mode,
            total_out: self.total_out,
            dropped: self.dropped,
            suppressed: self.suppressed,
            win_bytes: self.win_bytes,
            out_bps: self.out_bps,
        }
    }
}

impl Pipeline {
    /// Fresh health tests, conditioner and unseeded DRBG; RAW mode.
    pub fn new() -> (p: Self)
        ensures
            p@.wf(),
            p@.h1 == fresh_model(),
            p@.h2 == fresh_model(),
            p@.mode == OutMode::Raw,
            p@.cond == initial_model(),
            p@.rng == (DrbgModel {
                k: bytes_of(0x00, SEEDLEN as nat),
                v: bytes_of(0x00, SEEDLEN as nat),
                seeded: false,
                reseed_counter: 0,
                bytes_out: 0,
                seed_count: 0,
            }),
            p@.total_out == 0,
            p@.dropped == 0,
            p@.suppressed == 0,
            p@.win_bytes == 0,
            p@.out_bps == 0,
    {
        Pipeline {
            hz1: HealthTest::new(),
            hz2: HealthTest::new(),
            cond: Conditioner::new(),
            rng: HmacDrbg::new(),
            mode: OutMode::Raw,
            total_out: 0,
            dropped: 0,
            suppressed: 0,
            win_bytes: 0,
            out_bps: 0,
        }
    }

    /// Whether every counter has room for one more step that hands out at
    /// most `out_len` bytes.
    pub fn has_room(&self, out_len: usize) -> (b: bool)
        ensures
            b == self@.has_room(out_len as nat),
    {
        let len = out_len as u64;
        let limit = u64::MAX - BLOCK_OUT as u64;
        let win_limit = (u32::MAX - BLOCK_OUT as u32) as u64;
        self.hz1.total_samples() < u64::MAX && self.hz2.total_samples() < u64::MAX
            && self.cond.bytes_in() < u64::MAX && self.cond.blocks_out() < u64::MAX
            && self.rng.seed_count() < u64::MAX && self.rng.bytes_out() <= u64::MAX - len
            && self.suppressed < u64::MAX && len <= limit && self.total_out <= limit - len
            && self.dropped <= limit - len && len <= win_limit && self.win_bytes as u64
            <= win_limit - len
    }

    /// One pair of raw ADC readings: both health tests see their channel's
    /// low nibble; only when BOTH say `Healthy` does the combined byte go
    /// to the conditioner. A finished block is handed out as it is (RAW) or
    /// reseeds the DRBG, whose output then fills `out` (DRBG).
    pub fn on_samples(&mut self, r1: u16, r2: u16, out: &mut [u8]) -> (e: Emit)
        requires
            old(self)@.wf(),
            old(self)@.has_room(old(out)@.len()),
        ensures
            final(self)@.wf(),
            final(out)@.len() == old(out)@.len(),
            ({
                let (m, em) = old(self)@.on_samples(r1, r2, old(out)@.len());
                &&& final(self)@ == m
                &&& match em {
                    Emitted::Nothing => e is Nothing && final(out)@ == old(out)@,
                    Emitted::Raw(b) => e matches Emit::Raw(blk) && blk@ == b && final(out)@ == old(
                        out,
                    )@,
                    Emitted::Drbg(bytes) => e is Drbg && final(out)@ == bytes,
                }
            }),
    {
        let n1 = (r1 & 0x0F) as u8;
        let n2 = (r2 & 0x0F) as u8;
        proof {
            assert(r1 & 0x0Fu16 == r1 % 16) by (bit_vector);
            assert(r2 & 0x0Fu16 == r2 % 16) by (bit_vector);
            assert(n1 % 16 == n1);
            assert(n2 % 16 == n2);
        }
        let s1 = self.hz1.feed(n1);
        let s2 = self.hz2.feed(n2);
        let healthy = match (s1, s2) {
            (HealthState::Healthy, HealthState::Healthy) => true,
            _ => false,
        };
        if !healthy {
            self.suppressed = self.suppressed + 1;
            return Emit::Nothing;
        }
        let byte = (n1 << 4) | n2;
        proof {
            assert(n1 < 16 && n2 < 16 ==> (n1 << 4) | n2 == n1 * 16 + n2) by (bit_vector);
        }
        match self.cond.push(byte) {
            None => Emit::Nothing,
            Some(block) => match self.mode {
                OutMode::Raw => Emit::Raw(block),
                OutMode::Drbg => {
                    self.rng.reseed(&block);
                    match self.rng.generate(out) {
                        Ok(()) => Emit::Drbg,
                        Err(_) => Emit::Nothing,
                    }
                },
            },
        }
    }

    /// Records whether the host took the `len` bytes just handed out.
    pub fn on_written(&mut self, len: usize, delivered: bool)
        requires
            old(self)@.total_out + len <= u64::MAX,
            old(self)@.dropped + len <= u64::MAX,
            old(self)@.win_bytes + len <= u32::MAX,
        ensures
            final(self)@ == old(self)@.on_written(len as nat, delivered),
    {
        if delivered {
            self.total_out = self.total_out + len as u64;
            self.win_bytes = self.win_bytes + len as u32;
        } else {
            self.dropped = self.dropped + len as u64;
        }
    }

    /// Closes a one-second window: the bytes delivered in it become the
    /// MEASURED rate.
    pub fn on_window(&mut self)
        ensures
            final(self)@ == (PipelineModel { out_bps: old(self)@.win_bytes, win_bytes: 0, ..old(self)@ }),
    {
        self.out_bps = self.win_bytes;
        self.win_bytes = 0;
    }

    /// A host command byte: `r` RAW, `d` DRBG, `h` reset both health tests,
    /// `s` status; anything else is ignored.
    pub fn on_command(&mut self, c: u8) -> (cmd: Command)
        requires
            old(self)@.wf(),
        ensures
            final(self)@.wf(),
            (final(self)@, cmd) == old(self)@.on_command(c),
    {
        if c == 0x72 {
            self.mode = OutMode::Raw;
            Command::SelectRaw
        } else if c == 0x64 {
            self.mode = OutMode::Drbg;
            Command::SelectDrbg
        } else if c == 0x68 {
            self.hz1.reset();
            self.hz2.reset();
            Command::ResetHealth
        } else if c == 0x73 {
            Command::Status
        } else {
            Command::Ignored
        }
    }

    /// Z1's health test.
    pub fn health_z1(&self) -> (h: &HealthTest)
        ensures
            h@ == self@.h1,
    {
        &self.hz1
    }

    /// Z2's health test.
    pub fn health_z2(&self) -> (h: &HealthTest)
        ensures
            h@ == self@.h2,
    {
        &self.hz2
    }

    /// The conditioner.
    pub fn conditioner(&self) -> (c: &Conditioner)
        ensures
            c@ == self@.cond,
    {
        &self.cond
    }

    /// The DRBG.
    pub fn drbg(&self) -> (d: &HmacDrbg)
        ensures
            d@ == self@.rng,
    {
        &self.rng
    }

    /// The output mode.
    pub fn mode(&self) -> (m: OutMode)
        ensures
            m == self@.mode,
    {
        self.mode
    }

    /// Bytes the host took.
    pub fn total_out(&self) -> (n: u64)
        ensures
            n == self@.total_out,
    {
        self.total_out
    }

    /// Bytes the host missed.
    pub fn dropped(&self) -> (n: u64)
        ensures
            n == self@.dropped,
    {
        self.dropped
    }

    /// Sample pairs suppressed by the health tests.
    pub fn suppressed(&self) -> (n: u64)
        ensures
            n == self@.suppressed,
    {
        self.suppressed
    }

    /// The MEASURED output rate of the last complete window (bytes/second).
    pub fn out_bps(&self) -> (n: u32)
        ensures
            n == self@.out_bps,
    {
        self.out_bps
    }
}

/// Output flows only while both channels are healthy: whenever a pair of
/// samples hands something out, both health tests answered `Healthy` to it
/// (so both have passed their start-up test and neither has failed).
pub proof fn lemma_output_needs_both_healthy(m: PipelineModel, r1: u16, r2: u16, out_len: nat)
    ensures
        !(m.on_samples(r1, r2, out_len).1 is Nothing) ==> {
            &&& m.h1.feed((r1 % 16) as u8).1 == HealthState::Healthy
            &&& m.h2.feed((r2 % 16) as u8).1 == HealthState::Healthy
            &&& m.h1.failure is None && m.h2.failure is None
            &&& m.h1.startup_remaining == 0 && m.h2.startup_remaining == 0
        },
{
}

/// A latched failure on either channel suppresses all output and stays
/// latched, whatever the samples, until the `h` command resets the tests;
/// the other commands leave it in place.
pub proof fn lemma_failure_suppresses_output(m: PipelineModel, r1: u16, r2: u16, out_len: nat, c: u8)
    requires
        m.h1.failure is Some || m.h2.failure is Some,
    ensures
        m.on_samples(r1, r2, out_len).1 is Nothing,
        m.on_samples(r1, r2, out_len).0.h1.failure is Some || m.on_samples(
            r1,
            r2,
            out_len,
        ).0.h2.failure is Some,
        c != 0x68 ==> m.on_command(c).0.h1 == m.h1 && m.on_command(c).0.h2 == m.h2,
        c == 0x68 ==> m.on_command(c).0.h1.failure is None && m.on_command(c).0.h2.failure is None,
{
}

/// In DRBG mode every fresh conditioner block reseeds the DRBG first, so a
/// block always yields DRBG output: generation is never refused.
pub proof fn lemma_drbg_block_always_generates(m: PipelineModel, r1: u16, r2: u16, out_len: nat)
    requires
        m.mode == OutMode::Drbg,
    ensures
        !(m.on_samples(r1, r2, out_len).1 is Nothing) ==> m.on_samples(r1, r2, out_len).1 is Drbg,
        ({
            let n1 = (r1 % 16) as u8;
            let n2 = (r2 % 16) as u8;
            m.h1.feed(n1).1 == HealthState::Healthy && m.h2.feed(n2).1 == HealthState::Healthy
                && m.cond.push(combined_byte(n1, n2)).1 is Some
        }) ==> m.on_samples(r1, r2, out_len).1 is Drbg,
{
}

/// In RAW mode what is handed out is exactly the conditioner's new block,
/// which is also its new chain state.
pub proof fn lemma_raw_output_is_block(m: PipelineModel, r1: u16, r2: u16, out_len: nat)
    requires
        m.mode == OutMode::Raw,
    ensures
        m.on_samples(r1, r2, out_len).1 matches Emitted::Raw(b) ==> b == m.on_samples(
            r1,
            r2,
            out_len,
        ).0.cond.chain,
        !(m.on_samples(r1, r2, out_len).1 is Drbg),
{
}

/// In DRBG mode every fresh conditioner block reseeds the DRBG before it
/// generates: when both channels answer `Healthy` and the conditioner
/// returns a block `b`, the DRBG counts exactly one more seeding, its reseed
/// counter is 2 afterwards (one generation since that seeding), and the
/// bytes handed out are the output of the DRBG reseeded with `b`.
pub proof fn lemma_drbg_block_reseeds(m: PipelineModel, r1: u16, r2: u16, out_len: nat)
    requires
        m.mode == OutMode::Drbg,
        m.rng.seed_count < u64::MAX,
        m.rng.bytes_out + out_len <= u64::MAX,
    ensures
        ({
            let n1 = (r1 % 16) as u8;
            let n2 = (r2 % 16) as u8;
            let block = m.cond.push(combined_byte(n1, n2)).1;
            let (next, em) = m.on_samples(r1, r2, out_len);
            (m.h1.feed(n1).1 == HealthState::Healthy && m.h2.feed(n2).1 == HealthState::Healthy
                && block is Some) ==> {
                &&& next.rng.seed_count == m.rng.seed_count + 1
                &&& next.rng.seeded
                &&& next.rng.reseed_counter == 2
                &&& next.rng.bytes_out == m.rng.bytes_out + out_len
                &&& em == Emitted::Drbg(m.rng.reseed(block->0).generate(out_len).1->Ok_0)
                &&& next.rng == m.rng.reseed(block->0).generate(out_len).0
            }
        }),
        m.on_samples(r1, r2, out_len).1 is Nothing ==> m.on_samples(r1, r2, out_len).0.rng == m.rng,
{
}

/// In RAW mode the DRBG is left alone.
pub proof fn lemma_raw_leaves_drbg(m: PipelineModel, r1: u16, r2: u16, out_len: nat)
    requires
        m.mode == OutMode::Raw,
    ensures
        m.on_samples(r1, r2, out_len).0.rng == m.rng,
{
}

/// Host commands: `r` (0x72) selects RAW and `d` (0x64) selects DRBG
/// whatever the mode was, `h` (0x68) restarts both health tests from fresh,
/// and no command touches anything else (conditioner, DRBG, counters); `s`
/// and unknown bytes change nothing at all.
pub proof fn lemma_commands(m: PipelineModel, c: u8)
    ensures
        m.on_command(0x72).0.mode == OutMode::Raw,
        m.on_command(0x72).1 == Command::SelectRaw,
        m.on_command(0x64).0.mode == OutMode::Drbg,
        m.on_command(0x64).1 == Command::SelectDrbg,
        m.on_command(0x68).0.h1 == fresh_model() && m.on_command(0x68).0.h2 == fresh_model(),
        m.on_command(0x68).0.mode == m.mode,
        m.on_command(0x68).1 == Command::ResetHealth,
        m.on_command(c).0.cond == m.cond,
        m.on_command(c).0.rng == m.rng,
        m.on_command(c).0.total_out == m.total_out,
        m.on_command(c).0.dropped == m.dropped,
        m.on_command(c).0.suppressed == m.suppressed,
        c != 0x68 ==> m.on_command(c).0.h1 == m.h1 && m.on_command(c).0.h2 == m.h2,
        c != 0x72 && c != 0x64 ==> m.on_command(c).0.mode == m.mode,
        c != 0x72 && c != 0x64 && c != 0x68 ==> m.on_command(c).0 == m,
{
}

} // verus!
