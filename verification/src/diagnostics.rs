//! Start-up diagnostics of the analog path, as raw measurements with no
//! interpretation: calibration source, per-channel sample statistics, the
//! bias sweep's current scaling, and the frame layout of the raw dump.
use vstd::prelude::*;

use crate::drivers::at24c256::{CalibError, CalibV1};

verus! {

/// DAC code for Z1 when the EEPROM cannot be read. NOT a calibrated value.
pub const FALLBACK_DAC_Z1: u16 = 2850;

/// DAC code for Z2 when the EEPROM cannot be read. NOT a calibrated value.
pub const FALLBACK_DAC_Z2: u16 = 2892;

/// Mux channel when the EEPROM cannot be read.
pub const FALLBACK_MUX: u8 = 0;

/// Where the calibration in use came from.
#[derive(Debug, Copy, Clone, PartialEq, Eq, Structural)]
pub enum CalibSource {
    Eeprom,
    Fallback,
}

/// The fallback record: uncalibrated DAC codes, mux channel 0, 1 kOhm
/// sense resistor, everything else zero.
pub open spec fn fallback_record() -> CalibV1 {
    CalibV1 {
        version: 0,
        timestamp_utc: 0,
        temp_c_x10: 0,
        rsense_ohms: 1000,
        dac_z1: FALLBACK_DAC_Z1,
        dac_z2: FALLBACK_DAC_Z2,
        mux_z1: FALLBACK_MUX,
        mux_z2: FALLBACK_MUX,
        shannon_z1_mb: 0,
        shannon_z2_mb: 0,
    }
}

/// The calibration to use: the EEPROM record when it was read and parsed,
/// else the fallback (the device then does NOT count as calibrated).
pub fn calibration_or_fallback(read: Result<CalibV1, CalibError>) -> (r: (CalibV1, CalibSource))
    ensures
        read matches Ok(c) ==> r == (c, CalibSource::Eeprom),
        read is Err ==> r == (fallback_record(), CalibSource::Fallback),
{
    match read {
        Ok(c) => (c, CalibSource::Eeprom),
        Err(_) => (
            CalibV1 {
                version: 0,
                timestamp_utc: 0,
                temp_c_x10: 0,
                rsense_ohms: 1000,
                dac_z1: FALLBACK_DAC_Z1,
                dac_z2: FALLBACK_DAC_Z2,
                mux_z1: FALLBACK_MUX,
                mux_z2: FALLBACK_MUX,
                shannon_z1_mb: 0,
                shannon_z2_mb: 0,
            },
            CalibSource::Fallback,
        ),
    }
}

/// `r` is the integer square root of `x`: the largest value whose square is
/// at most `x`.
pub open spec fn is_isqrt(x: int, r: int) -> bool {
    0 <= r && r * r <= x < (r + 1) * (r + 1)
}

/// Calls `u64::isqrt` (std).
///
/// Trusted: the contract claims what std documents, that the result is the
/// square root of `x` rounded down.
#[verifier::external_body]
fn isqrt_u64(x: u64) -> (r: u64)
    ensures
        is_isqrt(x as int, r as int),
{
    x.isqrt()
}

/// Population standard deviation from running sums, in integer arithmetic:
/// sqrt(E[x^2] - E[x]^2) with both means rounded down and a negative
/// difference taken as 0; 0 for no samples.
pub open spec fn std_dev_spec(sum: int, sum_sq: int, n: int) -> int {
    let mean = sum / n;
    let d = sum_sq / n - mean * mean;
    if d < 0 {
        0
    } else {
        d
    }
}

/// Var(x) = E[x^2] - E[x]^2 from running sums, square-rooted. Running sums
/// are used because the samples are not kept in memory.
pub fn std_dev(sum: u64, sum_sq: u64, n: u64) -> (s: u64)
    requires
        n != 0 ==> (sum / n) * (sum / n) <= u64::MAX,
    ensures
        n == 0 ==> s == 0,
        n != 0 ==> is_isqrt(std_dev_spec(sum as int, sum_sq as int, n as int), s as int),
{
    if n == 0 {
        return 0;
    }
    let mean = sum / n;
    let v = (sum_sq / n).saturating_sub(mean * mean);
    isqrt_u64(v)
}

/// Summary of a channel's samples.
pub struct ChannelStats {
    pub min: u16,
    pub max: u16,
    pub mean: u16,
    pub std: u64,
    /// Histogram of the low 4 bits, the width the health tests use.
    pub nib: [u32; 16],
    pub elapsed_us: u64,
}

impl ChannelStats {
    /// max - min, or 0 when no sample was seen (min > max then).
    pub fn span(&self) -> (s: u16)
        ensures
            s == if self.max >= self.min {
                self.max - self.min
            } else {
                0
            },
    {
        self.max.saturating_sub(self.min)
    }
}

/// Sum of the samples.
pub open spec fn sum_of(s: Seq<u16>) -> int
    decreases s.len(),
{
    if s.len() == 0 {
        0
    } else {
        sum_of(s.drop_last()) + s.last()
    }
}

/// Sum of the squared samples.
pub open spec fn sum_sq_of(s: Seq<u16>) -> int
    decreases s.len(),
{
    if s.len() == 0 {
        0
    } else {
        sum_sq_of(s.drop_last()) + s.last() * s.last()
    }
}

/// Smallest sample, `u16::MAX` for none.
pub open spec fn min_of(s: Seq<u16>) -> u16
    decreases s.len(),
{
    if s.len() == 0 {
        u16::MAX
    } else if s.last() < min_of(s.drop_last()) {
        s.last()
    } else {
        min_of(s.drop_last())
    }
}

/// Largest sample, 0 for none.
pub open spec fn max_of(s: Seq<u16>) -> u16
    decreases s.len(),
{
    if s.len() == 0 {
        0
    } else if s.last() > max_of(s.drop_last()) {
        s.last()
    } else {
        max_of(s.drop_last())
    }
}

/// Number of samples whose low 4 bits equal `v`.
pub open spec fn nibble_count(s: Seq<u16>, v: int) -> int
    decreases s.len(),
{
    if s.len() == 0 {
        0
    } else {
        nibble_count(s.drop_last(), v) + if s.last() % 16 == v {
            1int
        } else {
            0
        }
    }
}

/// Running statistics of a channel's samples, fed one reading at a time.
pub struct StatsAccumulator {
    min: u16,
    max: u16,
    sum: u64,
    sum_sq: u64,
    nib: [u32; 16],
    count: u32,
    samples: Ghost<Seq<u16>>,
}

/// Largest square of a 16-bit sample.
pub open spec fn max_sq() -> int {
    65535int * 65535int
}

impl StatsAccumulator {
    /// The samples seen so far.
    pub closed spec fn samples(&self) -> Seq<u16> {
        self.samples@
    }

    /// The running values agree with the samples seen.
    pub closed spec fn wf(&self) -> bool {
        &&& self.count == self.samples@.len()
        &&& self.min == min_of(self.samples@)
        &&& self.max == max_of(self.samples@)
        &&& self.sum == sum_of(self.samples@)
        &&& self.sum_sq == sum_sq_of(self.samples@)
        &&& forall|v: int| 0 <= v < 16 ==> #[trigger] self.nib@[v] == nibble_count(self.samples@, v)
        &&& self.sum <= self.count * 65535
        &&& self.sum_sq <= self.count * max_sq()
    }

    /// No samples yet.
    pub fn new() -> (a: Self)
        ensures
            a.wf(),
            a.samples() == Seq::<u16>::empty(),
    {
        StatsAccumulator {
            min: u16::MAX,
            max: 0,
            sum: 0,
            sum_sq: 0,
            nib: [0u32; 16],
            count: 0,
            samples: Ghost(Seq::empty()),
        }
    }

    /// Number of samples seen.
    pub fn count(&self) -> (n: u32)
        requires
            self.wf(),
        ensures
            n == self.samples().len(),
    {
        self.count
    }

    /// Adds one ADC reading.
    pub fn add(&mut self, r: u16)
        requires
            old(self).wf(),
            old(self).samples().len() < u32::MAX,
        ensures
            final(self).wf(),
            final(self).samples() == old(self).samples().push(r),
    {
        let ghost s0 = self.samples@;
        let ghost s1 = s0.push(r);
        proof {
            assert(s1.drop_last() == s0);
            assert((r as int) * (r as int) <= max_sq()) by (nonlinear_arith)
                requires
                    r <= 65535,
            ;
            assert(self.count * 65535 + 65535 <= u64::MAX) by (nonlinear_arith)
                requires
                    self.count < u32::MAX,
            ;
            assert(self.count * max_sq() + max_sq() <= u64::MAX) by (nonlinear_arith)
                requires
                    self.count < u32::MAX,
            ;
        }
        if r < self.min {
            self.min = r;
        }
        if r > self.max {
            self.max = r;
        }
        self.sum = self.sum + r as u64;
        self.sum_sq = self.sum_sq + (r as u64) * (r as u64);
        let i = (r & 0x0F) as usize;
        proof {
            let c = old(self).count as int;
            let q = old(self).sum_sq as int;
            let m = max_sq();
            assert(q + r * r <= (c + 1) * m) by (nonlinear_arith)
                requires
                    q <= c * m,
                    r * r <= m,
            ;
            assert(r & 0x0Fu16 == r % 16) by (bit_vector);
            assert(self.nib@[i as int] == nibble_count(s0, i as int));
            lemma_nibble_count_bound(s0, i as int);
        }
        self.nib[i] = self.nib[i] + 1;
        self.count = self.count + 1;
        self.samples = Ghost(s1);
        proof {
            assert(self.count == s1.len());
            assert(self.min == min_of(s1));
            assert(self.max == max_of(s1));
            assert(self.sum == sum_of(s1));
            assert(self.sum_sq == sum_sq_of(s1));
            assert(self.sum <= self.count * 65535);
            assert(self.sum_sq <= self.count * max_sq());
            assert forall|v: int| 0 <= v < 16 implies #[trigger] self.nib@[v] == nibble_count(
                s1,
                v,
            ) by {
                assert(nibble_count(s1, v) == nibble_count(s0, v) + if r % 16 == v {
                    1int
                } else {
                    0
                });
            }
        }
    }

    /// The summary of the samples seen, with the measured duration.
    pub fn finish(&self, elapsed_us: u64) -> (st: ChannelStats)
        requires
            self.wf(),
        ensures
            st.min == min_of(self.samples()),
            st.max == max_of(self.samples()),
            st.mean == sum_of(self.samples()) / (if self.samples().len() == 0 {
                1
            } else {
                self.samples().len() as int
            }),
            is_isqrt(
                std_dev_spec(
                    sum_of(self.samples()),
                    sum_sq_of(self.samples()),
                    if self.samples().len() == 0 {
                        1
                    } else {
                        self.samples().len() as int
                    },
                ),
                st.std as int,
            ),
            forall|v: int| 0 <= v < 16 ==> #[trigger] st.nib@[v] == nibble_count(self.samples(), v),
            st.elapsed_us == elapsed_us,
    {
        let nn: u64 = if self.count == 0 {
            1
        } else {
            self.count as u64
        };
        let mean = self.sum / nn;
        proof {
            assert(mean <= 65535) by (nonlinear_arith)
                requires
                    mean == self.sum / nn,
                    nn >= 1,
                    self.sum <= nn * 65535,
            ;
            assert(mean * mean <= u64::MAX) by (nonlinear_arith)
                requires
                    mean <= 65535,
            ;
        }
        ChannelStats {
            min: self.min,
            max: self.max,
            mean: mean as u16,
            std: std_dev(self.sum, self.sum_sq, nn),
            nib: self.nib,
            elapsed_us,
        }
    }
}

proof fn lemma_nibble_count_bound(s: Seq<u16>, v: int)
    ensures
        0 <= nibble_count(s, v) <= s.len(),
    decreases s.len(),
{
    if s.len() > 0 {
        lemma_nibble_count_bound(s.drop_last(), v);
    }
}

/// Below this ratio (times 100) of the noise std at the highest bias code
/// to the one at code 0, the noise does not scale with bias current.
pub const MIN_SCALING_RATIO_X100: u64 = 200;

/// How the noise amplitude scales with bias current over a sweep.
#[derive(Debug, Copy, Clone, PartialEq, Eq, Structural)]
pub enum Scaling {
    /// The std at code 0 was 0; `top` is the std at the last code.
    ZeroBase { top: u64 },
    /// std at the first and last code and their ratio times 100;
    /// `scales` is false below `MIN_SCALING_RATIO_X100` (a detached DAC
    /// output, a non-conducting zener or a current-independent source).
    Ratio { base: u64, top: u64, ratio_x100: u64, scales: bool },
}

/// Zener avalanche/shot noise grows about as sqrt(I); amplifier, supply and
/// ADC floors do not depend on the current. Compares the std at the first
/// and last code of a sweep.
pub fn scaling(stds: &[u64]) -> (s: Scaling)
    requires
        stds@.len() >= 1,
        stds@.last() * 100 <= u64::MAX,
    ensures
        stds@[0] == 0 ==> s == (Scaling::ZeroBase { top: stds@.last() }),
        stds@[0] != 0 ==> s == (Scaling::Ratio {
            base: stds@[0],
            top: stds@.last(),
            ratio_x100: (stds@.last() * 100 / (stds@[0] as int)) as u64,
            scales: stds@.last() * 100 / (stds@[0] as int) >= MIN_SCALING_RATIO_X100,
        }),
{
    let base = stds[0];
    let top = stds[stds.len() - 1];
    if base == 0 {
        return Scaling::ZeroBase { top };
    }
    let ratio_x100 = (top * 100) / base;
    Scaling::Ratio { base, top, ratio_x100, scales: ratio_x100 >= MIN_SCALING_RATIO_X100 }
}

/// Samples per raw dump frame.
pub const DUMP_SAMPLES: usize = 512;

/// Dump frame header length.
pub const FRAME_HEADER: usize = 16;

/// Dump frame length: header plus two bytes per sample.
pub const FRAME_LEN: usize = 1040;

/// The 16-byte dump frame header: "CTH1", then little-endian sequence
/// number (u16), channel (u8), sample-time code (u8), DAC code (u16),
/// sample count (u16) and elapsed microseconds (u32).
pub open spec fn frame_header(
    seq_no: u16,
    channel: u8,
    smp_code: u8,
    dac: u16,
    count: u16,
    elapsed_us: u32,
) -> Seq<u8> {
    seq![0x43u8, 0x54u8, 0x48u8, 0x31u8] + le16(seq_no) + seq![channel, smp_code] + le16(dac)
        + le16(count) + le32(elapsed_us)
}

/// Little-endian bytes of a u16.
pub open spec fn le16(x: u16) -> Seq<u8> {
    seq![(x % 256) as u8, (x / 256) as u8]
}

/// Little-endian bytes of a u32.
pub open spec fn le32(x: u32) -> Seq<u8> {
    seq![
        (x % 256) as u8,
        ((x / 256) % 256) as u8,
        ((x / 65536) % 256) as u8,
        (x / 16777216) as u8,
    ]
}

fn put_le16(frame: &mut [u8], at: usize, x: u16)
    requires
        at + 2 <= old(frame)@.len(),
    ensures
        final(frame)@ == old(frame)@.take(at as int) + le16(x) + old(frame)@.skip(at + 2),
{
    frame[at] = (x & 0xFF) as u8;
    frame[at + 1] = (x >> 8) as u8;
    proof {
        assert(x & 0xFF == x % 256) by (bit_vector);
        assert(x >> 8 == x / 256) by (bit_vector);
        assert(frame@ =~= old(frame)@.take(at as int) + le16(x) + old(frame)@.skip(at + 2));
    }
}

/// Writes the frame header into the first `FRAME_HEADER` bytes of `frame`;
/// the rest of the frame is left as it is.
pub fn write_header(
    frame: &mut [u8],
    seq_no: u16,
    channel: u8,
    smp_code: u8,
    dac: u16,
    count: u16,
    elapsed_us: u32,
)
    requires
        old(frame)@.len() >= FRAME_HEADER,
    ensures
        final(frame)@ == frame_header(seq_no, channel, smp_code, dac, count, elapsed_us) + old(
            frame,
        )@.skip(FRAME_HEADER as int),
{
    let ghost rest = frame@.skip(FRAME_HEADER as int);
    frame[0] = 0x43;
    frame[1] = 0x54;
    frame[2] = 0x48;
    frame[3] = 0x31;
    put_le16(frame, 4, seq_no);
    frame[6] = channel;
    frame[7] = smp_code;
    put_le16(frame, 8, dac);
    put_le16(frame, 10, count);
    put_le16(frame, 12, (elapsed_us & 0xFFFF) as u16);
    put_le16(frame, 14, (elapsed_us >> 16) as u16);
    proof {
        assert(((elapsed_us & 0xFFFF) as u16) % 256 == elapsed_us % 256) by (bit_vector);
        assert(((elapsed_us & 0xFFFF) as u16) / 256 == (elapsed_us / 256) % 256) by (bit_vector);
        assert(((elapsed_us >> 16) as u16) % 256 == (elapsed_us / 65536) % 256) by (bit_vector);
        assert(((elapsed_us >> 16) as u16) / 256 == elapsed_us / 16777216) by (bit_vector);
        assert(frame@ =~= frame_header(seq_no, channel, smp_code, dac, count, elapsed_us) + rest);
    }
}

/// Writes the `i`-th 12-bit sample of a frame (little-endian, after the
/// header).
pub fn write_sample(frame: &mut [u8], i: usize, r: u16)
    requires
        FRAME_HEADER + 2 * i + 2 <= old(frame)@.len(),
    ensures
        final(frame)@ == old(frame)@.take(FRAME_HEADER + 2 * i) + le16(r) + old(frame)@.skip(
            FRAME_HEADER + 2 * i + 2,
        ),
{
    let len = frame.len();
    put_le16(frame, FRAME_HEADER + 2 * i, r);
}

} // verus!
