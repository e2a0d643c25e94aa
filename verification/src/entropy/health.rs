//! SP 800-90B continuous health tests on the raw source: the Repetition
//! Count Test (RCT), the Adaptive Proportion Test (APT) and the start-up test.
//!
//! The tests run on the RAW source output, before the conditioner: after the
//! conditioner everything looks random, a broken source included.
//!
//! Sample alphabet: 4 bits (a nibble, 0..15), the low 4 bits of a 12-bit ADC
//! reading. Thresholds for H = 3.4 bit/sample and alpha = 2^-20:
//!
//!   RCT: C = 1 + ceil(20 / 3.4) = 7 equal samples in a row is a failure.
//!   APT: W = 512, the smallest C with P(X >= C) <= alpha is 84.
//!
//! Failure policy: a failure LATCHES. Once failed, the test stays failed and
//! output stays cut until `reset()` is called. There is no automatic
//! recovery: a faulty source must not leak data by passing now and then.
use vstd::prelude::*;

verus! {

/// Width of a sample in bits.
pub const SAMPLE_BITS: u8 = 4;

/// Size of the sample alphabet (`1 << SAMPLE_BITS`).
pub const ALPHABET: usize = 16;

/// Assumed min-entropy in bit per sample, times ten (3.4 bit/sample).
pub const ASSUMED_H_X10: u16 = 34;

/// RCT cutoff: this many equal samples in a row is a failure.
pub const RCT_CUTOFF: u32 = 7;

/// APT window length.
pub const APT_WINDOW: u16 = 512;

/// APT cutoff: the window's reference value seen this many times is a failure.
pub const APT_CUTOFF: u16 = 84;

/// Start-up test: this many samples must pass before any output is given.
pub const STARTUP_SAMPLES: u32 = 1024;

/// Why a test failed.
#[derive(Debug, Copy, Clone, PartialEq, Eq, Structural)]
pub enum FailReason {
    /// The same value came `RCT_CUTOFF` times in a row: the source is stuck.
    Rct { value: u8, run: u32 },
    /// A value came `APT_CUTOFF` times in one window: the distribution broke.
    Apt { value: u8, count: u16 },
}

/// What a health test says about output.
#[derive(Debug, Copy, Clone, PartialEq, Eq, Structural)]
pub enum HealthState {
    /// The start-up test is still running; no output yet.
    Startup { remaining: u32 },
    /// The tests pass; output may be given.
    Healthy,
    /// A failure has latched; output must be cut.
    Failed(FailReason),
}

/// The state of one channel's health tests, as a value.
pub struct HealthModel {
    pub rct_last: u8,
    pub rct_run: u32,
    pub rct_primed: bool,
    pub apt_ref: u8,
    pub apt_count: u16,
    pub apt_pos: u16,
    pub apt_primed: bool,
    pub startup_remaining: u32,
    pub failure: Option<FailReason>,
    /// Samples seen while no failure was latched.
    pub total_samples: u64,
    /// Longest run of equal samples counted by the RCT.
    pub rct_max_run: u32,
    /// Highest reference count reached by the APT.
    pub apt_max_count: u16,
}

/// The nibble that the tests look at: the low `SAMPLE_BITS` bits.
pub open spec fn nibble(sample: u8) -> u8 {
    (sample % 16) as u8
}

/// The model of a freshly built (or reset) test.
pub open spec fn fresh_model() -> HealthModel {
    HealthModel {
        rct_last: 0,
        rct_run: 0,
        rct_primed: false,
        apt_ref: 0,
        apt_count: 0,
        apt_pos: 0,
        apt_primed: false,
        startup_remaining: STARTUP_SAMPLES,
        failure: None,
        total_samples: 0,
        rct_max_run: 0,
        apt_max_count: 0,
    }
}

impl HealthModel {
    /// The bounds that every reachable state keeps: counters stay below their
    /// cutoffs while no failure has latched, and a latched failure was
    /// reported exactly at its cutoff.
    pub open spec fn wf(self) -> bool {
        &&& self.rct_last < 16
        &&& self.apt_ref < 16
        &&& self.startup_remaining <= STARTUP_SAMPLES
        &&& match self.failure {
            None => {
                &&& (self.rct_primed ==> 1 <= self.rct_run < RCT_CUTOFF)
                &&& (self.apt_primed ==> {
                    &&& 1 <= self.apt_count < APT_CUTOFF
                    &&& 1 <= self.apt_pos < APT_WINDOW
                })
            },
            Some(FailReason::Rct { value, run }) => value < 16 && run == RCT_CUTOFF,
            Some(FailReason::Apt { value, count }) => value < 16 && count == APT_CUTOFF,
        }
    }

    /// Whether the nibble `s` continues the current run.
    pub open spec fn rct_extends(self, s: u8) -> bool {
        self.rct_primed && s == self.rct_last
    }

    /// RCT step: the run counter after seeing nibble `s`.
    pub open spec fn rct_step(self, s: u8) -> HealthModel {
        if self.rct_extends(s) {
            let run = (self.rct_run + 1) as u32;
            let max_run = if run > self.rct_max_run {
                run
            } else {
                self.rct_max_run
            };
            HealthModel { rct_run: run, rct_max_run: max_run, ..self }
        } else {
            HealthModel { rct_last: s, rct_run: 1, rct_primed: true, ..self }
        }
    }

    /// Whether the nibble `s` is counted against the window's reference.
    pub open spec fn apt_counts(self, s: u8) -> bool {
        self.apt_primed && s == self.apt_ref
    }

    /// APT counting step: a new window takes `s` as its reference, else a
    /// match with the reference is counted (the position is advanced later).
    pub open spec fn apt_count_step(self, s: u8) -> HealthModel {
        if !self.apt_primed {
            HealthModel { apt_ref: s, apt_count: 1, apt_pos: 1, apt_primed: true, ..self }
        } else if s == self.apt_ref {
            let count = (self.apt_count + 1) as u16;
            let max_count = if count > self.apt_max_count {
                count
            } else {
                self.apt_max_count
            };
            HealthModel { apt_count: count, apt_max_count: max_count, ..self }
        } else {
            self
        }
    }

    /// APT position step inside a window; a full window closes, so the next
    /// sample becomes the new reference.
    pub open spec fn apt_pos_step(self) -> HealthModel {
        let pos = (self.apt_pos + 1) as u16;
        HealthModel { apt_pos: pos, apt_primed: pos < APT_WINDOW, ..self }
    }

    /// Start-up step: counts down and reports the remaining samples, or `Healthy`.
    pub open spec fn startup_step(self) -> (HealthModel, HealthState) {
        if self.startup_remaining > 0 {
            let rem = (self.startup_remaining - 1) as u32;
            (HealthModel { startup_remaining: rem, ..self }, HealthState::Startup { remaining: rem })
        } else {
            (self, HealthState::Healthy)
        }
    }

    /// One sample through the tests: the next state and the reported state.
    /// A latched failure changes nothing; otherwise the RCT runs first, then
    /// the APT (only when the RCT passed), then the start-up count-down.
    pub open spec fn feed(self, sample: u8) -> (HealthModel, HealthState) {
        match self.failure {
            Some(r) => (self, HealthState::Failed(r)),
            None => {
                let s = nibble(sample);
                let m0 = HealthModel { total_samples: (self.total_samples + 1) as u64, ..self };
                let m1 = m0.rct_step(s);
                if m1.rct_run >= RCT_CUTOFF {
                    let r = FailReason::Rct { value: s, run: m1.rct_run };
                    (HealthModel { failure: Some(r), ..m1 }, HealthState::Failed(r))
                } else {
                    let m2 = m1.apt_count_step(s);
                    if m1.apt_counts(s) && m2.apt_count >= APT_CUTOFF {
                        let r = FailReason::Apt { value: s, count: m2.apt_count };
                        (HealthModel { failure: Some(r), ..m2 }, HealthState::Failed(r))
                    } else if m1.apt_primed {
                        m2.apt_pos_step().startup_step()
                    } else {
                        m2.startup_step()
                    }
                }
            },
        }
    }

    /// The state reported without feeding a sample.
    pub open spec fn report(self) -> HealthState {
        match self.failure {
            Some(r) => HealthState::Failed(r),
            None => if self.startup_remaining > 0 {
                HealthState::Startup { remaining: self.startup_remaining }
            } else {
                HealthState::Healthy
            },
        }
    }

    /// A stream of samples through the tests: the final state and every
    /// reported state, in order.
    pub open spec fn run(self, samples: Seq<u8>) -> (HealthModel, Seq<HealthState>)
        decreases samples.len(),
    {
        if samples.len() == 0 {
            (self, Seq::empty())
        } else {
            let (m1, r) = self.feed(samples[0]);
            let (mf, rs) = m1.run(samples.drop_first());
            (mf, seq![r] + rs)
        }
    }
}

/// Continuous health tests of one channel.
pub struct HealthTest {
    rct_last: u8,
    rct_run: u32,
    rct_primed: bool,
    apt_ref: u8,
    apt_count: u16,
    apt_pos: u16,
    apt_primed: bool,
    startup_remaining: u32,
    failure: Option<FailReason>,
    /// Samples seen while no failure was latched (telemetry).
    pub total_samples: u64,
    /// Longest run of equal samples counted by the RCT (telemetry).
    pub rct_max_run: u32,
    /// Highest reference count reached by the APT (telemetry).
    pub apt_max_count: u16,
}

impl View for HealthTest {
    type V = HealthModel;

    closed spec fn view(&self) -> HealthModel {
        HealthModel {
            rct_last: self.rct_last,
            rct_run: self.rct_run,
            rct_primed: self.rct_primed,
            apt_ref: self.apt_ref,
            apt_count: self.apt_count,
            apt_pos: self.apt_pos,
            apt_primed: self.apt_primed,
            startup_remaining: self.startup_remaining,
            failure: self.failure,
            total_samples: self.total_samples,
            rct_max_run: self.rct_max_run,
            apt_max_count: self.apt_max_count,
        }
    }
}

impl HealthTest {
    /// A test with no failure, waiting for its start-up samples.
    pub fn new() -> (h: Self)
        ensures
            h@ == fresh_model(),
            h@.wf(),
    {
        HealthTest {
            rct_last: 0,
            rct_run: 0,
            rct_primed: false,
            apt_ref: 0,
            apt_count: 0,
            apt_pos: 0,
            apt_primed: false,
            startup_remaining: STARTUP_SAMPLES,
            failure: None,
            total_samples: 0,
            rct_max_run: 0,
            apt_max_count: 0,
        }
    }

    /// Feeds one sample; the result says whether output may be given.
    ///
    /// Only the low 4 bits of `sample` are looked at; the rest is masked.
    pub fn feed(&mut self, sample: u8) -> (r: HealthState)
        requires
            old(self)@.wf(),
            old(self)@.failure is None ==> old(self)@.total_samples < u64::MAX,
        ensures
            (final(self)@, r) == old(self)@.feed(sample),
            final(self)@.wf(),
    {
        proof {
            lemma_feed_keeps_wf(self@, sample);
        }
        if let Some(r) = self.failure {
            return HealthState::Failed(r);
        }
        let s = sample & (ALPHABET as u8 - 1);
        assert(sample & 15u8 == sample % 16) by (bit_vector);
        self.total_samples = self.total_samples + 1;

        // RCT: run of equal samples.
        if !self.rct_primed {
            self.rct_last = s;
            self.rct_run = 1;
            self.rct_primed = true;
        } else if s == self.rct_last {
            self.rct_run = self.rct_run + 1;
            if self.rct_run > self.rct_max_run {
                self.rct_max_run = self.rct_run;
            }
            if self.rct_run >= RCT_CUTOFF {
                let r = FailReason::Rct { value: s, run: self.rct_run };
                self.failure = Some(r);
                return HealthState::Failed(r);
            }
        } else {
            self.rct_last = s;
            self.rct_run = 1;
        }

        // APT: count of the window's first sample within the window.
        if !self.apt_primed {
            self.apt_ref = s;
            self.apt_count = 1;
            self.apt_pos = 1;
            self.apt_primed = true;
        } else {
            if s == self.apt_ref {
                self.apt_count = self.apt_count + 1;
                if self.apt_count > self.apt_max_count {
                    self.apt_max_count = self.apt_count;
                }
                if self.apt_count >= APT_CUTOFF {
                    let r = FailReason::Apt { value: s, count: self.apt_count };
                    self.failure = Some(r);
                    return HealthState::Failed(r);
                }
            }
            self.apt_pos = self.apt_pos + 1;
            if self.apt_pos >= APT_WINDOW {
                self.apt_primed = false;
            }
        }

        // Start-up test.
        if self.startup_remaining > 0 {
            self.startup_remaining = self.startup_remaining - 1;
            return HealthState::Startup { remaining: self.startup_remaining };
        }
        HealthState::Healthy
    }

    /// The current state, without feeding a sample.
    pub fn state(&self) -> (r: HealthState)
        ensures
            r == self@.report(),
    {
        if let Some(r) = self.failure {
            HealthState::Failed(r)
        } else if self.startup_remaining > 0 {
            HealthState::Startup { remaining: self.startup_remaining }
        } else {
            HealthState::Healthy
        }
    }

    /// Whether output may be given now.
    pub fn is_ok(&self) -> (b: bool)
        ensures
            b == (self@.report() == HealthState::Healthy),
    {
        match self.state() {
            HealthState::Healthy => true,
            _ => false,
        }
    }

    /// Samples seen while no failure was latched.
    pub fn total_samples(&self) -> (n: u64)
        ensures
            n == self@.total_samples,
    {
        self.total_samples
    }

    /// Longest run of equal samples counted by the RCT.
    pub fn rct_max_run(&self) -> (n: u32)
        ensures
            n == self@.rct_max_run,
    {
        self.rct_max_run
    }

    /// Highest reference count reached by the APT.
    pub fn apt_max_count(&self) -> (n: u16)
        ensures
            n == self@.apt_max_count,
    {
        self.apt_max_count
    }

    /// Clears a failure and restarts the start-up test.
    ///
    /// There is deliberately no automatic recovery: a failure only goes away
    /// by this explicit call.
    pub fn reset(&mut self)
        ensures
            final(self)@ == fresh_model(),
    {
        *self = Self::new();
    }
}

impl Default for HealthTest {
    /// The same test as `new()`.
    fn default() -> (h: Self)
        ensures
            h@ == fresh_model(),
    {
        Self::new()
    }
}

/// One sample keeps the bounds of `HealthModel::wf`.
pub proof fn lemma_feed_keeps_wf(m: HealthModel, sample: u8)
    requires
        m.wf(),
    ensures
        m.feed(sample).0.wf(),
{
}

/// A stream of samples keeps the bounds of `HealthModel::wf`, and reports one
/// state per sample.
pub proof fn lemma_run_keeps_wf(m: HealthModel, samples: Seq<u8>)
    requires
        m.wf(),
    ensures
        m.run(samples).0.wf(),
        m.run(samples).1.len() == samples.len(),
    decreases samples.len(),
{
    if samples.len() > 0 {
        lemma_feed_keeps_wf(m, samples[0]);
        lemma_run_keeps_wf(m.feed(samples[0]).0, samples.drop_first());
    }
}

/// A failure latches: once failed, no stream of samples changes the state,
/// and every sample is answered with the same failure.
pub proof fn lemma_failure_latches(m: HealthModel, samples: Seq<u8>)
    requires
        m.failure is Some,
    ensures
        m.run(samples).0 == m,
        m.run(samples).1.len() == samples.len(),
        forall|i: int|
            0 <= i < samples.len() ==> #[trigger] m.run(samples).1[i] == HealthState::Failed(
                m.failure->0,
            ),
    decreases samples.len(),
{
    if samples.len() > 0 {
        lemma_failure_latches(m, samples.drop_first());
        let rs = m.run(samples.drop_first()).1;
        assert forall|i: int| 0 <= i < samples.len() implies #[trigger] m.run(samples).1[i]
            == HealthState::Failed(m.failure->0) by {
            if i > 0 {
                assert(m.run(samples).1[i] == rs[i - 1]);
            }
        }
    }
}

/// A failure is always reported at its cutoff: an RCT failure with a run of
/// exactly `RCT_CUTOFF`, an APT failure with a count of exactly `APT_CUTOFF`,
/// and with the value (a nibble) that caused it.
pub proof fn lemma_failure_at_cutoff(m: HealthModel, sample: u8)
    requires
        m.wf(),
    ensures
        m.feed(sample).1 matches HealthState::Failed(FailReason::Rct { value, run }) ==> run
            == RCT_CUTOFF && value < 16,
        m.feed(sample).1 matches HealthState::Failed(FailReason::Apt { value, count }) ==> count
            == APT_CUTOFF && value < 16,
        m.failure is None && m.feed(sample).1 is Failed ==> {
            &&& m.feed(sample).0.failure is Some
            &&& m.feed(sample).1 == HealthState::Failed(m.feed(sample).0.failure->0)
            &&& (m.feed(sample).0.failure->0 matches FailReason::Rct { value, .. } ==> value
                == nibble(sample))
            &&& (m.feed(sample).0.failure->0 matches FailReason::Apt { value, .. } ==> value
                == nibble(sample))
        },
{
}

/// What `feed` answers is what `state()` reports afterwards, with one
/// exception: the last start-up sample is answered `Startup { remaining: 0 }`
/// while the state afterwards is already `Healthy`.
pub proof fn lemma_state_reports_last_feed(m: HealthModel, sample: u8)
    requires
        m.wf(),
    ensures
        m.feed(sample).1 != (HealthState::Startup { remaining: 0 }) ==> m.feed(sample).0.report()
            == m.feed(sample).1,
        m.feed(sample).1 == (HealthState::Startup { remaining: 0 }) ==> m.feed(sample).0.report()
            == HealthState::Healthy,
{
}

/// A run of `RCT_CUTOFF` samples with the same nibble always ends in a
/// latched failure, whatever the state before it.
pub proof fn lemma_rct_run_fails(m: HealthModel, samples: Seq<u8>)
    requires
        m.wf(),
        samples.len() == RCT_CUTOFF,
        forall|i: int| 0 <= i < samples.len() ==> nibble(#[trigger] samples[i]) == nibble(samples[0]),
    ensures
        m.run(samples).0.failure is Some,
{
    let v = nibble(samples[0]);
    lemma_rct_progress(m, v, samples);
    lemma_run_keeps_wf(m, samples);
}

/// While no failure latches, a stream of samples with nibble `v` grows the
/// run of `v` by one per sample.
proof fn lemma_rct_progress(m: HealthModel, v: u8, samples: Seq<u8>)
    requires
        m.wf(),
        forall|i: int| 0 <= i < samples.len() ==> nibble(#[trigger] samples[i]) == v,
    ensures
        ({
            let mf = m.run(samples).0;
            let base: int = if m.failure is None && m.rct_extends(v) {
                m.rct_run as int
            } else {
                0
            };
            mf.failure is Some || samples.len() == 0 || (mf.rct_primed && mf.rct_last == v
                && mf.rct_run >= samples.len() + base)
        }),
    decreases samples.len(),
{
    if samples.len() > 0 {
        let (m1, r) = m.feed(samples[0]);
        let rest = samples.drop_first();
        lemma_feed_keeps_wf(m, samples[0]);
        assert forall|i: int| 0 <= i < rest.len() implies nibble(#[trigger] rest[i]) == v by {
            assert(rest[i] == samples[i + 1]);
        }
        if m.failure is Some {
            lemma_failure_latches(m, samples);
        } else if m1.failure is Some {
            lemma_failure_latches(m1, rest);
        } else {
            lemma_rct_progress(m1, v, rest);
        }
    }
}

/// The start-up test holds output back: while start-up samples remain, no
/// sample is answered `Healthy`.
pub proof fn lemma_startup_holds_output(m: HealthModel, samples: Seq<u8>)
    requires
        m.wf(),
    ensures
        m.run(samples).1.len() == samples.len(),
        forall|i: int|
            0 <= i < samples.len() && i < m.startup_remaining ==> #[trigger] m.run(samples).1[i]
                != HealthState::Healthy,
    decreases samples.len(),
{
    lemma_run_keeps_wf(m, samples);
    if samples.len() > 0 {
        let (m1, r) = m.feed(samples[0]);
        let rest = samples.drop_first();
        lemma_feed_keeps_wf(m, samples[0]);
        lemma_startup_holds_output(m1, rest);
        if m.failure is Some {
            lemma_failure_latches(m, samples);
        } else {
            assert(m1.failure is None ==> m1.startup_remaining == m.startup_remaining - 1
                || m.startup_remaining == 0);
            if m1.failure is Some {
                lemma_failure_latches(m1, rest);
            }
            assert forall|i: int|
                0 <= i < samples.len() && i < m.startup_remaining implies #[trigger] m.run(
                samples,
            ).1[i] != HealthState::Healthy by {
                if i > 0 {
                    assert(m.run(samples).1[i] == m1.run(rest).1[i - 1]);
                }
            }
        }
    }
}

/// Number of samples in `s` whose nibble is `v`.
pub open spec fn count_nibble(s: Seq<u8>, v: u8) -> nat
    decreases s.len(),
{
    if s.len() == 0 {
        0
    } else {
        (if nibble(s[0]) == v {
            1nat
        } else {
            0nat
        }) + count_nibble(s.drop_first(), v)
    }
}

/// The APT catches a skewed window: when a window starts (no reference
/// yet) and, within at most `APT_WINDOW` samples, the window's first nibble
/// occurs `APT_CUTOFF` times, a failure has latched by the end.
pub proof fn lemma_apt_window_fails(m: HealthModel, samples: Seq<u8>)
    requires
        m.wf(),
        !m.apt_primed,
        1 <= samples.len() <= APT_WINDOW,
        count_nibble(samples, nibble(samples[0])) >= APT_CUTOFF,
    ensures
        m.run(samples).0.failure is Some,
{
    let v = nibble(samples[0]);
    let (m1, r) = m.feed(samples[0]);
    let rest = samples.drop_first();
    lemma_feed_keeps_wf(m, samples[0]);
    if m.failure is Some {
        lemma_failure_latches(m, samples);
    } else if m1.failure is Some {
        lemma_failure_latches(m1, rest);
    } else {
        lemma_apt_counting(m1, v, rest);
    }
}

/// Inside a window with reference `v`, the APT count grows by one per
/// sample with nibble `v` until a failure latches.
proof fn lemma_apt_counting(m: HealthModel, v: u8, samples: Seq<u8>)
    requires
        m.wf(),
        m.failure is None,
        m.apt_primed,
        m.apt_ref == v,
        m.apt_pos + samples.len() <= APT_WINDOW,
    ensures
        m.run(samples).0.failure is Some || m.apt_count + count_nibble(samples, v) < APT_CUTOFF,
    decreases samples.len(),
{
    if samples.len() > 0 {
        let (m1, r) = m.feed(samples[0]);
        let rest = samples.drop_first();
        lemma_feed_keeps_wf(m, samples[0]);
        let hit: nat = if nibble(samples[0]) == v {
            1
        } else {
            0
        };
        assert(count_nibble(samples, v) == hit + count_nibble(rest, v));
        assert(m.run(samples).0 == m1.run(rest).0);
        if m1.failure is Some {
            lemma_failure_latches(m1, rest);
        } else {
            assert(m1.apt_count == m.apt_count + hit);
            if rest.len() > 0 {
                lemma_apt_counting(m1, v, rest);
            } else {
                assert(count_nibble(rest, v) == 0);
            }
        }
    }
}

/// Feeding a stream and then one more sample is feeding the longer stream.
pub proof fn lemma_run_push(m: HealthModel, samples: Seq<u8>, sample: u8)
    ensures
        m.run(samples.push(sample)).0 == m.run(samples).0.feed(sample).0,
        m.run(samples.push(sample)).1 == m.run(samples).1.push(m.run(samples).0.feed(sample).1),
    decreases samples.len(),
{
    let t = samples.push(sample);
    if samples.len() == 0 {
        assert(t.drop_first() == Seq::<u8>::empty());
        assert(t[0] == sample);
        let (m1, r) = m.feed(sample);
        assert(m1.run(Seq::<u8>::empty()) == (m1, Seq::<HealthState>::empty()));
        assert(m.run(samples) == (m, Seq::<HealthState>::empty()));
        assert(seq![r] + Seq::<HealthState>::empty() == Seq::<HealthState>::empty().push(r));
    } else {
        let (m1, r) = m.feed(samples[0]);
        assert(t[0] == samples[0]);
        assert(t.drop_first() == samples.drop_first().push(sample));
        lemma_run_push(m1, samples.drop_first(), sample);
        let rs = m1.run(samples.drop_first()).1;
        let last = m1.run(samples.drop_first()).0.feed(sample).1;
        assert(seq![r] + rs.push(last) == (seq![r] + rs).push(last));
    }
}

/// Only the low nibble of a sample matters: a sample and its low 4 bits
/// give the same answer and the same next state.
pub proof fn lemma_only_low_nibble(m: HealthModel, sample: u8)
    ensures
        m.feed(sample) == m.feed(nibble(sample)),
{
    assert(nibble(nibble(sample)) == nibble(sample));
}

/// The start-up count-down: until a failure latches, the `i`-th sample is
/// answered `Startup { remaining: startup_remaining - 1 - i }` while
/// start-up samples remain, and `Healthy` after that. From a fresh test the
/// first 1024 clean answers count down from 1023 to 0.
pub proof fn lemma_startup_countdown(m: HealthModel, samples: Seq<u8>)
    requires
        m.wf(),
        m.failure is None,
    ensures
        m.run(samples).1.len() == samples.len(),
        forall|i: int|
            0 <= i < samples.len() && !(#[trigger] m.run(samples).1[i] is Failed) ==> m.run(
                samples,
            ).1[i] == if i < m.startup_remaining {
                HealthState::Startup { remaining: (m.startup_remaining - 1 - i) as u32 }
            } else {
                HealthState::Healthy
            },
    decreases samples.len(),
{
    lemma_run_keeps_wf(m, samples);
    if samples.len() > 0 {
        let (m1, r) = m.feed(samples[0]);
        let rest = samples.drop_first();
        lemma_feed_keeps_wf(m, samples[0]);
        if m1.failure is Some {
            lemma_failure_latches(m1, rest);
            assert forall|i: int|
                0 <= i < samples.len() && !(#[trigger] m.run(samples).1[i] is Failed) implies m.run(
                samples,
            ).1[i] == if i < m.startup_remaining {
                HealthState::Startup { remaining: (m.startup_remaining - 1 - i) as u32 }
            } else {
                HealthState::Healthy
            } by {
                if i > 0 {
                    assert(m.run(samples).1[i] == m1.run(rest).1[i - 1]);
                }
            }
        } else {
            lemma_startup_countdown(m1, rest);
            assert forall|i: int|
                0 <= i < samples.len() && !(#[trigger] m.run(samples).1[i] is Failed) implies m.run(
                samples,
            ).1[i] == if i < m.startup_remaining {
                HealthState::Startup { remaining: (m.startup_remaining - 1 - i) as u32 }
            } else {
                HealthState::Healthy
            } by {
                if i > 0 {
                    assert(m.run(samples).1[i] == m1.run(rest).1[i - 1]);
                }
            }
        }
    }
}

/// Length of the run of equal nibbles at the end of `t`.
pub open spec fn trailing_run(t: Seq<u8>) -> nat
    decreases t.len(),
{
    if t.len() == 0 {
        0
    } else if t.len() == 1 {
        1
    } else if nibble(t[t.len() - 1]) == nibble(t[t.len() - 2]) {
        trailing_run(t.drop_last()) + 1
    } else {
        1
    }
}

/// Whether the last `RCT_CUTOFF` samples of `t` all have the same nibble.
pub open spec fn ends_in_rct_run(t: Seq<u8>) -> bool {
    &&& t.len() >= RCT_CUTOFF
    &&& forall|i: int|
        t.len() - RCT_CUTOFF <= i < t.len() ==> nibble(#[trigger] t[i]) == nibble(t[t.len() - 1])
}

/// Start of the APT window that the `n`-th sample (from 0) of a stream
/// belongs to: windows are `APT_WINDOW` samples long, from the first sample.
pub open spec fn window_start(n: int) -> int {
    n - n % (APT_WINDOW as int)
}

/// Number of samples in `s` whose nibble is `v`, counted from the back.
proof fn lemma_count_nibble_push(s: Seq<u8>, x: u8, v: u8)
    ensures
        count_nibble(s.push(x), v) == count_nibble(s, v) + if nibble(x) == v {
            1nat
        } else {
            0nat
        },
    decreases s.len(),
{
    if s.len() == 0 {
        assert(s.push(x).drop_first() == Seq::<u8>::empty());
        assert(s.push(x)[0] == x);
        assert(count_nibble(Seq::<u8>::empty(), v) == 0);
        assert(s == Seq::<u8>::empty());
    } else {
        assert(s.push(x).drop_first() == s.drop_first().push(x));
        assert(s.push(x)[0] == s[0]);
        lemma_count_nibble_push(s.drop_first(), x, v);
    }
}

proof fn lemma_trailing_run(t: Seq<u8>, k: nat)
    requires
        1 <= k,
    ensures
        trailing_run(t) >= k <==> (t.len() >= k && forall|i: int|
            t.len() - k <= i < t.len() ==> nibble(#[trigger] t[i]) == nibble(t[t.len() - 1])),
    decreases t.len(),
{
    let n = t.len() as int;
    if n >= 2 {
        let u = t.drop_last();
        if k >= 2 {
            lemma_trailing_run(u, (k - 1) as nat);
        }
        if nibble(t[n - 1]) == nibble(t[n - 2]) {
            if (t.len() >= k && forall|i: int| n - k <= i < n ==> nibble(#[trigger] t[i]) == nibble(t[n - 1])) {
                if k >= 2 {
                    assert forall|i: int| u.len() - (k - 1) <= i < u.len() implies nibble(#[trigger] u[i])
                        == nibble(u[u.len() - 1]) by {
                        assert(u[i] == t[i]);
                        assert(nibble(t[i]) == nibble(t[n - 1]));
                        assert(nibble(t[n - 2]) == nibble(t[n - 1]));
                    }
                }
            }
            if trailing_run(t) >= k && k >= 2 {
                assert forall|i: int| n - k <= i < n implies nibble(#[trigger] t[i]) == nibble(
                    t[n - 1],
                ) by {
                    if i < n - 1 {
                        assert(t[i] == u[i]);
                    }
                }
            }
        } else {
            if k >= 2 && t.len() >= k && (forall|i: int|
                n - k <= i < n ==> nibble(#[trigger] t[i]) == nibble(t[n - 1])) {
                assert(nibble(t[n - 2]) == nibble(t[n - 1]));
            }
        }
    }
}

/// What a test started fresh holds after a stream of samples without a
/// failure: the RCT run is the stream's trailing run, the APT works on the
/// window of `APT_WINDOW` samples the stream is in (reference = its first
/// nibble, count = occurrences of the reference so far), and the start-up
/// count-down has advanced by the stream's length.
pub proof fn lemma_fresh_run_state(t: Seq<u8>)
    ensures
        ({
            let m = fresh_model().run(t).0;
            let n = t.len() as int;
            let ws = window_start(n);
            m.failure is None ==> {
                &&& m.wf()
                &&& m.rct_primed == (n > 0)
                &&& n > 0 ==> m.rct_last == nibble(t[n - 1]) && m.rct_run == trailing_run(t)
                &&& m.apt_primed == (n % (APT_WINDOW as int) != 0)
                &&& n % (APT_WINDOW as int) != 0 ==> {
                    &&& m.apt_pos == n % (APT_WINDOW as int)
                    &&& m.apt_ref == nibble(t[ws])
                    &&& m.apt_count == count_nibble(t.subrange(ws, n), m.apt_ref)
                }
                &&& m.startup_remaining == if n >= STARTUP_SAMPLES {
                    0
                } else {
                    STARTUP_SAMPLES - n
                }
            }
        }),
    decreases t.len(),
{
    let n = t.len() as int;
    lemma_run_keeps_wf(fresh_model(), t);
    if n == 0 {
        assert(fresh_model().run(t).0 == fresh_model());
    } else {
        let t0 = t.drop_last();
        let x = t[n - 1];
        assert(t0.push(x) == t);
        lemma_run_push(fresh_model(), t0, x);
        lemma_fresh_run_state(t0);
        let m0 = fresh_model().run(t0).0;
        let m = fresh_model().run(t).0;
        if m0.failure is Some {
            assert(m.failure is Some);
        }
        if m.failure is None {
            let n0 = n - 1;
            let w = APT_WINDOW as int;
            if n0 >= 1 {
                assert(t0[n0 - 1] == t[n0 - 1]);
                assert(t.drop_last() == t0);
            }
            if n0 % w == 0 {
                assert(n % w == 1);
                assert(window_start(n) == n0);
                assert(t.subrange(n0, n) == Seq::<u8>::empty().push(x));
                lemma_count_nibble_push(Seq::<u8>::empty(), x, nibble(x));
            } else {
                let ws0 = window_start(n0);
                assert(n0 % w + 1 < w ==> n % w == n0 % w + 1);
                assert(n0 % w + 1 == w ==> n % w == 0);
                if n % w != 0 {
                    assert(window_start(n) == ws0);
                    assert(t[ws0] == t0[ws0]);
                    assert(t.subrange(ws0, n) == t0.subrange(ws0, n0).push(x));
                    lemma_count_nibble_push(t0.subrange(ws0, n0), x, m0.apt_ref);
                }
            }
        }
    }
}

/// The repetition test fires exactly when the last `RCT_CUTOFF` samples of
/// the stream (the new one included) have the same nibble: on a test
/// started fresh that has not failed, a sample is answered with an RCT
/// failure if and only if it completes such a run, and the failure carries
/// that nibble and the run `RCT_CUTOFF`.
pub proof fn lemma_rct_fires_iff(prefix: Seq<u8>, sample: u8)
    requires
        fresh_model().run(prefix).0.failure is None,
    ensures
        ({
            let m = fresh_model().run(prefix).0;
            let t = prefix.push(sample);
            &&& (m.feed(sample).1 is Failed && m.feed(sample).0.failure->0 is Rct) <==> ends_in_rct_run(t)
            &&& ends_in_rct_run(t) ==> m.feed(sample).1 == HealthState::Failed(
                FailReason::Rct { value: nibble(sample), run: RCT_CUTOFF },
            )
        }),
{
    let t = prefix.push(sample);
    lemma_fresh_run_state(prefix);
    lemma_trailing_run(t, RCT_CUTOFF as nat);
    let n = prefix.len() as int;
    assert(t[n] == sample);
    if n >= 1 {
        assert(t.drop_last() == prefix);
        assert(t[n - 1] == prefix[n - 1]);
    }
}

/// The proportion test fires exactly when the RCT does not, the new sample's
/// nibble is the reference of its window (the window's first nibble), and
/// that reference has now occurred `APT_CUTOFF` times in the window (the
/// reference itself counted); the failure then carries that nibble and the
/// count `APT_CUTOFF`.
pub proof fn lemma_apt_fires_iff(prefix: Seq<u8>, sample: u8)
    requires
        fresh_model().run(prefix).0.failure is None,
    ensures
        ({
            let m = fresh_model().run(prefix).0;
            let t = prefix.push(sample);
            let ws = window_start(prefix.len() as int);
            let w = t.subrange(ws, t.len() as int);
            let apt = !ends_in_rct_run(t) && nibble(sample) == nibble(w[0]) && count_nibble(
                w,
                nibble(w[0]),
            ) == APT_CUTOFF;
            &&& (m.feed(sample).1 is Failed && m.feed(sample).0.failure->0 is Apt) <==> apt
            &&& apt ==> m.feed(sample).1 == HealthState::Failed(
                FailReason::Apt { value: nibble(sample), count: APT_CUTOFF },
            )
        }),
{
    let t = prefix.push(sample);
    let n = prefix.len() as int;
    let ws = window_start(n);
    let w = t.subrange(ws, n + 1);
    let m = fresh_model().run(prefix).0;
    lemma_rct_fires_iff(prefix, sample);
    lemma_fresh_run_state(prefix);
    assert(w[0] == t[ws]);
    if n % (APT_WINDOW as int) == 0 {
        assert(ws == n);
        assert(w == Seq::<u8>::empty().push(sample));
        lemma_count_nibble_push(Seq::<u8>::empty(), sample, nibble(sample));
    } else {
        assert(t[ws] == prefix[ws]);
        assert(w == prefix.subrange(ws, n).push(sample));
        lemma_count_nibble_push(prefix.subrange(ws, n), sample, m.apt_ref);
    }
}

} // verus!
