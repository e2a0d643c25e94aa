//! HMAC_DRBG (SP 800-90A, HMAC-SHA256): the speed layer.
//!
//! The DRBG does NOT produce entropy: its output is a deterministic
//! expansion of its seed. The device therefore offers two modes, RAW (the
//! conditioner's output) and DRBG (this module).
//!
//! Algorithm (SP 800-90A 10.1.2):
//!
//!   update(data):
//!       K = HMAC(K, V || 0x00 || data)
//!       V = HMAC(K, V)
//!       if data is not empty:
//!           K = HMAC(K, V || 0x01 || data)
//!           V = HMAC(K, V)
//!
//!   instantiate(seed):  K = 0x00*32 ; V = 0x01*32 ; update(seed)
//!   generate(out):      V = HMAC(K, V) repeatedly -> output ; update(empty)
//!   reseed(seed):       update(seed) ; counter = 1
//!
//! The `update(empty)` after generating gives backtracking resistance.
use vstd::prelude::*;

use crate::entropy::mac::{hmac_sha256, hmac_sha256_tag, MAC_LEN};

verus! {

/// Length of K and V in bytes.
pub const SEEDLEN: usize = 32;

/// Generations allowed between two seedings (SP 800-90A allows 2^48; this
/// device reseeds far more often because fresh entropy keeps flowing).
pub const RESEED_INTERVAL: u64 = 1024;

/// Why `generate` refused.
#[derive(Debug, Copy, Clone, PartialEq, Eq, Structural)]
pub enum DrbgError {
    /// Output was asked for before the first seeding.
    NotSeeded,
    /// The reseed interval is used up; fresh entropy is needed first.
    ReseedRequired,
}

/// The state of an HMAC_DRBG, as a value.
pub struct DrbgModel {
    pub k: Seq<u8>,
    pub v: Seq<u8>,
    pub seeded: bool,
    /// Generations since the last seeding, plus one.
    pub reseed_counter: u64,
    /// Bytes produced in total.
    pub bytes_out: u64,
    /// Number of seedings.
    pub seed_count: u64,
}

/// `n` copies of the byte `b`.
pub open spec fn bytes_of(b: u8, n: nat) -> Seq<u8> {
    Seq::new(n, |i: int| b)
}

/// The SP 800-90A update function: new (K, V) after absorbing `data`.
pub open spec fn drbg_update(k: Seq<u8>, v: Seq<u8>, data: Seq<u8>) -> (Seq<u8>, Seq<u8>) {
    let k1 = hmac_sha256(k, v + seq![0x00u8] + data);
    let v1 = hmac_sha256(k1, v);
    if data.len() == 0 {
        (k1, v1)
    } else {
        let k2 = hmac_sha256(k1, v1 + seq![0x01u8] + data);
        (k2, hmac_sha256(k2, v1))
    }
}

/// The first `n` output bytes under key `k` starting from `v`: the blocks
/// HMAC(K, V), HMAC(K, HMAC(K, V)), ... concatenated and cut to `n` bytes,
/// together with the last V.
pub open spec fn drbg_blocks(k: Seq<u8>, v: Seq<u8>, n: nat) -> (Seq<u8>, Seq<u8>)
    decreases n,
{
    if n == 0 {
        (Seq::empty(), v)
    } else {
        let v1 = hmac_sha256(k, v);
        let take: nat = if n < SEEDLEN {
            n
        } else {
            SEEDLEN as nat
        };
        let (rest, vf) = drbg_blocks(k, v1, (n - take) as nat);
        (v1.take(take as int) + rest, vf)
    }
}

impl DrbgModel {
    /// First seeding: K and V start from fixed constants, so the result
    /// depends only on the seed.
    pub open spec fn instantiate(self, seed: Seq<u8>) -> DrbgModel {
        let (k, v) = drbg_update(bytes_of(0x00, SEEDLEN as nat), bytes_of(0x01, SEEDLEN as nat), seed);
        DrbgModel {
            k,
            v,
            seeded: true,
            reseed_counter: 1,
            seed_count: (self.seed_count + 1) as u64,
            ..self
        }
    }

    /// Seeding with fresh entropy: the first seeding instantiates, later ones
    /// mix the seed into the current state.
    pub open spec fn reseed(self, seed: Seq<u8>) -> DrbgModel {
        if !self.seeded {
            self.instantiate(seed)
        } else {
            let (k, v) = drbg_update(self.k, self.v, seed);
            DrbgModel { k, v, reseed_counter: 1, seed_count: (self.seed_count + 1) as u64, ..self }
        }
    }

    /// Whether generation is refused until the next seeding.
    pub open spec fn needs_reseed(self) -> bool {
        !self.seeded || self.reseed_counter >= RESEED_INTERVAL
    }

    /// One generation of `n` bytes: the next state and the bytes, or the
    /// reason for refusing (the state is then unchanged).
    pub open spec fn generate(self, n: nat) -> (DrbgModel, Result<Seq<u8>, DrbgError>) {
        if !self.seeded {
            (self, Err(DrbgError::NotSeeded))
        } else if self.reseed_counter >= RESEED_INTERVAL {
            (self, Err(DrbgError::ReseedRequired))
        } else {
            let (out, vf) = drbg_blocks(self.k, self.v, n);
            let (k, v) = drbg_update(self.k, vf, Seq::empty());
            (
                DrbgModel {
                    k,
                    v,
                    reseed_counter: (self.reseed_counter + 1) as u64,
                    bytes_out: (self.bytes_out + n) as u64,
                    ..self
                },
                Ok(out),
            )
        }
    }

    /// A series of generations with the given lengths: the final state and
    /// each result, in order.
    pub open spec fn generate_all(self, lens: Seq<nat>) -> (
        DrbgModel,
        Seq<Result<Seq<u8>, DrbgError>>,
    )
        decreases lens.len(),
    {
        if lens.len() == 0 {
            (self, Seq::empty())
        } else {
            let (m1, r) = self.generate(lens[0]);
            let (mf, rs) = m1.generate_all(lens.drop_first());
            (mf, seq![r] + rs)
        }
    }
}

/// HMAC_DRBG with HMAC-SHA256.
pub struct HmacDrbg {
    k: [u8; SEEDLEN],
    v: [u8; SEEDLEN],
    seeded: bool,
    /// Generations since the last seeding, plus one.
    pub reseed_counter: u64,
    /// Bytes produced in total (telemetry).
    pub bytes_out: u64,
    /// Number of seedings (telemetry).
    pub seed_count: u64,
}

impl View for HmacDrbg {
    type V = DrbgModel;

    closed spec fn view(&self) -> DrbgModel {
        DrbgModel {
            k: self.k@,
            v: self.v@,
            seeded: self.seeded,
            reseed_counter: self.reseed_counter,
            bytes_out: self.bytes_out,
            seed_count: self.seed_count,
        }
    }
}

/// `v || sep || data`: the message HMAC-ed by the update function.
pub fn update_message(v: &[u8; SEEDLEN], sep: u8, data: &[u8]) -> (msg: Vec<u8>)
    ensures
        msg@ == v@ + seq![sep] + data@,
{
    let mut msg: Vec<u8> = Vec::new();
    let mut i: usize = 0;
    while i < SEEDLEN
        invariant
            i <= SEEDLEN,
            msg@ == v@.take(i as int),
        decreases SEEDLEN - i,
    {
        msg.push(v[i]);
        i = i + 1;
        assert(msg@ == v@.take(i as int));
    }
    assert(v@.take(SEEDLEN as int) == v@);
    msg.push(sep);
    let mut j: usize = 0;
    while j < data.len()
        invariant
            j <= data@.len(),
            msg@ == v@ + seq![sep] + data@.take(j as int),
        decreases data@.len() - j,
    {
        msg.push(data[j]);
        j = j + 1;
        assert(msg@ == v@ + seq![sep] + data@.take(j as int));
    }
    assert(data@.take(data@.len() as int) == data@);
    msg
}

/// Copies the first `n = min(SEEDLEN, out.len() - at)` bytes of `block`
/// into `out` at offset `at` and returns `n`; nothing else in `out` changes.
pub fn place_block(out: &mut [u8], at: usize, block: &[u8; SEEDLEN]) -> (n: usize)
    requires
        at < old(out)@.len(),
    ensures
        n == if old(out)@.len() - at < SEEDLEN {
            old(out)@.len() - at
        } else {
            SEEDLEN as int
        },
        final(out)@ == old(out)@.take(at as int) + block@.take(n as int) + old(out)@.skip(at + n),
{
    let len = out.len();
    let n = if len - at < SEEDLEN {
        len - at
    } else {
        SEEDLEN
    };
    let ghost before = out@;
    let mut j: usize = 0;
    assert(out@ == before.take(at as int) + block@.take(0) + before.skip(at as int));
    while j < n
        invariant
            n <= SEEDLEN,
            at + n <= len,
            len == out@.len(),
            len == before.len(),
            block@.len() == SEEDLEN,
            j <= n,
            out@ == before.take(at as int) + block@.take(j as int) + before.skip(at + j),
        decreases n - j,
    {
        let ghost prev = out@;
        out[at + j] = block[j];
        j = j + 1;
        proof {
            let want = before.take(at as int) + block@.take(j as int) + before.skip(at + j);
            assert(want.len() == len);
            assert forall|k: int| 0 <= k < len implies out@[k] == want[k] by {
                if k < at {
                    assert(out@[k] == prev[k]);
                } else if k < at + j - 1 {
                    assert(out@[k] == prev[k]);
                } else if k == at + j - 1 {
                    assert(out@[k] == block@[j - 1]);
                } else {
                    assert(out@[k] == prev[k]);
                }
            }
            assert(out@ =~= want);
        }
    }
    n
}

impl HmacDrbg {
    /// An unseeded DRBG; `generate` refuses until it is seeded.
    pub fn new() -> (d: Self)
        ensures
            d@.seeded == false,
            d@.k == bytes_of(0x00, SEEDLEN as nat),
            d@.v == bytes_of(0x00, SEEDLEN as nat),
            d@.reseed_counter == 0,
            d@.bytes_out == 0,
            d@.seed_count == 0,
    {
        let d = HmacDrbg {
            k: [0u8; SEEDLEN],
            v: [0u8; SEEDLEN],
            seeded: false,
            reseed_counter: 0,
            bytes_out: 0,
            seed_count: 0,
        };
        assert(d@.k == bytes_of(0x00, SEEDLEN as nat));
        assert(d@.v == bytes_of(0x00, SEEDLEN as nat));
        d
    }

    /// HMAC-SHA256 under `key` of `v || sep || data`.
    fn hmac_cat(key: &[u8; SEEDLEN], v: &[u8; SEEDLEN], sep: u8, data: &[u8]) -> (t: [u8; SEEDLEN])
        ensures
            t@ == hmac_sha256(key@, v@ + seq![sep] + data@),
            t@.len() == SEEDLEN,
    {
        let msg = update_message(v, sep, data);
        hmac_sha256_tag(key, msg.as_slice())
    }

    /// The SP 800-90A update function.
    fn update(&mut self, data: Option<&[u8]>)
        ensures
            ({
                let d: Seq<u8> = match data {
                    Some(d) => d@,
                    None => Seq::empty(),
                };
                (final(self)@.k, final(self)@.v) == drbg_update(old(self)@.k, old(self)@.v, d)
            }),
            final(self)@.seeded == old(self)@.seeded,
            final(self)@.reseed_counter == old(self)@.reseed_counter,
            final(self)@.bytes_out == old(self)@.bytes_out,
            final(self)@.seed_count == old(self)@.seed_count,
    {
        let empty: [u8; 0] = [];
        let d: &[u8] = match data {
            Some(d) => d,
            None => &empty,
        };
        assert(empty@ == Seq::<u8>::empty());
        self.k = Self::hmac_cat(&self.k, &self.v, 0x00, d);
        self.v = hmac_sha256_tag(&self.k, &self.v);
        if d.len() != 0 {
            self.k = Self::hmac_cat(&self.k, &self.v, 0x01, d);
            self.v = hmac_sha256_tag(&self.k, &self.v);
        }
    }

    /// First seeding.
    pub fn instantiate(&mut self, seed: &[u8])
        requires
            old(self)@.seed_count < u64::MAX,
        ensures
            final(self)@ == old(self)@.instantiate(seed@),
    {
        self.k = [0x00u8; SEEDLEN];
        self.v = [0x01u8; SEEDLEN];
        assert(self.k@ == bytes_of(0x00, SEEDLEN as nat));
        assert(self.v@ == bytes_of(0x01, SEEDLEN as nat));
        self.update(Some(seed));
        self.seeded = true;
        self.reseed_counter = 1;
        self.seed_count = self.seed_count + 1;
    }

    /// Seeding with fresh entropy.
    pub fn reseed(&mut self, seed: &[u8])
        requires
            old(self)@.seed_count < u64::MAX,
        ensures
            final(self)@ == old(self)@.reseed(seed@),
    {
        if !self.seeded {
            self.instantiate(seed);
            return;
        }
        self.update(Some(seed));
        self.reseed_counter = 1;
        self.seed_count = self.seed_count + 1;
    }

    /// Generations since the last seeding, plus one.
    pub fn reseed_counter(&self) -> (n: u64)
        ensures
            n == self@.reseed_counter,
    {
        self.reseed_counter
    }

    /// Bytes produced so far.
    pub fn bytes_out(&self) -> (n: u64)
        ensures
            n == self@.bytes_out,
    {
        self.bytes_out
    }

    /// Number of seedings so far.
    pub fn seed_count(&self) -> (n: u64)
        ensures
            n == self@.seed_count,
    {
        self.seed_count
    }

    /// Whether the DRBG has been seeded.
    pub fn is_seeded(&self) -> (b: bool)
        ensures
            b == self@.seeded,
    {
        self.seeded
    }

    /// Whether `generate` refuses until the next seeding.
    pub fn needs_reseed(&self) -> (b: bool)
        ensures
            b == self@.needs_reseed(),
    {
        !self.seeded || self.reseed_counter >= RESEED_INTERVAL
    }

    /// Fills `out` with output.
    ///
    /// When the reseed interval is used up this returns `ReseedRequired` and
    /// produces NOTHING; the buffer and the state stay as they were.
    pub fn generate(&mut self, out: &mut [u8]) -> (r: Result<(), DrbgError>)
        requires
            !old(self)@.needs_reseed() ==> old(self)@.bytes_out + old(out)@.len() <= u64::MAX,
        ensures
            final(out)@.len() == old(out)@.len(),
            ({
                let (m, res) = old(self)@.generate(old(out)@.len());
                &&& final(self)@ == m
                &&& match res {
                    Ok(bytes) => r is Ok && final(out)@ == bytes,
                    Err(e) => r == Err::<(), DrbgError>(e) && final(out)@ == old(out)@,
                }
            }),
    {
        if !self.seeded {
            return Err(DrbgError::NotSeeded);
        }
        if self.reseed_counter >= RESEED_INTERVAL {
            return Err(DrbgError::ReseedRequired);
        }
        let ghost k0 = self.k@;
        let ghost v0 = self.v@;
        let ghost total = out@.len();
        let len = out.len();
        let mut written: usize = 0;
        while written < len
            invariant
                len == out@.len(),
                total == len,
                written <= len,
                self.k@ == k0,
                self@.seeded == old(self)@.seeded,
                self@.reseed_counter == old(self)@.reseed_counter,
                self@.bytes_out == old(self)@.bytes_out,
                self@.seed_count == old(self)@.seed_count,
                drbg_blocks(k0, v0, total) == (
                    out@.take(written as int) + drbg_blocks(k0, self.v@, (total - written) as nat).0,
                    drbg_blocks(k0, self.v@, (total - written) as nat).1,
                ),
            decreases len - written,
        {
            let ghost v_prev = self.v@;
            let ghost before = out@;
            self.v = hmac_sha256_tag(&self.k, &self.v);
            let n = place_block(out, written, &self.v);
            proof {
                assert(out@.take(written as int) == before.take(written as int));
                assert(out@.subrange(written as int, written + n) == self.v@.take(n as int));
                let rem = (total - written) as nat;
                assert(drbg_blocks(k0, v_prev, rem) == (
                    self.v@.take(n as int) + drbg_blocks(k0, self.v@, (rem - n) as nat).0,
                    drbg_blocks(k0, self.v@, (rem - n) as nat).1,
                ));
                assert(out@.take(written + n) == out@.take(written as int) + self.v@.take(
                    n as int,
                ));
            }
            written = written + n;
        }
        proof {
            assert(out@.take(len as int) == out@);
        }
        self.update(None);
        self.reseed_counter = self.reseed_counter + 1;
        self.bytes_out = self.bytes_out + len as u64;
        Ok(())
    }
}

impl Default for HmacDrbg {
    /// The same unseeded DRBG as `new()`.
    fn default() -> (d: Self)
        ensures
            d@.seeded == false,
            d@.reseed_counter == 0,
            d@.bytes_out == 0,
            d@.seed_count == 0,
    {
        Self::new()
    }
}

/// Instantiation forgets the previous state: two DRBGs instantiated with the
/// same seed have the same K, V and counter, whatever they held before.
pub proof fn lemma_instantiate_depends_only_on_seed(m1: DrbgModel, m2: DrbgModel, seed: Seq<u8>)
    ensures
        m1.instantiate(seed).k == m2.instantiate(seed).k,
        m1.instantiate(seed).v == m2.instantiate(seed).v,
        m1.instantiate(seed).seeded && m2.instantiate(seed).seeded,
        m1.instantiate(seed).reseed_counter == 1,
        m2.instantiate(seed).reseed_counter == 1,
{
}

/// Same seed, same stream: after instantiation with the same seed, the same
/// series of requests gives the same results.
pub proof fn lemma_same_seed_same_stream(
    m1: DrbgModel,
    m2: DrbgModel,
    seed: Seq<u8>,
    lens: Seq<nat>,
)
    ensures
        m1.instantiate(seed).generate_all(lens).1 == m2.instantiate(seed).generate_all(lens).1,
{
    lemma_generate_all_ignores_counters(m1.instantiate(seed), m2.instantiate(seed), lens);
}

/// The results of a series of generations depend only on K, V, whether the
/// DRBG is seeded and its reseed counter, not on the telemetry counters.
proof fn lemma_generate_all_ignores_counters(m1: DrbgModel, m2: DrbgModel, lens: Seq<nat>)
    requires
        m1.k == m2.k,
        m1.v == m2.v,
        m1.seeded == m2.seeded,
        m1.reseed_counter == m2.reseed_counter,
    ensures
        m1.generate_all(lens).1 == m2.generate_all(lens).1,
    decreases lens.len(),
{
    if lens.len() > 0 {
        lemma_generate_all_ignores_counters(
            m1.generate(lens[0]).0,
            m2.generate(lens[0]).0,
            lens.drop_first(),
        );
    }
}

/// Generation is refused exactly when `needs_reseed` says so, and a refusal
/// changes nothing.
pub proof fn lemma_refused_iff_needs_reseed(m: DrbgModel, n: nat)
    ensures
        m.generate(n).1 is Err <==> m.needs_reseed(),
        m.generate(n).1 is Err ==> m.generate(n).0 == m,
        m.generate(n).1 == Err::<Seq<u8>, DrbgError>(DrbgError::NotSeeded) <==> !m.seeded,
{
}

/// The reseed interval is enforced: after a seeding, exactly
/// `RESEED_INTERVAL - 1` generations succeed and every later one is refused
/// with `ReseedRequired` until the next seeding.
pub proof fn lemma_reseed_interval(m: DrbgModel, seed: Seq<u8>, lens: Seq<nat>)
    ensures
        m.reseed(seed).generate_all(lens).1.len() == lens.len(),
        forall|i: int|
            0 <= i < lens.len() ==> (#[trigger] m.reseed(seed).generate_all(lens).1[i] is Ok <==> i
                < RESEED_INTERVAL - 1),
        forall|i: int|
            0 <= i < lens.len() && i >= RESEED_INTERVAL - 1 ==> #[trigger] m.reseed(
                seed,
            ).generate_all(lens).1[i] == Err::<Seq<u8>, DrbgError>(DrbgError::ReseedRequired),
{
    lemma_counter_run(m.reseed(seed), lens);
}

/// From a seeded state with counter `c`, the `i`-th of a series of
/// generations succeeds exactly when `c + i < RESEED_INTERVAL`.
proof fn lemma_counter_run(m: DrbgModel, lens: Seq<nat>)
    requires
        m.seeded,
        m.reseed_counter <= RESEED_INTERVAL,
    ensures
        m.generate_all(lens).1.len() == lens.len(),
        forall|i: int|
            0 <= i < lens.len() ==> (#[trigger] m.generate_all(lens).1[i] is Ok <==> m.reseed_counter
                + i < RESEED_INTERVAL),
        forall|i: int|
            0 <= i < lens.len() && m.reseed_counter + i >= RESEED_INTERVAL
                ==> #[trigger] m.generate_all(lens).1[i] == Err::<Seq<u8>, DrbgError>(
                DrbgError::ReseedRequired,
            ),
    decreases lens.len(),
{
    if lens.len() > 0 {
        let m1 = m.generate(lens[0]).0;
        let rest = lens.drop_first();
        lemma_counter_run(m1, rest);
        assert forall|i: int| 0 <= i < lens.len() implies (#[trigger] m.generate_all(lens).1[i]
            is Ok <==> m.reseed_counter + i < RESEED_INTERVAL) && (m.reseed_counter + i
            >= RESEED_INTERVAL ==> m.generate_all(lens).1[i] == Err::<Seq<u8>, DrbgError>(
            DrbgError::ReseedRequired,
        )) by {
            if i > 0 {
                assert(m.generate_all(lens).1[i] == m1.generate_all(rest).1[i - 1]);
            }
        }
    }
}

/// One call on a DRBG, as a value.
pub enum DrbgCall {
    Instantiate(Seq<u8>),
    Reseed(Seq<u8>),
    Generate(nat),
}

impl DrbgModel {
    /// One call: the next state, and for a generation its result.
    pub open spec fn call(self, c: DrbgCall) -> (DrbgModel, Option<Result<Seq<u8>, DrbgError>>) {
        match c {
            DrbgCall::Instantiate(seed) => (self.instantiate(seed), None),
            DrbgCall::Reseed(seed) => (self.reseed(seed), None),
            DrbgCall::Generate(n) => {
                let (m, r) = self.generate(n);
                (m, Some(r))
            },
        }
    }

    /// A sequence of calls: the final state and each call's result.
    pub open spec fn call_all(self, calls: Seq<DrbgCall>) -> (
        DrbgModel,
        Seq<Option<Result<Seq<u8>, DrbgError>>>,
    )
        decreases calls.len(),
    {
        if calls.len() == 0 {
            (self, Seq::empty())
        } else {
            let (m1, r) = self.call(calls[0]);
            let (mf, rs) = m1.call_all(calls.drop_first());
            (mf, seq![r] + rs)
        }
    }

    /// The part of the state that decides all later results.
    pub open spec fn same_core(self, other: DrbgModel) -> bool {
        &&& self.k == other.k
        &&& self.v == other.v
        &&& self.seeded == other.seeded
        &&& self.reseed_counter == other.reseed_counter
    }
}

/// Whether a call sequence contains a seeding call.
pub open spec fn has_seeding(calls: Seq<DrbgCall>) -> bool {
    exists|i: int| 0 <= i < calls.len() && !(#[trigger] calls[i] is Generate)
}

/// Two DRBGs that agree on K, V, the seeded flag and the reseed counter give
/// the same results for the same calls, and still agree afterwards.
pub proof fn lemma_same_core_same_results(m1: DrbgModel, m2: DrbgModel, calls: Seq<DrbgCall>)
    requires
        m1.same_core(m2),
    ensures
        m1.call_all(calls).1 == m2.call_all(calls).1,
        m1.call_all(calls).0.same_core(m2.call_all(calls).0),
    decreases calls.len(),
{
    if calls.len() > 0 {
        lemma_same_core_same_results(m1.call(calls[0]).0, m2.call(calls[0]).0, calls.drop_first());
    }
}

/// Determinism with reseeds: two DRBGs in any states, instantiated with the
/// same seed and then given the same sequence of instantiate, reseed and
/// generate calls, return the same results (the same bytes) for every call.
pub proof fn lemma_same_calls_same_stream(
    m1: DrbgModel,
    m2: DrbgModel,
    seed: Seq<u8>,
    calls: Seq<DrbgCall>,
)
    ensures
        m1.instantiate(seed).call_all(calls).1 == m2.instantiate(seed).call_all(calls).1,
{
    lemma_same_core_same_results(m1.instantiate(seed), m2.instantiate(seed), calls);
}

/// The seeded flag: starting unseeded, a DRBG is seeded after a call
/// sequence exactly when the sequence contains an instantiate or a reseed;
/// generation, successful or not, never changes the flag.
pub proof fn lemma_seeded_iff_seeding_call(m: DrbgModel, calls: Seq<DrbgCall>)
    requires
        !m.seeded,
    ensures
        m.call_all(calls).0.seeded <==> has_seeding(calls),
    decreases calls.len(),
{
    if calls.len() > 0 {
        let c = calls[0];
        let rest = calls.drop_first();
        let m1 = m.call(c).0;
        if c is Generate {
            assert(!m1.seeded);
            lemma_seeded_iff_seeding_call(m1, rest);
            if has_seeding(calls) {
                let i = choose|i: int| 0 <= i < calls.len() && !(#[trigger] calls[i] is Generate);
                assert(rest[i - 1] == calls[i]);
            }
            if has_seeding(rest) {
                let i = choose|i: int| 0 <= i < rest.len() && !(#[trigger] rest[i] is Generate);
                assert(calls[i + 1] == rest[i]);
            }
        } else {
            assert(m1.seeded);
            lemma_seeded_stays(m1, rest);
            assert(!(calls[0] is Generate));
        }
    }
}

/// Once seeded, a DRBG stays seeded through any calls.
pub proof fn lemma_seeded_stays(m: DrbgModel, calls: Seq<DrbgCall>)
    requires
        m.seeded,
    ensures
        m.call_all(calls).0.seeded,
    decreases calls.len(),
{
    if calls.len() > 0 {
        lemma_seeded_stays(m.call(calls[0]).0, calls.drop_first());
    }
}

/// Reseeding an unseeded DRBG is instantiation: K and V come from the SP
/// 800-90A update of the constant K = 0x00.., V = 0x01.. with the seed.
pub proof fn lemma_reseed_unseeded_instantiates(m: DrbgModel, seed: Seq<u8>)
    requires
        !m.seeded,
    ensures
        m.reseed(seed) == m.instantiate(seed),
        m.reseed(seed).seeded,
        m.reseed(seed).reseed_counter == 1,
        (m.reseed(seed).k, m.reseed(seed).v) == drbg_update(
            bytes_of(0x00, SEEDLEN as nat),
            bytes_of(0x01, SEEDLEN as nat),
            seed,
        ),
{
}

/// Right after an instantiate or a reseed, generation is allowed.
pub proof fn lemma_no_reseed_needed_after_seeding(m: DrbgModel, seed: Seq<u8>)
    ensures
        !m.instantiate(seed).needs_reseed(),
        !m.reseed(seed).needs_reseed(),
{
}

/// Reseeding a seeded DRBG mixes the seed into K and V exactly as SP 800-90A
/// specifies: with K1 = HMAC(K, V || 0x00 || seed) and V1 = HMAC(K1, V), a
/// non-empty seed gives K' = HMAC(K1, V1 || 0x01 || seed) and
/// V' = HMAC(K', V1) (an empty one stops at K1, V1); the reseed counter
/// restarts at 1 and one more seeding is counted.
pub proof fn lemma_reseed_mixes_seed(m: DrbgModel, seed: Seq<u8>)
    requires
        m.seeded,
    ensures
        ({
            let r = m.reseed(seed);
            let k1 = hmac_sha256(m.k, m.v + seq![0x00u8] + seed);
            let v1 = hmac_sha256(k1, m.v);
            &&& seed.len() > 0 ==> r.k == hmac_sha256(k1, v1 + seq![0x01u8] + seed) && r.v
                == hmac_sha256(r.k, v1)
            &&& seed.len() == 0 ==> r.k == k1 && r.v == v1
            &&& r.seeded
            &&& r.reseed_counter == 1
            &&& r.seed_count == m.seed_count + 1 || m.seed_count == u64::MAX
            &&& r.bytes_out == m.bytes_out
        }),
{
}

/// Instantiation starts from K = 0x00.., V = 0x01.. and mixes the seed in
/// as SP 800-90A specifies, whatever the DRBG held before.
pub proof fn lemma_instantiate_mixes_seed(m: DrbgModel, seed: Seq<u8>)
    ensures
        ({
            let r = m.instantiate(seed);
            let k0 = bytes_of(0x00, SEEDLEN as nat);
            let v0 = bytes_of(0x01, SEEDLEN as nat);
            let k1 = hmac_sha256(k0, v0 + seq![0x00u8] + seed);
            let v1 = hmac_sha256(k1, v0);
            &&& seed.len() > 0 ==> r.k == hmac_sha256(k1, v1 + seq![0x01u8] + seed) && r.v
                == hmac_sha256(r.k, v1)
            &&& seed.len() == 0 ==> r.k == k1 && r.v == v1
            &&& r.seeded
            &&& r.reseed_counter == 1
        }),
{
}

} // verus!
