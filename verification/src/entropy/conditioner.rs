//! Entropy conditioner: chained HMAC-SHA256.
//!
//! Compresses low-density raw entropy (about 3.4 bit per byte) into
//! full-density output blocks (8 bit per byte):
//!
//!   state <- HMAC-SHA256(key = state, msg = input block)
//!   output <- state
//!
//! The key is CHAINED: the previous state keys the next block, so entropy
//! accumulates across blocks.
//!
//! Entropy budget: for 256 output bits with a 2x safety margin at least 512
//! input bits are needed: N = ceil(512 / 3.4) = 151, rounded to 160 bytes.
//! 160 x 3.4 = 544 bit >= 512 bit; margin 2.125x.
use vstd::prelude::*;

use crate::entropy::mac::{hmac_sha256, hmac_sha256_tag};

verus! {

/// Output block length (SHA-256 -> 32 bytes).
pub const BLOCK_OUT: usize = 32;

/// Measured min-entropy in bit per input byte, times ten.
pub const H_PER_BYTE_X10: u32 = 34;

/// Wanted input entropy per output bit (safety factor).
pub const SAFETY_FACTOR: u32 = 2;

/// Input bytes per output block: ceil(8 * 32 * 2 * 10 / 34) = 151, rounded
/// up to 160.
pub const BLOCK_IN: usize = 160;

/// Entropy budget margin times 100: (160 x 3.4) / 256 = 2.125, so 212.
pub const BUDGET_X100: u32 = 212;

/// The entropy budget holds: the input entropy of one block
/// (`BLOCK_IN * H_PER_BYTE_X10`, in tenths of a bit) covers the output bits
/// times the safety factor, `BUDGET_X100` is that ratio in hundredths, and it
/// is at least 2.00, the SP 800-90C full-entropy condition.
pub proof fn lemma_entropy_budget()
    ensures
        BLOCK_IN * H_PER_BYTE_X10 >= 8 * BLOCK_OUT * SAFETY_FACTOR * 10,
        BUDGET_X100 == (BLOCK_IN * H_PER_BYTE_X10 * 10) / (8 * BLOCK_OUT),
        BUDGET_X100 >= 200,
        64 * H_PER_BYTE_X10 / 10 < 8 * BLOCK_OUT * SAFETY_FACTOR,
{
}

/// The conditioner's state, as a value.
pub struct ConditionerModel {
    /// Chain state: the key of the next HMAC, and the last output block.
    pub chain: Seq<u8>,
    /// Input bytes waiting for the block to fill.
    pub pending: Seq<u8>,
    /// Blocks produced.
    pub blocks_out: u64,
    /// Bytes absorbed.
    pub bytes_in: u64,
}

/// Chained HMAC over whole blocks: the chain state after absorbing
/// `blocks` (a multiple of `BLOCK_IN` bytes) starting from `chain`.
pub open spec fn chain_over(chain: Seq<u8>, input: Seq<u8>) -> Seq<u8>
    decreases input.len(),
{
    if input.len() < BLOCK_IN {
        chain
    } else {
        chain_over(hmac_sha256(chain, input.take(BLOCK_IN as int)), input.skip(BLOCK_IN as int))
    }
}

impl ConditionerModel {
    /// Bounds every reachable state keeps.
    pub open spec fn wf(self) -> bool {
        self.pending.len() < BLOCK_IN
    }

    /// One input byte: the next state, and the block produced when the
    /// buffer fills.
    pub open spec fn push(self, byte: u8) -> (ConditionerModel, Option<Seq<u8>>) {
        let filled = self.pending.push(byte);
        let bytes_in = (self.bytes_in + 1) as u64;
        if filled.len() < BLOCK_IN {
            (ConditionerModel { pending: filled, bytes_in, ..self }, None)
        } else {
            let out = hmac_sha256(self.chain, filled);
            (
                ConditionerModel {
                    chain: out,
                    pending: Seq::empty(),
                    bytes_in,
                    blocks_out: (self.blocks_out + 1) as u64,
                },
                Some(out),
            )
        }
    }

    /// A stream of input bytes: the final state and the blocks produced.
    pub open spec fn push_all(self, bytes: Seq<u8>) -> (ConditionerModel, Seq<Seq<u8>>)
        decreases bytes.len(),
    {
        if bytes.len() == 0 {
            (self, Seq::empty())
        } else {
            let (m1, r) = self.push(bytes[0]);
            let (mf, blocks) = m1.push_all(bytes.drop_first());
            match r {
                Some(b) => (mf, seq![b] + blocks),
                None => (mf, blocks),
            }
        }
    }
}

/// The state of a freshly built conditioner: a fixed all-zero chain.
pub open spec fn initial_model() -> ConditionerModel {
    ConditionerModel {
        chain: Seq::new(BLOCK_OUT as nat, |i: int| 0u8),
        pending: Seq::empty(),
        blocks_out: 0,
        bytes_in: 0,
    }
}

/// Chained HMAC-SHA256 conditioner.
pub struct Conditioner {
    state: [u8; BLOCK_OUT],
    buf: [u8; BLOCK_IN],
    pos: usize,
    /// Blocks produced (telemetry).
    pub blocks_out: u64,
    /// Bytes absorbed (telemetry).
    pub bytes_in: u64,
}

impl View for Conditioner {
    type V = ConditionerModel;

    closed spec fn view(&self) -> ConditionerModel {
        ConditionerModel {
            chain: self.state@,
            pending: if self.pos <= BLOCK_IN {
                self.buf@.take(self.pos as int)
            } else {
                self.buf@
            },
            blocks_out: self.blocks_out,
            bytes_in: self.bytes_in,
        }
    }
}

impl Conditioner {
    /// A conditioner with a fixed initial state.
    ///
    /// The initial state need not be secret: security comes from the input
    /// entropy, and a fixed start makes the first block reproducible.
    pub fn new() -> (c: Self)
        ensures
            c@ == initial_model(),
            c@.wf(),
    {
        let c = Conditioner {
            state: [0u8; BLOCK_OUT],
            buf: [0u8; BLOCK_IN],
            pos: 0,
            blocks_out: 0,
            bytes_in: 0,
        };
        assert(c@.chain == initial_model().chain);
        assert(c@.pending == Seq::<u8>::empty());
        c
    }

    /// Feeds one raw byte; when the buffer fills, returns the new block.
    pub fn push(&mut self, byte: u8) -> (r: Option<[u8; BLOCK_OUT]>)
        requires
            old(self)@.wf(),
            old(self)@.bytes_in < u64::MAX,
            old(self)@.pending.len() + 1 == BLOCK_IN ==> old(self)@.blocks_out < u64::MAX,
        ensures
            final(self)@.wf(),
            ({
                let (m, out) = old(self)@.push(byte);
                &&& final(self)@ == m
                &&& match out {
                    Some(b) => r is Some && r->0@ == b,
                    None => r is None,
                }
            }),
    {
        proof {
            assert(self@.pending.len() == self.pos);
        }
        let ghost before = self@;
        self.buf[self.pos] = byte;
        self.pos = self.pos + 1;
        self.bytes_in = self.bytes_in + 1;
        proof {
            assert(self.buf@.take(self.pos as int) == before.pending.push(byte));
        }
        if self.pos < BLOCK_IN {
            return None;
        }
        self.pos = 0;
        proof {
            assert(self.buf@ == before.pending.push(byte));
        }
        let out = self.absorb();
        proof {
            assert(self@.pending == Seq::<u8>::empty());
        }
        Some(out)
    }

    /// Absorbs the full buffer, advances the chain and returns the new state.
    fn absorb(&mut self) -> (out: [u8; BLOCK_OUT])
        requires
            old(self).blocks_out < u64::MAX,
        ensures
            out@ == hmac_sha256(old(self).state@, old(self).buf@),
            final(self).state@ == out@,
            final(self).buf@ == old(self).buf@,
            final(self).pos == old(self).pos,
            final(self).bytes_in == old(self).bytes_in,
            final(self).blocks_out == old(self).blocks_out + 1,
    {
        let out = hmac_sha256_tag(&self.state, &self.buf);
        self.state = out;
        self.blocks_out = self.blocks_out + 1;
        self.state
    }

    /// Blocks produced so far.
    pub fn blocks_out(&self) -> (n: u64)
        ensures
            n == self@.blocks_out,
    {
        self.blocks_out
    }

    /// Bytes absorbed so far.
    pub fn bytes_in(&self) -> (n: u64)
        ensures
            n == self@.bytes_in,
    {
        self.bytes_in
    }

    /// Bytes waiting in the buffer.
    pub fn pending(&self) -> (n: usize)
        requires
            self@.wf(),
        ensures
            n == self@.pending.len(),
    {
        proof {
            self.lemma_pending_len();
        }
        self.pos
    }

    /// Bytes still needed for the next block.
    pub fn remaining(&self) -> (n: usize)
        requires
            self@.wf(),
        ensures
            n == BLOCK_IN - self@.pending.len(),
            1 <= n <= BLOCK_IN,
    {
        proof {
            self.lemma_pending_len();
        }
        BLOCK_IN - self.pos
    }

    /// The min-entropy absorbed so far, in bits (3.4 bit per byte, rounded
    /// down).
    pub fn absorbed_entropy_bits(&self) -> (bits: u64)
        requires
            self@.bytes_in * H_PER_BYTE_X10 <= u64::MAX,
        ensures
            bits == self@.bytes_in * H_PER_BYTE_X10 / 10,
    {
        self.bytes_in * H_PER_BYTE_X10 as u64 / 10
    }

    proof fn lemma_pending_len(&self)
        requires
            self@.wf(),
        ensures
            self@.pending.len() == self.pos,
    {
    }
}

impl Default for Conditioner {
    /// The same conditioner as `new()`.
    fn default() -> (c: Self)
        ensures
            c@ == initial_model(),
    {
        Self::new()
    }
}

/// Feeding a stream: the chain becomes the chained HMAC over every full
/// block of (pending bytes ++ stream), one block is produced per `BLOCK_IN`
/// bytes, the last block produced is the new chain, and the bytes after the
/// last full block are left pending. In particular the output depends on
/// the stream alone.
pub proof fn lemma_push_all(m: ConditionerModel, bytes: Seq<u8>)
    requires
        m.wf(),
        m.bytes_in + bytes.len() <= u64::MAX,
        m.blocks_out + bytes.len() <= u64::MAX,
    ensures
        ({
            let (mf, blocks) = m.push_all(bytes);
            let input = m.pending + bytes;
            let k = input.len() as int / (BLOCK_IN as int);
            &&& mf.wf()
            &&& mf.chain == chain_over(m.chain, input)
            &&& mf.pending == input.skip(k * BLOCK_IN)
            &&& blocks.len() == k
            &&& mf.bytes_in == m.bytes_in + bytes.len()
            &&& mf.blocks_out == m.blocks_out + k
            &&& (blocks.len() > 0 ==> blocks.last() == mf.chain)
        }),
    decreases bytes.len(),
{
    let input = m.pending + bytes;
    if bytes.len() == 0 {
        assert(input == m.pending);
        assert(input.skip(0) == input);
    } else {
        let (m1, r) = m.push(bytes[0]);
        let rest = bytes.drop_first();
        lemma_push_all(m1, rest);
        let (mf, blocks1) = m1.push_all(rest);
        let input1 = m1.pending + rest;
        let k1 = input1.len() as int / (BLOCK_IN as int);
        if r is None {
            assert(input1 == input);
        } else {
            let filled = m.pending.push(bytes[0]);
            assert(filled.len() == BLOCK_IN);
            assert(input.take(BLOCK_IN as int) == filled);
            assert(input.skip(BLOCK_IN as int) == rest);
            assert(input1 == rest);
            assert(input.len() == rest.len() + BLOCK_IN);
            assert((rest.len() + BLOCK_IN) / (BLOCK_IN as int) == k1 + 1);
            assert(input.skip((k1 + 1) * BLOCK_IN) == rest.skip(k1 * BLOCK_IN));
            if blocks1.len() == 0 {
                assert(rest.len() < BLOCK_IN);
            }
        }
    }
}

/// Feeding a stream and then one more byte is feeding the longer stream;
/// the last byte's block, if any, is the last block produced.
pub proof fn lemma_push_all_push(m: ConditionerModel, bytes: Seq<u8>, b: u8)
    ensures
        ({
            let (mf, blocks) = m.push_all(bytes);
            let (m2, r) = mf.push(b);
            &&& m.push_all(bytes.push(b)).0 == m2
            &&& m.push_all(bytes.push(b)).1 == match r {
                Some(o) => blocks.push(o),
                None => blocks,
            }
        }),
    decreases bytes.len(),
{
    let t = bytes.push(b);
    if bytes.len() == 0 {
        assert(t.drop_first() == Seq::<u8>::empty());
        assert(t[0] == b);
        let (m1, r) = m.push(b);
        assert(m1.push_all(Seq::<u8>::empty()) == (m1, Seq::<Seq<u8>>::empty()));
        assert(m.push_all(bytes) == (m, Seq::<Seq<u8>>::empty()));
        match r {
            Some(o) => {
                assert(seq![o] + Seq::<Seq<u8>>::empty() == Seq::<Seq<u8>>::empty().push(o));
            },
            None => {},
        }
    } else {
        let (m1, r0) = m.push(bytes[0]);
        assert(t[0] == bytes[0]);
        assert(t.drop_first() == bytes.drop_first().push(b));
        lemma_push_all_push(m1, bytes.drop_first(), b);
        let (mf, bl) = m1.push_all(bytes.drop_first());
        let r = mf.push(b).1;
        match r0 {
            Some(o0) => match r {
                Some(o) => {
                    assert(seq![o0] + bl.push(o) == (seq![o0] + bl).push(o));
                },
                None => {},
            },
            None => {},
        }
    }
}

/// The next block comes after exactly `BLOCK_IN - pending` more bytes: the
/// pushes before the last produce nothing, and the last produces the HMAC
/// keyed by the chain over the pending bytes and the new ones.
pub proof fn lemma_next_block(m: ConditionerModel, bytes: Seq<u8>)
    requires
        m.wf(),
        bytes.len() == BLOCK_IN - m.pending.len(),
        m.bytes_in + bytes.len() <= u64::MAX,
        m.blocks_out + bytes.len() <= u64::MAX,
    ensures
        m.push_all(bytes.drop_last()).1.len() == 0,
        m.push_all(bytes.drop_last()).0.push(bytes.last()).1 == Some(
            hmac_sha256(m.chain, m.pending + bytes),
        ),
        m.push_all(bytes).1 == seq![hmac_sha256(m.chain, m.pending + bytes)],
{
    let input = m.pending + bytes;
    let u = bytes.drop_last();
    lemma_push_all(m, u);
    lemma_push_all(m, bytes);
    assert(u.push(bytes.last()) == bytes);
    lemma_push_all_push(m, u, bytes.last());
    assert((m.pending + u).len() == BLOCK_IN - 1);
    assert(input.len() == BLOCK_IN);
    assert(input.take(BLOCK_IN as int) == input);
    assert(input.skip(BLOCK_IN as int).len() == 0);
    assert(chain_over(m.chain, input) == chain_over(hmac_sha256(m.chain, input), input.skip(
        BLOCK_IN as int,
    )));
    assert(chain_over(m.chain, input) == hmac_sha256(m.chain, input));
    let bl = m.push_all(bytes).1;
    assert(bl.len() == 1);
    assert(bl == seq![bl[0]]);
}

/// Per push, from a fresh conditioner: after a stream `bytes`, pushing `b`
/// returns a block exactly when the stream length reaches a multiple of
/// `BLOCK_IN`, and that block is the chained HMAC over all whole blocks so
/// far (the first key is all zeros).
pub proof fn lemma_push_from_initial(bytes: Seq<u8>, b: u8)
    requires
        bytes.len() + 1 <= u64::MAX,
    ensures
        initial_model().push_all(bytes).0.push(b).1 == if (bytes.len() + 1) as int % (BLOCK_IN as int)
            == 0 {
            Some(chain_over(initial_model().chain, bytes.push(b)))
        } else {
            None
        },
{
    let m0 = initial_model();
    assert(m0.pending + bytes == bytes);
    assert(m0.pending + bytes.push(b) == bytes.push(b));
    lemma_push_all(m0, bytes);
    lemma_push_all(m0, bytes.push(b));
    lemma_push_all_push(m0, bytes, b);
    let k = bytes.len() as int / (BLOCK_IN as int);
    assert(bytes.skip(k * BLOCK_IN).len() == bytes.len() - k * BLOCK_IN);
    assert(bytes.len() - k * BLOCK_IN == bytes.len() as int % (BLOCK_IN as int));
}

} // verus!
