use cth_0_1::entropy::conditioner::{
    Conditioner, BLOCK_IN, BLOCK_OUT, BUDGET_X100, H_PER_BYTE_X10, SAFETY_FACTOR,
};
use hmac::{Hmac, Mac};
use sha2::Sha256;

fn hmac_sha256_tag(key: &[u8], msg: &[u8]) -> [u8; 32] {
    let mut mac = <Hmac<Sha256> as Mac>::new_from_slice(key).unwrap();
    mac.update(msg);
    mac.finalize().into_bytes().into()
}

#[test]
fn budget_is_not_short() {
    let supplied_bits = BLOCK_IN as u32 * H_PER_BYTE_X10 / 10;
    let required_bits = 8 * BLOCK_OUT as u32 * SAFETY_FACTOR;
    assert!(
        supplied_bits >= required_bits,
        "input {supplied_bits} bit < required {required_bits} bit"
    );
    // The old design could not pass: 64 bytes x 3.4 = 217 < 512.
    let old_design_bits = 64 * H_PER_BYTE_X10 / 10;
    assert!(
        old_design_bits < required_bits,
        "regression test showing the old design's gap is broken"
    );
}

#[test]
fn budget_supports_full_entropy_claim() {
    assert_eq!(BUDGET_X100, 212, "budget margin changed: revisit the screen text and the docs");
    assert!(
        BUDGET_X100 >= 200,
        "budget {BUDGET_X100} < 200 => output is NOT full entropy"
    );
}

#[test]
fn emits_block_exactly_at_boundary() {
    let mut c = Conditioner::new();
    for i in 0..BLOCK_IN - 1 {
        assert!(c.push(i as u8).is_none(), "early block (i={i})");
    }
    assert!(c.push(0xFF).is_some(), "no block at the boundary");
    assert_eq!(c.pending(), 0);
    assert_eq!(c.blocks_out, 1);
}

#[test]
fn chaining_makes_blocks_differ_for_same_input() {
    let mut c = Conditioner::new();
    let mut first = None;
    let mut second = None;
    for round in 0..2 {
        for i in 0..BLOCK_IN {
            if let Some(b) = c.push((i % 251) as u8) {
                if round == 0 {
                    first = Some(b);
                } else {
                    second = Some(b);
                }
            }
        }
    }
    let a = first.expect("no first block");
    let b = second.expect("no second block");
    assert_ne!(a, b, "same input gave the same output -> no chaining");
}

#[test]
fn different_input_gives_different_output() {
    let mut c1 = Conditioner::new();
    let mut c2 = Conditioner::new();
    let mut o1 = None;
    let mut o2 = None;
    for i in 0..BLOCK_IN {
        o1 = c1.push(i as u8).or(o1);
        o2 = c2.push((i as u8).wrapping_add(1)).or(o2);
    }
    assert_ne!(o1.unwrap(), o2.unwrap());
}

#[test]
fn output_is_deterministic_for_same_stream() {
    let run = || {
        let mut c = Conditioner::new();
        let mut last = None;
        for i in 0..BLOCK_IN * 3 {
            if let Some(b) = c.push((i * 7 % 256) as u8) {
                last = Some(b);
            }
        }
        last.unwrap()
    };
    assert_eq!(run(), run(), "the same stream must give the same output");
}

#[test]
fn entropy_accounting_matches_bytes() {
    let mut c = Conditioner::new();
    for i in 0..1000 {
        let _ = c.push(i as u8);
    }
    assert_eq!(c.bytes_in, 1000);
    assert_eq!(c.absorbed_entropy_bits(), 1000 * 34 / 10);
}

// ---- further cases ----

#[test]
fn blocks_are_chained_hmac_of_input() {
    let mut c = Conditioner::new();
    let input1: Vec<u8> = (0..BLOCK_IN).map(|i| (i * 3 % 256) as u8).collect();
    let input2: Vec<u8> = (0..BLOCK_IN).map(|i| (i * 5 % 256) as u8).collect();
    let mut blocks = Vec::new();
    for &b in input1.iter().chain(input2.iter()) {
        if let Some(out) = c.push(b) {
            blocks.push(out);
        }
    }
    assert_eq!(blocks.len(), 2);
    let expect1 = hmac_sha256_tag(&[0u8; BLOCK_OUT], &input1);
    let expect2 = hmac_sha256_tag(&expect1, &input2);
    assert_eq!(blocks[0], expect1);
    assert_eq!(blocks[1], expect2);
    assert_ne!(&blocks[0][..], &input1[..BLOCK_OUT]);
}

#[test]
fn pending_and_remaining_track_the_buffer() {
    let mut c = Conditioner::default();
    assert_eq!(c.pending(), 0);
    assert_eq!(c.remaining(), BLOCK_IN);
    for i in 0..10u8 {
        let _ = c.push(i);
    }
    assert_eq!(c.pending(), 10);
    assert_eq!(c.remaining(), BLOCK_IN - 10);
    assert_eq!(c.blocks_out, 0);
    assert_eq!(c.absorbed_entropy_bits(), 34);
}

#[test]
fn first_block_matches_reference_hmac() {
    // The first block is HMAC-SHA256 keyed with 32 zero bytes over the
    // first BLOCK_IN input bytes; compare with an independent computation.
    let mut c = Conditioner::new();
    let input = [0x5Cu8; BLOCK_IN];
    let mut out = None;
    for &b in input.iter() {
        out = c.push(b).or(out);
    }
    let out = out.unwrap();
    assert_eq!(out, hmac_sha256_tag(&[0u8; 32], &input));
    assert_ne!(out, [0x5Cu8; 32]);
}

#[test]
fn next_block_after_remaining_pushes() {
    let mut c = Conditioner::new();
    for i in 0..37u8 {
        let _ = c.push(i);
    }
    let r = c.remaining();
    assert_eq!(r, BLOCK_IN - c.pending());
    for k in 1..r {
        assert!(c.push(k as u8).is_none());
    }
    assert!(c.push(0).is_some());
    assert_eq!(c.remaining(), BLOCK_IN);
}
