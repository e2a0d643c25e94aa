use cth_0_1::entropy::drbg::{place_block, update_message, DrbgError, HmacDrbg, RESEED_INTERVAL};
use hmac::{Hmac, Mac};
use sha2::Sha256;

fn hmac_sha256_tag(key: &[u8], msg: &[u8]) -> [u8; 32] {
    let mut mac = <Hmac<Sha256> as Mac>::new_from_slice(key).unwrap();
    mac.update(msg);
    mac.finalize().into_bytes().into()
}

fn seeded() -> HmacDrbg {
    let mut d = HmacDrbg::new();
    d.instantiate(&[0x42u8; 32]);
    d
}

#[test]
fn refuses_before_seeding() {
    let mut d = HmacDrbg::new();
    let mut buf = [0u8; 16];
    assert_eq!(d.generate(&mut buf), Err(DrbgError::NotSeeded));
    assert_eq!(buf, [0u8; 16], "the buffer must not change when unseeded");
}

#[test]
fn same_seed_same_stream() {
    let mut a = seeded();
    let mut b = seeded();
    let (mut x, mut y) = ([0u8; 96], [0u8; 96]);
    a.generate(&mut x).unwrap();
    b.generate(&mut y).unwrap();
    assert_eq!(x, y, "the DRBG must be deterministic");
}

#[test]
fn different_seed_different_stream() {
    let mut a = HmacDrbg::new();
    a.instantiate(&[1u8; 32]);
    let mut b = HmacDrbg::new();
    b.instantiate(&[2u8; 32]);
    let (mut x, mut y) = ([0u8; 64], [0u8; 64]);
    a.generate(&mut x).unwrap();
    b.generate(&mut y).unwrap();
    assert_ne!(x, y);
}

#[test]
fn successive_calls_differ() {
    let mut d = seeded();
    let (mut x, mut y) = ([0u8; 64], [0u8; 64]);
    d.generate(&mut x).unwrap();
    d.generate(&mut y).unwrap();
    assert_ne!(x, y, "successive outputs must differ");
}

#[test]
fn reseed_changes_stream() {
    let mut a = seeded();
    let mut b = seeded();
    let mut junk = [0u8; 32];
    a.generate(&mut junk).unwrap();
    b.generate(&mut junk).unwrap();
    b.reseed(&[0x99u8; 32]);
    assert_eq!(b.reseed_counter, 1, "reseed must reset the counter");
    assert_eq!(b.seed_count, 2);

    let (mut x, mut y) = ([0u8; 64], [0u8; 64]);
    a.generate(&mut x).unwrap();
    b.generate(&mut y).unwrap();
    assert_ne!(x, y, "reseeding must change the stream");
    assert_eq!(b.reseed_counter, 2, "generation must advance the counter");
}

#[test]
fn reseed_interval_is_enforced() {
    let mut d = seeded();
    let mut buf = [0u8; 8];
    for i in 1..RESEED_INTERVAL {
        d.generate(&mut buf)
            .unwrap_or_else(|e| panic!("unexpected error at generation {i}: {e:?}"));
    }
    assert_eq!(
        d.generate(&mut buf),
        Err(DrbgError::ReseedRequired),
        "generation must be refused when the interval is used up"
    );
    d.reseed(&[7u8; 32]);
    assert!(d.generate(&mut buf).is_ok(), "must continue after reseeding");
}

#[test]
fn arbitrary_output_length_is_handled() {
    let mut d = seeded();
    for len in [1usize, 7, 31, 32, 33, 100, 255] {
        let mut buf = [0u8; 255];
        d.generate(&mut buf[..len]).unwrap();
        assert!(buf[..len].iter().any(|&b| b != 0), "len={len}: output all zero");
        assert!(buf[len..].iter().all(|&b| b == 0), "len={len}: wrote past the buffer");
    }
}

#[test]
fn output_is_statistically_flat() {
    let mut d = seeded();
    let mut hist = [0u32; 256];
    let mut buf = [0u8; 256];
    for _ in 0..256 {
        d.generate(&mut buf).unwrap();
        for &b in buf.iter() {
            hist[b as usize] += 1;
        }
    }
    let expected = 65536f64 / 256.0;
    let chi2: f64 = hist
        .iter()
        .map(|&o| {
            let d = o as f64 - expected;
            d * d / expected
        })
        .sum();
    assert!(chi2 < 330.0, "chi-square too high: {chi2:.1}");
}

// ---- further cases ----

fn hmac_cat(key: &[u8; 32], parts: &[&[u8]]) -> [u8; 32] {
    let msg: Vec<u8> = parts.iter().flat_map(|p| p.iter().copied()).collect();
    hmac_sha256_tag(key, &msg)
}

fn update(k: &mut [u8; 32], v: &mut [u8; 32], data: &[u8]) {
    *k = hmac_cat(k, &[v, &[0x00], data]);
    *v = hmac_cat(k, &[v]);
    if !data.is_empty() {
        *k = hmac_cat(k, &[v, &[0x01], data]);
        *v = hmac_cat(k, &[v]);
    }
}

#[test]
fn output_follows_sp800_90a_hmac_drbg() {
    let seed = [0x5au8; 40];
    let mut k = [0u8; 32];
    let mut v = [1u8; 32];
    update(&mut k, &mut v, &seed);
    let mut expected = Vec::new();
    while expected.len() < 70 {
        v = hmac_cat(&k, &[&v]);
        expected.extend_from_slice(&v);
    }
    expected.truncate(70);

    let mut d = HmacDrbg::new();
    d.instantiate(&seed);
    let mut out = [0u8; 70];
    d.generate(&mut out).unwrap();
    assert_eq!(&out[..], &expected[..]);

    // the state advanced by update(empty)
    update(&mut k, &mut v, &[]);
    let mut next = [0u8; 32];
    d.generate(&mut next).unwrap();
    assert_eq!(next, hmac_cat(&k, &[&v]));
    assert_eq!(d.bytes_out, 102);
}

#[test]
fn counters_and_flags() {
    let mut d = HmacDrbg::default();
    assert!(!d.is_seeded());
    assert!(d.needs_reseed());
    d.reseed(&[3u8; 32]); // first reseed instantiates
    assert!(d.is_seeded());
    assert!(!d.needs_reseed());
    assert_eq!(d.seed_count, 1);
    assert_eq!(d.reseed_counter, 1);
    let mut empty: [u8; 0] = [];
    assert_eq!(d.generate(&mut empty), Ok(()));
    assert_eq!(d.reseed_counter, 2);
    assert_eq!(d.bytes_out, 0);
}

#[test]
fn refused_generation_leaves_buffer() {
    let mut d = seeded();
    let mut buf = [0u8; 4];
    for _ in 1..RESEED_INTERVAL {
        d.generate(&mut buf).unwrap();
    }
    assert!(d.needs_reseed());
    let mut keep = [0xAAu8; 4];
    assert_eq!(d.generate(&mut keep), Err(DrbgError::ReseedRequired));
    assert_eq!(keep, [0xAAu8; 4]);
}

#[test]
fn update_message_concatenates() {
    let v = [7u8; 32];
    let m = update_message(&v, 0x01, &[9, 8]);
    assert_eq!(m.len(), 35);
    assert_eq!(&m[..32], &v[..]);
    assert_eq!(&m[32..], &[0x01, 9, 8]);
}

#[test]
fn place_block_copies_prefix() {
    let block: [u8; 32] = core::array::from_fn(|i| i as u8 + 1);
    let mut out = [0u8; 40];
    assert_eq!(place_block(&mut out, 0, &block), 32);
    assert_eq!(&out[..32], &block[..]);
    assert_eq!(place_block(&mut out, 32, &block), 8);
    assert_eq!(&out[32..], &block[..8]);
}

#[test]
fn same_calls_with_reseeds_same_stream() {
    let mut a = HmacDrbg::new();
    let mut b = HmacDrbg::new();
    b.instantiate(&[0xEEu8; 8]);
    let _ = b.generate(&mut [0u8; 10]);
    a.instantiate(&[4u8; 32]);
    b.instantiate(&[4u8; 32]);
    let (mut x, mut y) = ([0u8; 48], [0u8; 48]);
    a.reseed(&[9u8; 16]);
    b.reseed(&[9u8; 16]);
    a.generate(&mut x).unwrap();
    b.generate(&mut y).unwrap();
    assert_eq!(x, y);
}

#[test]
fn seeded_only_after_a_seeding_call() {
    let mut d = HmacDrbg::new();
    assert_eq!(d.generate(&mut [0u8; 4]), Err(DrbgError::NotSeeded));
    assert!(!d.is_seeded());
    d.reseed(&[1u8; 4]);
    assert!(d.is_seeded());
    assert!(!d.needs_reseed());
}
