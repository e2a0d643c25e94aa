//! HMAC-SHA256, computed by the `hmac` and `sha2` crates.
use vstd::prelude::*;

use hmac::{Hmac, Mac};
use sha2::Sha256;

verus! {

/// Output length of HMAC-SHA256 in bytes.
pub const MAC_LEN: usize = 32;

/// The HMAC-SHA256 tag of `msg` under `key` (RFC 2104 with SHA-256), as
/// computed by the `hmac` crate over `sha2::Sha256`.
pub uninterp spec fn hmac_sha256(key: Seq<u8>, msg: Seq<u8>) -> Seq<u8>;

/// Calls `Hmac::<Sha256>::new_from_slice(key)`, feeds `msg` with one
/// `update` and returns `finalize().into_bytes()` as an array.
///
/// Trusted: the contract claims that the result is the named tag
/// `hmac_sha256(key, msg)` (a function of the two byte strings alone) and
/// that it is 32 bytes long (SHA-256's output size). `new_from_slice` for
/// `Hmac<D>` accepts keys of every length (the crate hashes long keys and
/// pads short ones), so the `expect` below never fires.
#[verifier::external_body]
pub(crate) fn hmac_sha256_tag(key: &[u8], msg: &[u8]) -> (tag: [u8; 32])
    ensures
        tag@ == hmac_sha256(key@, msg@),
        tag@.len() == MAC_LEN,
{
    let mut mac = <Hmac<Sha256> as Mac>::new_from_slice(key).expect("HMAC accepts every key length");
    mac.update(msg);
    mac.finalize().into_bytes().into()
}

} // verus!
