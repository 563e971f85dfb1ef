//! The cryptographic and clock primitives that the ledger leans on:
//! SHA3-256 digests, strict Ed25519 signature checks, and the current
//! wall-clock time. Each outside call stands behind one trusted wrapper;
//! the digest and the verification verdict are named, not spelled out,
//! since both are functions of their byte arguments alone.

use vstd::prelude::*;
use crate::types::Digest;

verus! {

/// The SHA3-256 digest of a byte string: deterministic, 32 bytes wide.
pub uninterp spec fn sha3_of(input: Seq<u8>) -> Seq<u8>;

/// Whether a strict Ed25519 check accepts `sig` as a signature on `msg`
/// under the 32-byte public key `pk`. False whenever `pk` is not a valid
/// canonical key.
pub uninterp spec fn ed25519_accepts(pk: Seq<u8>, msg: Seq<u8>, sig: Seq<u8>) -> bool;

/// Relies on sha3::Sha3_256::digest: a pure function of the input bytes
/// that always yields a 32-byte digest.
#[verifier::external_body]
pub fn hash(input: &Vec<u8>) -> (r: Digest)
    ensures
        r@ == sha3_of(input@),
{
    let ga = <sha3::Sha3_256 as sha3::Digest>::digest(input.as_slice());
    let mut out = [0u8; 32];
    out.copy_from_slice(ga.as_slice());
    Digest(out)
}

/// Relies on ed25519_dalek::VerifyingKey::from_bytes and
/// ed25519_dalek::VerifyingKey::verify_strict: parsing the key and
/// checking the signature are deterministic in the three byte arguments,
/// and an unparsable key accepts nothing.
#[verifier::external_body]
pub fn ed25519_check(pk: &[u8; 32], msg: &Vec<u8>, sig: &[u8; 64]) -> (r: bool)
    ensures
        r == ed25519_accepts(pk@, msg@, sig@),
{
    match ed25519_dalek::VerifyingKey::from_bytes(pk) {
        Ok(key) => {
            let signature = ed25519_dalek::Signature::from_bytes(sig);
            key.verify_strict(msg.as_slice(), &signature).is_ok()
        },
        Err(_) => false,
    }
}

/// Relies on std::time::SystemTime::now, read as a duration from the
/// Unix epoch: the flag says whether the clock stands at or after the
/// epoch, the counts are the whole seconds and the nanoseconds within
/// the second of that duration. Neither branch panics, whatever the
/// host's clock reads. Nothing is promised of the reading itself:
/// callers state what holds whatever time comes back.
#[verifier::external_body]
fn clock_since_epoch() -> (r: (bool, u64, u32))
    ensures
        r.2 < 1_000_000_000,
{
    match std::time::SystemTime::now().duration_since(std::time::UNIX_EPOCH) {
        Ok(ahead) => (true, ahead.as_secs(), ahead.subsec_nanos()),
        Err(e) => (false, e.duration().as_secs(), e.duration().subsec_nanos()),
    }
}

/// The present wall-clock time in microseconds since the Unix epoch,
/// clamped to the range of `i64`; a clock standing before the epoch
/// counts negative. Nothing is promised of the value: callers state
/// what holds whatever time comes back.
pub fn now_micros() -> i64 {
    let (at_or_after, secs, nanos) = clock_since_epoch();
    let sub_micros: u64 = (nanos / 1_000) as u64;
    let total = match secs.checked_mul(1_000_000) {
        Some(m) => m.checked_add(sub_micros),
        None => None,
    };
    if at_or_after {
        match total {
            Some(t) => {
                if t <= i64::MAX as u64 {
                    t as i64
                } else {
                    i64::MAX
                }
            },
            None => i64::MAX,
        }
    } else {
        match total {
            Some(t) => {
                if t <= i64::MAX as u64 {
                    -(t as i64)
                } else {
                    i64::MIN
                }
            },
            None => i64::MIN,
        }
    }
}

} // verus!
