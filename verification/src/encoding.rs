//! Big-endian byte encodings of the fixed-width integer fields.
//!
//! Every multi-byte field of the wire format is laid out unpadded,
//! most significant byte first.

use vstd::prelude::*;

verus! {

/// The 8-byte big-endian encoding of a 64-bit counter.
pub open spec fn u64_be(x: u64) -> Seq<u8> {
    seq![
        ((x >> 56) % 256) as u8,
        ((x >> 48) % 256) as u8,
        ((x >> 40) % 256) as u8,
        ((x >> 32) % 256) as u8,
        ((x >> 24) % 256) as u8,
        ((x >> 16) % 256) as u8,
        ((x >> 8) % 256) as u8,
        (x % 256) as u8,
    ]
}

/// The 16-byte big-endian encoding of a 128-bit amount.
pub open spec fn u128_be(x: u128) -> Seq<u8> {
    seq![
        ((x >> 120) % 256) as u8,
        ((x >> 112) % 256) as u8,
        ((x >> 104) % 256) as u8,
        ((x >> 96) % 256) as u8,
        ((x >> 88) % 256) as u8,
        ((x >> 80) % 256) as u8,
        ((x >> 72) % 256) as u8,
        ((x >> 64) % 256) as u8,
        ((x >> 56) % 256) as u8,
        ((x >> 48) % 256) as u8,
        ((x >> 40) % 256) as u8,
        ((x >> 32) % 256) as u8,
        ((x >> 24) % 256) as u8,
        ((x >> 16) % 256) as u8,
        ((x >> 8) % 256) as u8,
        (x % 256) as u8,
    ]
}

/// Appends the 8-byte big-endian encoding of `x` to `out`.
pub fn push_u64_be(out: &mut Vec<u8>, x: u64)
    ensures
        final(out)@ == old(out)@ + u64_be(x),
{
    out.push(((x >> 56) % 256) as u8);
    out.push(((x >> 48) % 256) as u8);
    out.push(((x >> 40) % 256) as u8);
    out.push(((x >> 32) % 256) as u8);
    out.push(((x >> 24) % 256) as u8);
    out.push(((x >> 16) % 256) as u8);
    out.push(((x >> 8) % 256) as u8);
    out.push((x % 256) as u8);
    proof {
        assert(out@ =~= old(out)@ + u64_be(x));
    }
}

/// Appends the 16-byte big-endian encoding of `x` to `out`.
pub fn push_u128_be(out: &mut Vec<u8>, x: u128)
    ensures
        final(out)@ == old(out)@ + u128_be(x),
{
    out.push(((x >> 120) % 256) as u8);
    out.push(((x >> 112) % 256) as u8);
    out.push(((x >> 104) % 256) as u8);
    out.push(((x >> 96) % 256) as u8);
    out.push(((x >> 88) % 256) as u8);
    out.push(((x >> 80) % 256) as u8);
    out.push(((x >> 72) % 256) as u8);
    out.push(((x >> 64) % 256) as u8);
    out.push(((x >> 56) % 256) as u8);
    out.push(((x >> 48) % 256) as u8);
    out.push(((x >> 40) % 256) as u8);
    out.push(((x >> 32) % 256) as u8);
    out.push(((x >> 24) % 256) as u8);
    out.push(((x >> 16) % 256) as u8);
    out.push(((x >> 8) % 256) as u8);
    out.push((x % 256) as u8);
    proof {
        assert(out@ =~= old(out)@ + u128_be(x));
    }
}

/// Appends all bytes of a fixed-width field to `out`.
pub fn push_bytes<const N: usize>(out: &mut Vec<u8>, a: &[u8; N])
    ensures
        final(out)@ == old(out)@ + a@,
{
    let mut i: usize = 0;
    while i < N
        invariant
            i <= N,
            out@ == old(out)@ + a@.take(i as int),
        decreases N - i,
    {
        out.push(a[i]);
        proof {
            assert(out@ =~= old(out)@ + a@.take(i + 1));
        }
        i = i + 1;
    }
    proof {
        assert(out@ =~= old(out)@ + a@);
    }
}

} // verus!
