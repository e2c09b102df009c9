//! Byte-level helpers: SHA-256 (through the `sha2` crate) and big-endian
//! encodings.
use sha2::{Digest, Sha256};
use vstd::prelude::*;

verus! {

/// The SHA-256 digest of a byte string.
pub uninterp spec fn sha256(data: Seq<u8>) -> Seq<u8>;

/// Calls `sha2::Sha256::digest`. Trusted: the result is the digest of
/// `data`, a function of `data` alone, and is 32 bytes long (the output size
/// of SHA-256).
#[verifier::external_body]
pub(crate) fn sha256_digest(data: &[u8]) -> (res: Vec<u8>)
    ensures
        res@ == sha256(data@),
        res@.len() == 32,
{
    Sha256::digest(data).as_slice().to_vec()
}

/// The eight bytes of `x`, most significant first (`u64::to_be_bytes`).
pub open spec fn be_bytes(x: u64) -> Seq<u8> {
    seq![
        ((x >> 56) & 0xff) as u8,
        ((x >> 48) & 0xff) as u8,
        ((x >> 40) & 0xff) as u8,
        ((x >> 32) & 0xff) as u8,
        ((x >> 24) & 0xff) as u8,
        ((x >> 16) & 0xff) as u8,
        ((x >> 8) & 0xff) as u8,
        (x & 0xff) as u8,
    ]
}

pub fn u64_to_be_bytes(x: u64) -> (res: Vec<u8>)
    ensures
        res@ == be_bytes(x),
{
    let mut res: Vec<u8> = Vec::new();
    res.push(((x >> 56) & 0xff) as u8);
    res.push(((x >> 48) & 0xff) as u8);
    res.push(((x >> 40) & 0xff) as u8);
    res.push(((x >> 32) & 0xff) as u8);
    res.push(((x >> 24) & 0xff) as u8);
    res.push(((x >> 16) & 0xff) as u8);
    res.push(((x >> 8) & 0xff) as u8);
    res.push((x & 0xff) as u8);
    assert(res@ =~= be_bytes(x));
    res
}

/// Appends every byte of `src` to `dst`.
pub fn append_bytes(dst: &mut Vec<u8>, src: &[u8])
    ensures
        final(dst)@ == old(dst)@ + src@,
{
    let n = src.len();
    let ghost start = dst@;
    for i in 0..n
        invariant
            n == src@.len(),
            dst@ == start + src@.subrange(0, i as int),
    {
        dst.push(src[i]);
        assert(start + src@.subrange(0, i + 1) =~= start + src@.subrange(0, i as int) + seq![src@[i as int]]);
    }
    assert(src@.subrange(0, n as int) =~= src@);
}

} // verus!
