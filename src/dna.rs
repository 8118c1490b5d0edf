use vstd::prelude::*;

use crate::types::BlockInfo;

verus! {

/// The 256-bit Blake2b digest of a byte string.
pub uninterp spec fn blake2_256_of(data: Seq<u8>) -> [u8; 32];

/// Relies on sp_crypto_hashing::blake2_256: the 32-byte Blake2b digest of
/// `data`, which depends on the bytes alone.
#[verifier::external_body]
fn blake2_256(data: &Vec<u8>) -> (r: [u8; 32])
    ensures
        r == blake2_256_of(data@),
{
    sp_crypto_hashing::blake2_256(data.as_slice())
}

/// Little-endian bytes of a `u32`.
pub open spec fn le_u32_bytes(x: u32) -> Seq<u8> {
    seq![
        (x % 256) as u8,
        ((x / 256) % 256) as u8,
        ((x / 65536) % 256) as u8,
        ((x / 16777216) % 256) as u8,
    ]
}

/// An optional `u32`: a tag byte 0 when absent, else 1 then its bytes.
pub open spec fn opt_u32_bytes(x: Option<u32>) -> Seq<u8> {
    match x {
        None => seq![0u8],
        Some(v) => seq![1u8] + le_u32_bytes(v),
    }
}

/// The payload hashed into a fingerprint: parent hash, block number,
/// extrinsic index, then the current kitty count, in that order.
pub open spec fn dna_payload(info: BlockInfo, count: u32) -> Seq<u8> {
    info.parent_hash@ + le_u32_bytes(info.block_number) + opt_u32_bytes(info.extrinsic_index)
        + le_u32_bytes(count)
}

fn push_le_u32(out: &mut Vec<u8>, x: u32)
    ensures
        final(out)@ == old(out)@ + le_u32_bytes(x),
{
    out.push((x % 256) as u8);
    out.push(((x / 256) % 256) as u8);
    out.push(((x / 65536) % 256) as u8);
    out.push(((x / 16777216) % 256) as u8);
    assert(final(out)@ =~= old(out)@ + le_u32_bytes(x));
}

fn encode_payload(info: &BlockInfo, count: u32) -> (r: Vec<u8>)
    ensures
        r@ == dna_payload(*info, count),
{
    let mut out: Vec<u8> = Vec::new();
    let mut i: usize = 0;
    while i < 32
        invariant
            i <= 32,
            out@ =~= info.parent_hash@.subrange(0, i as int),
        decreases 32 - i,
    {
        out.push(info.parent_hash[i]);
        i = i + 1;
    }
    assert(out@ =~= info.parent_hash@);
    push_le_u32(&mut out, info.block_number);
    let ghost before = out@;
    match info.extrinsic_index {
        None => {
            out.push(0u8);
        },
        Some(v) => {
            out.push(1u8);
            push_le_u32(&mut out, v);
        },
    }
    assert(out@ =~= before + opt_u32_bytes(info.extrinsic_index));
    push_le_u32(&mut out, count);
    assert(out@ =~= dna_payload(*info, count));
    out
}

/// The fingerprint for a kitty minted in the block described by `info`
/// while `count` kitties exist: the Blake2b-256 digest of the payload.
pub fn gen_dna_from(info: &BlockInfo, count: u32) -> (r: [u8; 32])
    ensures
        r == blake2_256_of(dna_payload(*info, count)),
{
    let payload = encode_payload(info, count);
    blake2_256(&payload)
}

/// Whether two fingerprints are equal, byte by byte.
pub fn dna_eq(a: &[u8; 32], b: &[u8; 32]) -> (r: bool)
    ensures
        r == (*a == *b),
{
    let mut i: usize = 0;
    while i < 32
        invariant
            i <= 32,
            forall|j: int| 0 <= j < i ==> a[j] == b[j],
        decreases 32 - i,
    {
        if a[i] != b[i] {
            return false;
        }
        i = i + 1;
    }
    assert(*a =~= *b);
    true
}

} // verus!
