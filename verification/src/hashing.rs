//! Slot derivation: how an item and a probe number are turned into a position
//! in the counter array.

use std::collections::hash_map::DefaultHasher;
use std::hash::Hasher;
use vstd::prelude::*;
use vstd::std_specs::hash::DefaultHasherAdditionalSpecFns;

verus! {

/// The eight bytes of `x`, least significant first.
pub open spec fn le_bytes(x: u64) -> Seq<u8> {
    seq![
        (x % 0x100) as u8,
        (x / 0x100 % 0x100) as u8,
        (x / 0x1_0000 % 0x100) as u8,
        (x / 0x100_0000 % 0x100) as u8,
        (x / 0x1_0000_0000 % 0x100) as u8,
        (x / 0x100_0000_0000 % 0x100) as u8,
        (x / 0x1_0000_0000_0000 % 0x100) as u8,
        (x / 0x100_0000_0000_0000 % 0x100) as u8,
    ]
}

/// The number whose little-endian representation is the first eight bytes of
/// `bytes`.
pub open spec fn le_word(bytes: Seq<u8>) -> u64
    recommends
        bytes.len() >= 8,
{
    (bytes[0] + bytes[1] * 0x100 + bytes[2] * 0x1_0000 + bytes[3] * 0x100_0000 + bytes[4]
        * 0x1_0000_0000 + bytes[5] * 0x100_0000_0000 + bytes[6] * 0x1_0000_0000_0000 + bytes[7]
        * 0x100_0000_0000_0000) as u64
}

/// Splits `x` into its eight bytes, least significant first.
pub fn to_le_bytes(x: u64) -> (bytes: [u8; 8])
    ensures
        bytes@ == le_bytes(x),
{
    [
        (x % 0x100) as u8,
        (x / 0x100 % 0x100) as u8,
        (x / 0x1_0000 % 0x100) as u8,
        (x / 0x100_0000 % 0x100) as u8,
        (x / 0x1_0000_0000 % 0x100) as u8,
        (x / 0x100_0000_0000 % 0x100) as u8,
        (x / 0x1_0000_0000_0000 % 0x100) as u8,
        (x / 0x100_0000_0000_0000 % 0x100) as u8,
    ]
}

/// Reads the first eight bytes of a digest as a little-endian number.
pub fn leading_word(digest: &[u8; 16]) -> (word: u64)
    ensures
        word == le_word(digest@),
{
    let b0: u64 = digest[0] as u64;
    let b1: u64 = digest[1] as u64;
    let b2: u64 = digest[2] as u64;
    let b3: u64 = digest[3] as u64;
    let b4: u64 = digest[4] as u64;
    let b5: u64 = digest[5] as u64;
    let b6: u64 = digest[6] as u64;
    let b7: u64 = digest[7] as u64;
    b0 + b1 * 0x100 + b2 * 0x1_0000 + b3 * 0x100_0000 + b4 * 0x1_0000_0000 + b5 * 0x100_0000_0000
        + b6 * 0x1_0000_0000_0000 + b7 * 0x100_0000_0000_0000
}

/// The MD5 digest of `data`.
pub uninterp spec fn md5_of(data: Seq<u8>) -> Seq<u8>;

/// Calls `md5::compute` and hands back the sixteen bytes of its digest.
///
/// The digest is trusted to be a function of the bytes given and of nothing
/// else; which function it is, is not stated here.
#[verifier::external_body]
pub(crate) fn md5_digest(data: &[u8]) -> (digest: [u8; 16])
    ensures
        digest@ == md5_of(data@),
{
    md5::compute(data).0
}

/// The hash that the standard hasher gives after it was fed the item and then
/// the probe number as eight little-endian bytes.
pub open spec fn probe_hash(item: Seq<u8>, probe: usize) -> u64 {
    DefaultHasher::spec_finish(seq![item, le_bytes(probe as u64)])
}

/// The position that a digest selects in an array of `size` counters.
pub open spec fn digest_slot(digest: Seq<u8>, size: usize) -> usize {
    ((le_word(digest) as usize) % size) as usize
}

/// The position of probe number `probe` of `item` in an array of `size`
/// counters.
pub open spec fn slot_of(item: Seq<u8>, probe: usize, size: usize) -> usize {
    digest_slot(md5_of(le_bytes(probe_hash(item, probe))), size)
}

/// Hashes the item together with the probe number.
pub fn hash_probe(item: &[u8], probe: usize) -> (hash: u64)
    ensures
        hash == probe_hash(item@, probe),
{
    let mut hasher = DefaultHasher::new();
    hasher.write(item);
    let tag = to_le_bytes(probe as u64);
    hasher.write(tag.as_slice());
    assert(hasher@ =~= seq![item@, le_bytes(probe as u64)]);
    hasher.finish()
}

/// Reduces a digest to a position in an array of `size` counters.
pub fn slot_from_digest(digest: &[u8; 16], size: usize) -> (slot: usize)
    requires
        size > 0,
    ensures
        slot == digest_slot(digest@, size),
        slot < size,
{
    let word = leading_word(digest);
    (word as usize) % size
}

} // verus!
