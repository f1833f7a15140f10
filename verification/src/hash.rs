//! Content addressing: fixed-width typed digests of byte strings, with a
//! stable binary encoding that can be decoded back and validated.

use vstd::prelude::*;
use vstd::bytes::*;
use vstd::slice::slice_subrange;

verus! {

/// The kind of object a content hash addresses.
#[derive(Clone, Copy, Debug, PartialEq, Eq, Structural)]
pub enum HashKind {
    Entry,
    Action,
    AgentKey,
    Dna,
}

/// A fixed-width content digest together with the kind of object it
/// addresses. The 256-bit digest is held as four 64-bit lanes.
#[derive(Clone, Copy, Debug, PartialEq, Eq, Structural)]
pub struct ContentHash {
    pub kind: HashKind,
    pub d0: u64,
    pub d1: u64,
    pub d2: u64,
    pub d3: u64,
}

/// Why decoding an encoded hash failed.
#[derive(Clone, Copy, Debug, PartialEq, Eq, Structural)]
pub enum DecodeError {
    /// The buffer's length is not the fixed encoded width.
    LengthMismatch,
    /// The embedded kind tag disagrees with the expected kind.
    KindMismatch,
}

/// The tag byte that identifies a hash kind in the binary encoding.
pub open spec fn kind_tag(k: HashKind) -> u8 {
    match k {
        HashKind::Entry => 0u8,
        HashKind::Action => 1u8,
        HashKind::AgentKey => 2u8,
        HashKind::Dna => 3u8,
    }
}

/// Executable counterpart of [`kind_tag`].
pub fn kind_tag_exec(k: HashKind) -> (t: u8)
    ensures
        t == kind_tag(k),
{
    match k {
        HashKind::Entry => 0u8,
        HashKind::Action => 1u8,
        HashKind::AgentKey => 2u8,
        HashKind::Dna => 3u8,
    }
}

/// One mixing step of the digest: rotate the accumulator and fold in a word.
pub open spec fn mix(acc: u64, x: u64) -> u64 {
    (((acc << 7u64) | (acc >> 57u64)) ^ x) as u64
}

/// Executable counterpart of [`mix`].
pub fn mix_exec(acc: u64, x: u64) -> (r: u64)
    ensures
        r == mix(acc, x),
{
    ((acc << 7u64) | (acc >> 57u64)) ^ x
}

/// Folds a byte string into one digest lane, starting from a lane seed.
pub open spec fn fold_bytes(seed: u64, s: Seq<u8>) -> u64
    decreases s.len(),
{
    if s.len() == 0 {
        seed
    } else {
        mix(fold_bytes(seed, s.drop_last()), s.last() as u64)
    }
}

/// Executable counterpart of [`fold_bytes`].
pub fn fold_bytes_exec(seed: u64, s: &[u8]) -> (r: u64)
    ensures
        r == fold_bytes(seed, s@),
{
    let mut acc: u64 = seed;
    let mut i: usize = 0;
    while i < s.len()
        invariant
            0 <= i <= s@.len(),
            acc == fold_bytes(seed, s@.take(i as int)),
        decreases s@.len() - i,
    {
        proof {
            assert(s@.take(i + 1).drop_last() =~= s@.take(i as int));
            assert(s@.take(i + 1).last() == s@[i as int]);
        }
        acc = mix_exec(acc, s[i] as u64);
        i = i + 1;
    }
    proof {
        assert(s@.take(s@.len() as int) =~= s@);
    }
    acc
}

/// Folds a whole hash (kind tag and all four lanes) into a digest lane.
pub open spec fn mix_hash(acc: u64, h: ContentHash) -> u64 {
    mix(mix(mix(mix(mix(acc, kind_tag(h.kind) as u64), h.d0), h.d1), h.d2), h.d3)
}

/// Executable counterpart of [`mix_hash`].
pub fn mix_hash_exec(acc: u64, h: &ContentHash) -> (r: u64)
    ensures
        r == mix_hash(acc, *h),
{
    let t = kind_tag_exec(h.kind);
    mix_exec(mix_exec(mix_exec(mix_exec(mix_exec(acc, t as u64), h.d0), h.d1), h.d2), h.d3)
}

/// The content digest of a byte string, tagged with the given kind.
/// A pure function of the bytes and the kind: equal inputs always give
/// equal hashes.
pub open spec fn spec_hash_bytes(s: Seq<u8>, kind: HashKind) -> ContentHash {
    ContentHash {
        kind,
        d0: fold_bytes(0x243f6a8885a308d3u64, s),
        d1: fold_bytes(0x13198a2e03707344u64, s),
        d2: fold_bytes(0xa4093822299f31d0u64, s),
        d3: fold_bytes(0x082efa98ec4e6c89u64, s),
    }
}

/// Computes the content hash of a byte string for the given kind.
pub fn hash_bytes(s: &[u8], kind: HashKind) -> (h: ContentHash)
    ensures
        h == spec_hash_bytes(s@, kind),
{
    ContentHash {
        kind,
        d0: fold_bytes_exec(0x243f6a8885a308d3u64, s),
        d1: fold_bytes_exec(0x13198a2e03707344u64, s),
        d2: fold_bytes_exec(0xa4093822299f31d0u64, s),
        d3: fold_bytes_exec(0x082efa98ec4e6c89u64, s),
    }
}

/// The binary encoding of a hash: one kind-tag byte followed by the four
/// digest lanes, each as eight little-endian bytes; 33 bytes in all.
pub open spec fn spec_encode(h: ContentHash) -> Seq<u8> {
    seq![kind_tag(h.kind)] + spec_u64_to_le_bytes(h.d0) + spec_u64_to_le_bytes(h.d1)
        + spec_u64_to_le_bytes(h.d2) + spec_u64_to_le_bytes(h.d3)
}

/// Decoding a buffer claimed to encode a hash of the expected kind:
/// a wrong length fails with `LengthMismatch`, a disagreeing embedded
/// kind tag with `KindMismatch`; otherwise the digest lanes are read back.
pub open spec fn spec_decode(bytes: Seq<u8>, expected: HashKind) -> Result<ContentHash, DecodeError> {
    if bytes.len() != 33 {
        Err(DecodeError::LengthMismatch)
    } else if bytes[0] != kind_tag(expected) {
        Err(DecodeError::KindMismatch)
    } else {
        Ok(
            ContentHash {
                kind: expected,
                d0: spec_u64_from_le_bytes(bytes.subrange(1, 9)),
                d1: spec_u64_from_le_bytes(bytes.subrange(9, 17)),
                d2: spec_u64_from_le_bytes(bytes.subrange(17, 25)),
                d3: spec_u64_from_le_bytes(bytes.subrange(25, 33)),
            },
        )
    }
}

/// Encodes a hash into its 33-byte binary form.
pub fn encode(h: &ContentHash) -> (r: Vec<u8>)
    ensures
        r@ == spec_encode(*h),
{
    let mut out: Vec<u8> = Vec::new();
    out.push(kind_tag_exec(h.kind));
    let mut b0 = u64_to_le_bytes(h.d0);
    out.append(&mut b0);
    let mut b1 = u64_to_le_bytes(h.d1);
    out.append(&mut b1);
    let mut b2 = u64_to_le_bytes(h.d2);
    out.append(&mut b2);
    let mut b3 = u64_to_le_bytes(h.d3);
    out.append(&mut b3);
    proof {
        assert(out@ =~= spec_encode(*h));
    }
    out
}

/// Decodes a 33-byte buffer as a hash of the expected kind, validating
/// the length and the embedded kind tag.
pub fn decode(bytes: &[u8], expected: HashKind) -> (r: Result<ContentHash, DecodeError>)
    ensures
        r == spec_decode(bytes@, expected),
{
    if bytes.len() != 33 {
        return Err(DecodeError::LengthMismatch);
    }
    if bytes[0] != kind_tag_exec(expected) {
        return Err(DecodeError::KindMismatch);
    }
    let d0 = u64_from_le_bytes(slice_subrange(bytes, 1, 9));
    let d1 = u64_from_le_bytes(slice_subrange(bytes, 9, 17));
    let d2 = u64_from_le_bytes(slice_subrange(bytes, 17, 25));
    let d3 = u64_from_le_bytes(slice_subrange(bytes, 25, 33));
    Ok(ContentHash { kind: expected, d0, d1, d2, d3 })
}

/// Decodes a buffer as an agent public key hash.
pub fn decode_as_agentpubkey(bytes: &[u8]) -> (r: Result<ContentHash, DecodeError>)
    ensures
        r == spec_decode(bytes@, HashKind::AgentKey),
{
    decode(bytes, HashKind::AgentKey)
}

/// Decodes a buffer as an entry hash.
pub fn decode_as_entryhash(bytes: &[u8]) -> (r: Result<ContentHash, DecodeError>)
    ensures
        r == spec_decode(bytes@, HashKind::Entry),
{
    decode(bytes, HashKind::Entry)
}

/// Decodes a buffer as an action hash.
pub fn decode_as_actionhash(bytes: &[u8]) -> (r: Result<ContentHash, DecodeError>)
    ensures
        r == spec_decode(bytes@, HashKind::Action),
{
    decode(bytes, HashKind::Action)
}

/// Decodes a buffer as a DNA hash.
pub fn decode_as_dnahash(bytes: &[u8]) -> (r: Result<ContentHash, DecodeError>)
    ensures
        r == spec_decode(bytes@, HashKind::Dna),
{
    decode(bytes, HashKind::Dna)
}

/// Law: decoding an encoded hash under its own kind gives the hash back,
/// for every hash of every kind.
pub proof fn lemma_decode_encode(h: ContentHash)
    ensures
        spec_decode(spec_encode(h), h.kind) == Ok::<ContentHash, DecodeError>(h),
{
    lemma_auto_spec_u64_to_from_le_bytes();
    let b = spec_encode(h);
    assert(b.len() == 33);
    assert(b[0] == kind_tag(h.kind));
    assert(b.subrange(1, 9) =~= spec_u64_to_le_bytes(h.d0));
    assert(b.subrange(9, 17) =~= spec_u64_to_le_bytes(h.d1));
    assert(b.subrange(17, 25) =~= spec_u64_to_le_bytes(h.d2));
    assert(b.subrange(25, 33) =~= spec_u64_to_le_bytes(h.d3));
}

} // verus!
