use agent_chain::hash::{
    ContentHash, DecodeError, HashKind, decode, decode_as_actionhash, decode_as_agentpubkey,
    decode_as_dnahash, decode_as_entryhash, encode, hash_bytes, kind_tag_exec,
};

fn sample(kind: HashKind) -> ContentHash {
    ContentHash { kind, d0: 0x0123456789abcdef, d1: 42, d2: 0, d3: u64::MAX }
}

#[test]
fn encode_has_fixed_width_and_tag() {
    let h = sample(HashKind::Entry);
    let b = encode(&h);
    assert_eq!(b.len(), 33);
    assert_eq!(b[0], kind_tag_exec(HashKind::Entry));
}

#[test]
fn encode_exact_bytes() {
    let h = ContentHash { kind: HashKind::Action, d0: 1, d1: 2, d2: 3, d3: 0x0102030405060708 };
    let b = encode(&h);
    let expected: Vec<u8> = vec![
        1, // action kind tag
        1, 0, 0, 0, 0, 0, 0, 0, // lane 0, little-endian
        2, 0, 0, 0, 0, 0, 0, 0, // lane 1
        3, 0, 0, 0, 0, 0, 0, 0, // lane 2
        8, 7, 6, 5, 4, 3, 2, 1, // lane 3
    ];
    assert_eq!(b, expected);
}

#[test]
fn decode_encode_round_trip_every_kind() {
    for kind in [HashKind::Entry, HashKind::Action, HashKind::AgentKey, HashKind::Dna] {
        let h = sample(kind);
        let b = encode(&h);
        assert_eq!(decode(&b, kind), Ok(h));
    }
}

#[test]
fn decode_rejects_wrong_length() {
    assert_eq!(decode(&[], HashKind::Entry), Err(DecodeError::LengthMismatch));
    let short = vec![0u8; 32];
    assert_eq!(decode(&short, HashKind::Entry), Err(DecodeError::LengthMismatch));
    let long = vec![0u8; 34];
    assert_eq!(decode(&long, HashKind::Entry), Err(DecodeError::LengthMismatch));
}

#[test]
fn decode_rejects_wrong_kind_tag() {
    let h = sample(HashKind::Entry);
    let b = encode(&h);
    assert_eq!(decode(&b, HashKind::Action), Err(DecodeError::KindMismatch));
    let mut unknown = encode(&h);
    unknown[0] = 200;
    assert_eq!(decode(&unknown, HashKind::Entry), Err(DecodeError::KindMismatch));
}

#[test]
fn decode_as_each_kind_checks_its_tag() {
    let agent = encode(&sample(HashKind::AgentKey));
    let entry = encode(&sample(HashKind::Entry));
    let action = encode(&sample(HashKind::Action));
    let dna = encode(&sample(HashKind::Dna));
    assert_eq!(decode_as_agentpubkey(&agent), Ok(sample(HashKind::AgentKey)));
    assert_eq!(decode_as_entryhash(&entry), Ok(sample(HashKind::Entry)));
    assert_eq!(decode_as_actionhash(&action), Ok(sample(HashKind::Action)));
    assert_eq!(decode_as_dnahash(&dna), Ok(sample(HashKind::Dna)));
    assert_eq!(decode_as_agentpubkey(&entry), Err(DecodeError::KindMismatch));
    assert_eq!(decode_as_entryhash(&action), Err(DecodeError::KindMismatch));
    assert_eq!(decode_as_actionhash(&dna), Err(DecodeError::KindMismatch));
    assert_eq!(decode_as_dnahash(&agent), Err(DecodeError::KindMismatch));
}

#[test]
fn digest_of_empty_input_is_the_lane_seeds() {
    let h = hash_bytes(b"", HashKind::Entry);
    assert_eq!(h.d0, 0x243f6a8885a308d3);
    assert_eq!(h.d1, 0x13198a2e03707344);
    assert_eq!(h.d2, 0xa4093822299f31d0);
    assert_eq!(h.d3, 0x082efa98ec4e6c89);
}

#[test]
fn digest_folds_one_byte_by_rotate_and_xor() {
    let h = hash_bytes(b"a", HashKind::Entry);
    assert_eq!(h.d0, 0x243f6a8885a308d3u64.rotate_left(7) ^ (b'a' as u64));
    assert_eq!(h.d1, 0x13198a2e03707344u64.rotate_left(7) ^ (b'a' as u64));
}

#[test]
fn hash_bytes_is_deterministic_and_kind_tagged() {
    let a = hash_bytes(b"hello", HashKind::Entry);
    let b = hash_bytes(b"hello", HashKind::Entry);
    assert_eq!(a, b);
    assert_eq!(a.kind, HashKind::Entry);
    let c = hash_bytes(b"hellp", HashKind::Entry);
    assert_ne!(a, c);
    let d = hash_bytes(b"", HashKind::Dna);
    assert_eq!(d.kind, HashKind::Dna);
}
