use ethereum_consensus_types::{
    BeaconBlockHeader, BlsPublicKey, BlsSignature, DecodeError, ForkData, SyncAggregate,
    SyncCommittee,
};

fn sample_header() -> BeaconBlockHeader {
    BeaconBlockHeader {
        slot: 0x0102_0304_0506_0708,
        proposer_index: 77,
        parent_root: [1u8; 32],
        state_root: [2u8; 32],
        body_root: [3u8; 32],
    }
}

#[test]
fn header_round_trip_keeps_value_and_root() {
    let h = sample_header();
    let bytes = h.to_ssz_bytes();
    assert_eq!(bytes.len(), 112);
    assert_eq!(&bytes[..8], &[8u8, 7, 6, 5, 4, 3, 2, 1]);
    assert_eq!(&bytes[8..16], &[77u8, 0, 0, 0, 0, 0, 0, 0]);
    assert_eq!(&bytes[16..48], &[1u8; 32]);
    let back = BeaconBlockHeader::from_ssz_bytes(&bytes).unwrap();
    assert_eq!(back, h);
    assert_eq!(back.hash_tree_root(), h.hash_tree_root());
    assert_eq!(BeaconBlockHeader::from_ssz_bytes(&bytes[..111]), Err(DecodeError::WrongLength));
}

#[test]
fn fork_data_round_trip_keeps_value_and_root() {
    let f = ForkData { fork_version: [1, 2, 3, 4], genesis_validators_root: [9u8; 32] };
    let bytes = f.to_ssz_bytes();
    assert_eq!(bytes.len(), 36);
    assert_eq!(&bytes[..4], &[1u8, 2, 3, 4]);
    let back = ForkData::from_ssz_bytes(&bytes).unwrap();
    assert_eq!(back, f);
    assert_eq!(back.hash_tree_root(), f.hash_tree_root());
    assert_eq!(ForkData::from_ssz_bytes(&[0u8; 37]), Err(DecodeError::WrongLength));
}

#[test]
fn committee_round_trip_keeps_value_and_root() {
    let keys: Vec<BlsPublicKey> = (0..4u8).map(|i| BlsPublicKey([i + 10; 48])).collect();
    let c = SyncCommittee::<4> { pubkeys: keys, aggregate_pubkey: BlsPublicKey([99u8; 48]) };
    let bytes = c.to_ssz_bytes();
    assert_eq!(bytes.len(), 48 * 4 + 48);
    assert_eq!(bytes[48], 11);
    assert_eq!(bytes[48 * 4], 99);
    let back = SyncCommittee::<4>::from_ssz_bytes(&bytes).unwrap();
    assert_eq!(back, c);
    assert_eq!(back.hash_tree_root(), c.hash_tree_root());
    assert_eq!(SyncCommittee::<5>::from_ssz_bytes(&bytes), Err(DecodeError::WrongLength));
}

#[test]
fn aggregate_round_trip_keeps_value() {
    let mut bits = vec![false; 12];
    bits[0] = true;
    bits[9] = true;
    let a = SyncAggregate::<12> {
        sync_committee_bits: bits,
        sync_committee_signature: BlsSignature([5u8; 96]),
    };
    let bytes = a.to_ssz_bytes();
    assert_eq!(bytes.len(), 2 + 96);
    assert_eq!(&bytes[..2], &[0x01u8, 0x02]);
    assert_eq!(SyncAggregate::<12>::from_ssz_bytes(&bytes), Ok(a));

    let full = SyncAggregate::<32> {
        sync_committee_bits: (0..32).map(|i| i % 3 == 0).collect(),
        sync_committee_signature: BlsSignature([7u8; 96]),
    };
    let full_bytes = full.to_ssz_bytes();
    assert_eq!(full_bytes.len(), 4 + 96);
    assert_eq!(SyncAggregate::<32>::from_ssz_bytes(&full_bytes), Ok(full));
}

#[test]
fn aggregate_decoding_rejects_padding_and_lengths() {
    let mut bytes = vec![0u8; 2 + 96];
    bytes[1] = 0x10;
    assert_eq!(SyncAggregate::<12>::from_ssz_bytes(&bytes), Err(DecodeError::NonZeroPadding));
    assert_eq!(SyncAggregate::<12>::from_ssz_bytes(&bytes[..97]), Err(DecodeError::WrongLength));
    bytes[1] = 0x08;
    let a = SyncAggregate::<12>::from_ssz_bytes(&bytes).unwrap();
    assert_eq!(a.sync_committee_bits.iter().filter(|b| **b).count(), 1);
    assert!(a.sync_committee_bits[11]);
}

fn ssz_root<T: ssz_rs::Merkleized>(mut value: T) -> [u8; 32] {
    let node = value.hash_tree_root().unwrap();
    let mut r = [0u8; 32];
    r.copy_from_slice(node.as_ref());
    r
}

fn pair_root(a: &[u8; 32], b: &[u8; 32]) -> [u8; 32] {
    let mut chunks = a.to_vec();
    chunks.extend_from_slice(b);
    ethereum_consensus_types::merkle::merkleize(&chunks)
}

#[test]
fn aggregate_root_matches_ssz_bitvector_and_vector() {
    let bits: Vec<bool> = (0..32).map(|i| i % 5 == 1).collect();
    let mut bitvector = ssz_rs::Bitvector::<32>::default();
    for (i, b) in bits.iter().enumerate() {
        bitvector.set(i, *b);
    }
    let sig = [0x42u8; 96];
    let sig_vector = ssz_rs::Vector::<u8, 96>::try_from(sig.to_vec()).unwrap();
    let expected = pair_root(&ssz_root(bitvector), &ssz_root(sig_vector));
    let a = SyncAggregate::<32> {
        sync_committee_bits: bits,
        sync_committee_signature: BlsSignature(sig),
    };
    assert_eq!(a.hash_tree_root(), expected);
    assert_eq!(BlsSignature(sig).hash_tree_root(), ssz_root(ssz_rs::Vector::<u8, 96>::try_from(sig.to_vec()).unwrap()));
}

#[test]
fn committee_root_matches_ssz_vectors() {
    let keys: Vec<BlsPublicKey> = (0..4u8).map(|i| BlsPublicKey([i * 3 + 1; 48])).collect();
    let agg = BlsPublicKey([0x77u8; 48]);
    let inner: Vec<ssz_rs::Vector<u8, 48>> = keys
        .iter()
        .map(|k| ssz_rs::Vector::<u8, 48>::try_from(k.0.to_vec()).unwrap())
        .collect();
    let keys_vector = ssz_rs::Vector::<ssz_rs::Vector<u8, 48>, 4>::try_from(inner).unwrap();
    let agg_vector = ssz_rs::Vector::<u8, 48>::try_from(agg.0.to_vec()).unwrap();
    let expected = pair_root(&ssz_root(keys_vector), &ssz_root(agg_vector));
    let c = SyncCommittee::<4> { pubkeys: keys, aggregate_pubkey: agg };
    assert_eq!(c.hash_tree_root(), expected);
}
