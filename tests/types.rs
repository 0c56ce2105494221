use ethereum_consensus_types::bls::BlsError;
use ethereum_consensus_types::hex_text::try_bytes_from_hex_str;
use ethereum_consensus_types::merkle::is_valid_merkle_branch;
use ethereum_consensus_types::primitives::{ByteList, ByteVector};
use ethereum_consensus_types::signing::{compute_domain, compute_signing_root, DomainType};
use ethereum_consensus_types::{
    BeaconBlockHeader, BlsPublicKey, BlsSignature, DecodeError, ForkData, SyncAggregate,
    VerificationError,
};

fn hex32(s: &str) -> [u8; 32] {
    let v = try_bytes_from_hex_str(s).unwrap();
    let mut r = [0u8; 32];
    r.copy_from_slice(&v);
    r
}

fn aggregate_with_bits<const N: usize>(count: usize) -> SyncAggregate<N> {
    let mut bits = vec![false; N];
    for b in bits.iter_mut().take(count) {
        *b = true;
    }
    SyncAggregate { sync_committee_bits: bits, sync_committee_signature: BlsSignature([0u8; 96]) }
}

#[test]
fn test_participation() {
    const SYNC_COMMITTEE_SIZE: usize = 12;
    let mut aggregate = aggregate_with_bits::<SYNC_COMMITTEE_SIZE>(0);
    for i in 0..SYNC_COMMITTEE_SIZE {
        aggregate.sync_committee_bits[i] = true;
        if (i + 1) * 3 >= SYNC_COMMITTEE_SIZE * 2 {
            assert!(aggregate.verify_participation().is_ok());
        } else {
            assert!(aggregate.verify_participation().is_err());
        }
    }
}

fn check_threshold<const N: usize>() {
    let threshold = (2 * N + 2) / 3;
    assert_eq!(aggregate_with_bits::<N>(threshold).verify_participation(), Ok(()));
    if threshold > 0 {
        assert_eq!(
            aggregate_with_bits::<N>(threshold - 1).verify_participation(),
            Err(VerificationError::InsufficientParticipation)
        );
    }
}

#[test]
fn quorum_threshold_boundaries() {
    check_threshold::<1>();
    check_threshold::<2>();
    check_threshold::<3>();
    check_threshold::<4>();
    check_threshold::<5>();
    check_threshold::<10>();
    check_threshold::<11>();
    check_threshold::<32>();
    check_threshold::<512>();
    assert_eq!(aggregate_with_bits::<32>(22).verify_participation(), Ok(()));
    assert!(aggregate_with_bits::<32>(21).verify_participation().is_err());
    assert_eq!(aggregate_with_bits::<0>(0).verify_participation(), Ok(()));
}

#[test]
fn zero_header_root_is_the_depth_three_zero_hash() {
    let h = BeaconBlockHeader {
        slot: 0,
        proposer_index: 0,
        parent_root: [0u8; 32],
        state_root: [0u8; 32],
        body_root: [0u8; 32],
    };
    assert_eq!(
        h.hash_tree_root(),
        hex32("0xc78009fdf07fc56a11f122370658a353aaa542ed63e44c4bc15ff4cd105ab33c")
    );
}

#[test]
fn zero_fork_data_root_is_the_depth_one_zero_hash() {
    let f = ForkData { fork_version: [0u8; 4], genesis_validators_root: [0u8; 32] };
    let root = hex32("0xf5a5fd42d16a20302798ef6ed309979b43003d2320d9f0e8ea9831a92759fb4b");
    assert_eq!(f.hash_tree_root(), root);
    assert_eq!(f.fork_digest(), [0xf5, 0xa5, 0xfd, 0x42]);
}

#[test]
fn domain_is_tag_then_fork_root_prefix() {
    let f = ForkData { fork_version: [2, 0, 0, 0], genesis_validators_root: [3u8; 32] };
    let d = compute_domain(DomainType::SyncCommittee, &f);
    let root = f.hash_tree_root();
    assert_eq!(&d[..4], &[7u8, 0, 0, 0]);
    assert_eq!(&d[4..], &root[..28]);
    assert_eq!(DomainType::SyncCommittee.as_bytes(), [7, 0, 0, 0]);
    let zero = ForkData { fork_version: [0u8; 4], genesis_validators_root: [0u8; 32] };
    let dz = compute_domain(DomainType::SyncCommittee, &zero);
    assert_eq!(&dz[..8], &[7u8, 0, 0, 0, 0xf5, 0xa5, 0xfd, 0x42]);
}

#[test]
fn signing_root_of_zeros_is_the_depth_one_zero_hash() {
    let r = compute_signing_root([0u8; 32], [0u8; 32]);
    assert_eq!(r, hex32("f5a5fd42d16a20302798ef6ed309979b43003d2320d9f0e8ea9831a92759fb4b"));
    assert_ne!(compute_signing_root([1u8; 32], [0u8; 32]), r);
}

#[test]
fn merkle_branch_of_zero_tree() {
    let zero = [0u8; 32];
    let z1 = hex32("f5a5fd42d16a20302798ef6ed309979b43003d2320d9f0e8ea9831a92759fb4b");
    let z2 = hex32("db56114e00fdd4c1f85c892bf35ac9a89289aaecb1ebd0a96cde606a748b5d71");
    assert!(is_valid_merkle_branch(&zero, &[zero, z1], 2, 5, &z2));
    assert!(!is_valid_merkle_branch(&zero, &[zero, z1], 2, 5, &z1));
    assert!(!is_valid_merkle_branch(&zero, &[zero], 2, 5, &z2));
}

#[test]
fn hex_text_decodes_with_or_without_prefix() {
    assert_eq!(try_bytes_from_hex_str("0x0aFf"), Ok(vec![0x0a, 0xff]));
    assert_eq!(try_bytes_from_hex_str("0aff"), Ok(vec![0x0a, 0xff]));
    assert_eq!(try_bytes_from_hex_str("0x"), Ok(vec![]));
    assert_eq!(try_bytes_from_hex_str("0x0af"), Err(DecodeError::InvalidHex));
    assert_eq!(try_bytes_from_hex_str("0xzz"), Err(DecodeError::InvalidHex));
}

#[test]
fn keys_and_signatures_reject_wrong_lengths() {
    let key_hex = format!("0x{}", "ab".repeat(48));
    let key = BlsPublicKey::from_hex_str(&key_hex).unwrap();
    assert_eq!(key.0, [0xab; 48]);
    assert_eq!(BlsPublicKey::from_hex_str(&"ab".repeat(47)), Err(DecodeError::WrongLength));
    assert_eq!(BlsPublicKey::from_hex_str("0xabc"), Err(DecodeError::InvalidHex));
    assert_eq!(BlsPublicKey::try_from_bytes(&[1u8; 49]), Err(DecodeError::WrongLength));
    let sig = BlsSignature::from_hex_str(&"CD".repeat(96)).unwrap();
    assert_eq!(sig.to_bytes(), &[0xcd; 96][..]);
    assert_eq!(BlsSignature::try_from_bytes(&[1u8; 48]), Err(DecodeError::WrongLength));
    assert_eq!(BlsSignature::try_from_bytes(&[2u8; 96]), Ok(BlsSignature([2u8; 96])));
}

#[test]
fn byte_vectors_and_lists_check_lengths() {
    assert!(ByteVector::<20>::try_from_bytes(vec![0u8; 20]).is_ok());
    assert_eq!(ByteVector::<20>::try_from_bytes(vec![0u8; 19]), Err(DecodeError::WrongLength));
    assert_eq!(ByteList::<4>::try_from_bytes(vec![1, 2]).unwrap().as_slice(), &[1u8, 2][..]);
    assert_eq!(ByteList::<4>::try_from_bytes(vec![0u8; 5]), Err(DecodeError::WrongLength));
}

#[test]
fn bls_errors_compare() {
    assert_ne!(BlsError::InvalidKey, BlsError::InvalidSignature);
}

#[test]
fn short_or_long_bit_vectors_are_refused() {
    let mut a = aggregate_with_bits::<12>(12);
    a.sync_committee_bits.pop();
    assert_eq!(a.verify_participation(), Err(VerificationError::WrongLength));
    let mut b = aggregate_with_bits::<12>(12);
    b.sync_committee_bits.push(true);
    assert_eq!(b.verify_participation(), Err(VerificationError::WrongLength));
}

#[test]
fn key_and_signature_hex_round_trip_keeps_value_and_root() {
    let key = BlsPublicKey([0x9cu8; 48]);
    let lower = format!("0x{}", "9c".repeat(48));
    let upper = "9C".repeat(48);
    let k1 = BlsPublicKey::from_hex_str(&lower).unwrap();
    let k2 = BlsPublicKey::from_hex_str(&upper).unwrap();
    assert_eq!(k1, key);
    assert_eq!(k2, key);
    assert_eq!(k1.hash_tree_root(), key.hash_tree_root());
    let sig = BlsSignature([0x3au8; 96]);
    let s1 = BlsSignature::from_hex_str(&format!("0x{}", "3A".repeat(96))).unwrap();
    assert_eq!(s1, sig);
    assert_eq!(s1.hash_tree_root(), sig.hash_tree_root());
}

#[test]
fn zero_key_and_signature_roots_are_zero_hashes() {
    let z1 = hex32("f5a5fd42d16a20302798ef6ed309979b43003d2320d9f0e8ea9831a92759fb4b");
    let z2 = hex32("db56114e00fdd4c1f85c892bf35ac9a89289aaecb1ebd0a96cde606a748b5d71");
    assert_eq!(BlsPublicKey([0u8; 48]).hash_tree_root(), z1);
    assert_eq!(BlsSignature([0u8; 96]).hash_tree_root(), z2);
}

#[test]
fn decompressed_bytes_error_for_bad_key() {
    assert_eq!(BlsPublicKey([0x11u8; 48]).decompressed_bytes(), Err(BlsError::InvalidKey));
}
