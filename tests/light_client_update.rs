use blst::min_pk as bls;
use ethereum_consensus_types::bls::BlsError;
use ethereum_consensus_types::merkle::merkleize;
use ethereum_consensus_types::signing::{compute_domain, compute_signing_root, DomainType};
use ethereum_consensus_types::{
    BeaconBlockHeader, BlsPublicKey, BlsSignature, ForkData, LightClientUpdate, Root,
    SyncAggregate, SyncCommittee, VerificationError,
};

const DST: &[u8] = b"BLS_SIG_BLS12381G2_XMD:SHA-256_SSWU_RO_POP_";
const SIZE: usize = 32;

type Update = LightClientUpdate<32, 55, 5, 105, 6>;

fn secret_key(i: usize) -> bls::SecretKey {
    let mut ikm = [0u8; 32];
    ikm[0] = i as u8 + 1;
    ikm[31] = 0x5a;
    bls::SecretKey::key_gen(&ikm, &[]).unwrap()
}

fn public_key(sk: &bls::SecretKey) -> BlsPublicKey {
    BlsPublicKey(sk.sk_to_pk().to_bytes())
}

fn node(tag: u8) -> Root {
    let mut r = [0u8; 32];
    r[0] = tag;
    r[31] = tag.wrapping_mul(7);
    r
}

fn hash_pair(a: &Root, b: &Root) -> Root {
    let mut chunks = a.to_vec();
    chunks.extend_from_slice(b);
    merkleize(&chunks)
}

fn header(slot: u64, state_root: Root) -> BeaconBlockHeader {
    BeaconBlockHeader {
        slot,
        proposer_index: 3,
        parent_root: node(1),
        state_root,
        body_root: node(2),
    }
}

fn fork() -> ForkData {
    ForkData { fork_version: [1, 0, 0, 1], genesis_validators_root: node(9) }
}

struct Fixture {
    sks: Vec<bls::SecretKey>,
    committee: SyncCommittee<SIZE>,
    update: Update,
}

/// Builds a state tree in which the next committee sits at generalized index
/// 55 and the finalized header at 105, and signs the attested header with the
/// first `signers` members of a 32-member committee.
fn fixture(signers: usize) -> Fixture {
    let sks: Vec<bls::SecretKey> = (0..SIZE).map(secret_key).collect();
    let pubkeys: Vec<BlsPublicKey> = sks.iter().map(public_key).collect();
    let pks: Vec<bls::PublicKey> = sks.iter().map(|s| s.sk_to_pk()).collect();
    let pk_refs: Vec<&bls::PublicKey> = pks.iter().collect();
    let agg = bls::AggregatePublicKey::aggregate(&pk_refs, false).unwrap();
    let committee = SyncCommittee::<SIZE> {
        pubkeys: pubkeys.clone(),
        aggregate_pubkey: BlsPublicKey(agg.to_public_key().to_bytes()),
    };
    let next_committee = SyncCommittee::<SIZE> {
        pubkeys: pubkeys.iter().rev().cloned().collect(),
        aggregate_pubkey: committee.aggregate_pubkey,
    };
    let finalized = header(40, node(20));

    let leaf55 = next_committee.hash_tree_root();
    let leaf105 = finalized.hash_tree_root();
    let (n54, n104, n53, n12, n7, n2) = (node(54), node(104), node(53), node(12), node(7), node(2));
    let n27 = hash_pair(&n54, &leaf55);
    let n52 = hash_pair(&n104, &leaf105);
    let n26 = hash_pair(&n52, &n53);
    let n13 = hash_pair(&n26, &n27);
    let n6 = hash_pair(&n12, &n13);
    let n3 = hash_pair(&n6, &n7);
    let state_root = hash_pair(&n2, &n3);

    let attested = header(48, state_root);
    let domain = compute_domain(DomainType::SyncCommittee, &fork());
    let signing_root = compute_signing_root(attested.hash_tree_root(), domain);
    let sigs: Vec<bls::Signature> =
        sks[..signers.max(1)].iter().map(|sk| sk.sign(&signing_root, DST, &[])).collect();
    let sig_refs: Vec<&bls::Signature> = sigs.iter().collect();
    let signature = bls::AggregateSignature::aggregate(&sig_refs, true).unwrap().to_signature();

    let mut bits = vec![false; SIZE];
    for b in bits.iter_mut().take(signers) {
        *b = true;
    }
    let update = Update {
        attested_header: attested,
        next_sync_committee: next_committee,
        next_sync_committee_branch: vec![n54, n26, n12, n7, n2],
        finalized_header: finalized,
        finality_branch: vec![n104, n53, n27, n12, n7, n2],
        sync_aggregate: SyncAggregate {
            sync_committee_bits: bits,
            sync_committee_signature: BlsSignature(signature.to_bytes()),
        },
        signature_slot: 49,
    };
    Fixture { sks, committee, update }
}

#[test]
fn genuine_update_verifies() {
    let f = fixture(24);
    assert_eq!(f.update.verify(&fork(), &f.committee), Ok(true));
    assert_eq!(f.update.verify_proofs(), Ok(true));
}

#[test]
fn finalized_slot_change_fails_finality_only() {
    let f = fixture(22);
    assert_eq!(f.update.verify(&fork(), &f.committee), Ok(true));
    let mut changed = f.update.clone();
    changed.finalized_header.slot += 1;
    assert_eq!(changed.verify(&fork(), &f.committee), Ok(false));
    assert_eq!(changed.verify_signature(&fork(), &f.committee), Ok(()));
    assert_eq!(changed.verify_next_sync_committee(), Ok(true));
    assert_eq!(changed.verify_finality(), Ok(false));
}

#[test]
fn flipped_signature_bits_fail_signature_only() {
    let f = fixture(32);
    for bit in [0usize, 5, 100, 400, 767] {
        let mut changed = f.update.clone();
        changed.sync_aggregate.sync_committee_signature.0[bit / 8] ^= 1 << (bit % 8);
        assert_eq!(
            changed.verify_signature(&fork(), &f.committee),
            Err(VerificationError::BlsError(BlsError::InvalidSignature))
        );
        assert_eq!(changed.verify_proofs(), Ok(true));
    }
}

#[test]
fn substituted_committee_key_fails_signature_only() {
    let f = fixture(32);
    let mut committee = f.committee.clone();
    committee.pubkeys[4] = public_key(&secret_key(200));
    assert_eq!(
        f.update.verify_signature(&fork(), &committee),
        Err(VerificationError::BlsError(BlsError::InvalidSignature))
    );
    assert_eq!(f.update.verify_proofs(), Ok(true));
    assert!(f.sks.len() == SIZE);
}

#[test]
fn corrupted_branch_nodes_fail_only_their_proof() {
    let f = fixture(24);
    for i in 0..5 {
        let mut changed = f.update.clone();
        changed.next_sync_committee_branch[i][3] ^= 0x10;
        assert_eq!(changed.verify_next_sync_committee(), Ok(false));
        assert_eq!(changed.verify_finality(), Ok(true));
        assert_eq!(changed.verify_signature(&fork(), &f.committee), Ok(()));
        assert_eq!(changed.verify(&fork(), &f.committee), Ok(false));
    }
    for i in 0..6 {
        let mut changed = f.update.clone();
        changed.finality_branch[i][0] ^= 0x01;
        assert_eq!(changed.verify_finality(), Ok(false));
        assert_eq!(changed.verify_next_sync_committee(), Ok(true));
        assert_eq!(changed.verify_signature(&fork(), &f.committee), Ok(()));
    }
}

#[test]
fn below_quorum_is_rejected_before_the_signature() {
    let f = fixture(21);
    assert_eq!(
        f.update.verify(&fork(), &f.committee),
        Err(VerificationError::InsufficientParticipation)
    );
    assert_eq!(f.update.verify_signature(&fork(), &f.committee), Ok(()));
}

#[test]
fn no_participants_means_no_signers() {
    let f = fixture(0);
    assert_eq!(f.committee.aggregate_pubkey(&vec![false; SIZE]), Ok(None));
    assert_eq!(
        f.update.verify_signature(&fork(), &f.committee),
        Err(VerificationError::NoSigners)
    );
    assert_eq!(
        f.update.verify(&fork(), &f.committee),
        Err(VerificationError::InsufficientParticipation)
    );
}

#[test]
fn aggregation_is_independent_of_order() {
    let sks: Vec<bls::SecretKey> = (0..6).map(secret_key).collect();
    let keys: Vec<BlsPublicKey> = sks.iter().map(public_key).collect();
    let bits = vec![true, false, true, true, false, true];
    let forward = SyncCommittee::<6> { pubkeys: keys.clone(), aggregate_pubkey: keys[0] };
    let order = [5usize, 2, 4, 0, 3, 1];
    let permuted = SyncCommittee::<6> {
        pubkeys: order.iter().map(|&i| keys[i]).collect(),
        aggregate_pubkey: keys[0],
    };
    let permuted_bits: Vec<bool> = order.iter().map(|&i| bits[i]).collect();
    let a = forward.aggregate_pubkey(&bits).unwrap().unwrap();
    let b = permuted.aggregate_pubkey(&permuted_bits).unwrap().unwrap();
    assert_eq!(a, b);
    let pks: Vec<bls::PublicKey> = [0usize, 2, 3, 5].iter().map(|&i| sks[i].sk_to_pk()).collect();
    let refs: Vec<&bls::PublicKey> = pks.iter().collect();
    let expected = bls::AggregatePublicKey::aggregate(&refs, false).unwrap().to_public_key();
    assert_eq!(a.0, expected.to_bytes());
}

#[test]
fn single_participant_key_is_that_key() {
    let keys: Vec<BlsPublicKey> = (0..3).map(|i| public_key(&secret_key(i))).collect();
    let committee = SyncCommittee::<3> { pubkeys: keys.clone(), aggregate_pubkey: keys[0] };
    assert_eq!(committee.aggregate_pubkey(&vec![false, true, false]), Ok(Some(keys[1])));
}

#[test]
fn undecodable_key_aborts_aggregation() {
    let keys: Vec<BlsPublicKey> = (0..3).map(|i| public_key(&secret_key(i))).collect();
    let mut pubkeys = keys.clone();
    pubkeys[1] = BlsPublicKey([0xffu8; 48]);
    let committee = SyncCommittee::<3> { pubkeys, aggregate_pubkey: keys[0] };
    assert_eq!(committee.aggregate_pubkey(&vec![true, true, true]), Err(BlsError::InvalidKey));
}

#[test]
fn key_aggregate_and_verify() {
    let sk_a = secret_key(1);
    let sk_b = secret_key(2);
    let a = public_key(&sk_a);
    let b = public_key(&sk_b);
    let joint = a.aggregate(b).unwrap();
    assert_ne!(joint, a);
    assert_ne!(joint, b);
    let msg = b"light client";
    let sa = sk_a.sign(msg, DST, &[]);
    let sb = sk_b.sign(msg, DST, &[]);
    let agg = bls::AggregateSignature::aggregate(&[&sa, &sb], true).unwrap().to_signature();
    let sig = BlsSignature(agg.to_bytes());
    assert_eq!(joint.verify_signature(msg, &sig), Ok(()));
    assert_eq!(a.verify_signature(msg, &sig), Err(BlsError::InvalidSignature));
    assert_eq!(a.verify_signature(msg, &BlsSignature(sa.to_bytes())), Ok(()));
    assert_eq!(
        a.verify_signature(msg, &BlsSignature([0u8; 96])),
        Err(BlsError::InvalidSignature)
    );
    assert_eq!(a.aggregate(BlsPublicKey([0xffu8; 48])), Err(BlsError::InvalidKey));
}

#[test]
fn decompressed_key_is_the_uncompressed_point() {
    let sk = secret_key(3);
    let k = public_key(&sk);
    assert_eq!(k.decompressed_bytes().unwrap(), sk.sk_to_pk().serialize().to_vec());
    assert_eq!(k.to_bytes(), &sk.sk_to_pk().to_bytes()[..]);
    assert_eq!(BlsPublicKey([0u8; 48]).decompressed_bytes(), Err(BlsError::InvalidKey));
}

#[test]
fn extra_bits_beyond_the_committee_are_refused() {
    let f = fixture(1);
    let mut changed = f.update.clone();
    changed.sync_aggregate.sync_committee_bits.extend(std::iter::repeat(true).take(21));
    assert_eq!(
        changed.sync_aggregate.verify_participation(),
        Err(VerificationError::WrongLength)
    );
    assert_eq!(changed.verify(&fork(), &f.committee), Err(VerificationError::WrongLength));
    assert_eq!(
        changed.verify_signature(&fork(), &f.committee),
        Err(VerificationError::WrongLength)
    );
}

#[test]
fn committee_with_missing_keys_is_refused() {
    let f = fixture(32);
    let mut committee = f.committee.clone();
    committee.pubkeys.pop();
    assert_eq!(
        f.update.verify_signature(&fork(), &committee),
        Err(VerificationError::WrongLength)
    );
    assert_eq!(f.update.verify(&fork(), &committee), Err(VerificationError::WrongLength));
}

#[test]
fn update_root_changes_with_each_field() {
    let f = fixture(24);
    let root = f.update.hash_tree_root();
    assert_eq!(root, f.update.clone().hash_tree_root());
    let mut a = f.update.clone();
    a.signature_slot += 1;
    assert_ne!(a.hash_tree_root(), root);
    let mut b = f.update.clone();
    b.finality_branch[2][0] ^= 1;
    assert_ne!(b.hash_tree_root(), root);
    let mut c = f.update.clone();
    c.sync_aggregate.sync_committee_bits[31] = true;
    assert_ne!(c.hash_tree_root(), root);
}
