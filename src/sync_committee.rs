use vstd::prelude::*;

use crate::bls::{aggregate_of, pubkey_root, signature_root, BlsError, BlsPublicKey, BlsSignature};
use crate::codec::{pack_bits, packed_bits};
use crate::merkle::{merkle_root_of, merkleize, push_bytes, push_zeros, zeros};
use crate::primitives::Root;
use crate::VerificationError;

verus! {

/// Number of `true` entries among the first `n` of `bits`.
pub open spec fn count_set(bits: Seq<bool>, n: int) -> nat
    decreases n,
{
    if n <= 0 {
        0
    } else {
        count_set(bits, n - 1) + if bits[n - 1] { 1nat } else { 0nat }
    }
}

/// Number of committee members marked as participating.
pub open spec fn participation_count(bits: Seq<bool>) -> nat {
    count_set(bits, bits.len() as int)
}

/// The quorum rule: at least two thirds of a committee of `size` members.
pub open spec fn meets_quorum(participants: nat, size: nat) -> bool {
    participants * 3 >= size * 2
}

/// The least number of participants that meets the quorum: `ceil(2 * size / 3)`.
pub open spec fn quorum_threshold(size: nat) -> nat {
    (2 * size + 2) / 3
}

/// A committee of `size` members reaches quorum with `ceil(2 * size / 3)`
/// participants or more, and with no fewer: exactly the threshold passes and
/// one below it fails.
pub proof fn lemma_quorum_threshold(size: nat, participants: nat)
    ensures
        meets_quorum(participants, size) <==> participants >= quorum_threshold(size),
        meets_quorum(quorum_threshold(size), size),
        quorum_threshold(size) > 0 ==> !meets_quorum((quorum_threshold(size) - 1) as nat, size),
{
    let t = quorum_threshold(size);
    assert(3 * t <= 2 * size + 2 && 2 * size + 2 < 3 * t + 3) by (nonlinear_arith)
        requires
            t == (2 * size + 2) / 3,
    ;
    assert(participants >= t ==> participants * 3 >= size * 2) by (nonlinear_arith)
        requires
            3 * t + 3 > 2 * size + 2,
    ;
    assert(participants < t ==> participants * 3 < size * 2) by (nonlinear_arith)
        requires
            3 * t <= 2 * size + 2,
    ;
}

proof fn lemma_count_set_prefix_zero(bits: Seq<bool>, m: int, n: int)
    requires
        0 <= n <= m,
        count_set(bits, m) == 0,
    ensures
        count_set(bits, n) == 0,
    decreases m - n,
{
    if n < m {
        lemma_count_set_prefix_zero(bits, m - 1, n);
    }
}

proof fn lemma_no_set_bits_selects_nothing(bits: Seq<bool>, keys: Seq<BlsPublicKey>, n: int)
    requires
        count_set(bits, n) == 0,
    ensures
        selected_keys(bits, keys, n).len() == 0,
    decreases n,
{
    if n > 0 {
        lemma_no_set_bits_selects_nothing(bits, keys, n - 1);
    }
}

proof fn lemma_selected_counts_set_bits(bits: Seq<bool>, keys: Seq<BlsPublicKey>, n: int)
    requires
        0 <= n,
    ensures
        selected_keys(bits, keys, n).len() == count_set(bits, n),
    decreases n,
{
    if n > 0 {
        lemma_selected_counts_set_bits(bits, keys, n - 1);
    }
}

/// Where there are as many bits as keys, every participant that the quorum
/// rule counts contributes its key to the aggregate: one key per set bit.
pub proof fn lemma_every_counted_bit_has_a_key(bits: Seq<bool>, keys: Seq<BlsPublicKey>)
    requires
        bits.len() == keys.len(),
    ensures
        participant_keys(bits, keys).len() == participation_count(bits),
{
    lemma_selected_counts_set_bits(bits, keys, bits.len() as int);
}

/// With no participant the aggregation yields no key, never a key and never an error.
pub proof fn lemma_no_participants_no_key(bits: Seq<bool>, keys: Seq<BlsPublicKey>)
    requires
        participation_count(bits) == 0,
    ensures
        aggregate_fold(participant_keys(bits, keys)) == Ok::<Option<Seq<u8>>, BlsError>(None),
{
    let n = if bits.len() <= keys.len() { bits.len() as int } else { keys.len() as int };
    lemma_count_set_prefix_zero(bits, bits.len() as int, n);
    lemma_no_set_bits_selects_nothing(bits, keys, n);
}

proof fn lemma_count_set_bounded(bits: Seq<bool>, n: int)
    requires
        0 <= n <= bits.len(),
    ensures
        count_set(bits, n) <= n,
    decreases n,
{
    if n > 0 {
        lemma_count_set_bounded(bits, n - 1);
    }
}

/// An aggregate signature from a subset of the members of a sync committee,
/// with one bit per member telling whether it signed.
#[derive(Clone, Debug, PartialEq, Eq)]
pub struct SyncAggregate<const SYNC_COMMITTEE_SIZE: usize> {
    pub sync_committee_bits: Vec<bool>,
    pub sync_committee_signature: BlsSignature,
}

/// Zero bytes that fill `len` bytes up to whole 32-byte chunks.
pub open spec fn chunk_padding(len: nat) -> nat {
    if len % 32 == 0 {
        0
    } else {
        (32 - len % 32) as nat
    }
}

/// The hash tree root of a bit vector: its packing, padded to whole chunks.
pub open spec fn bits_root(bits: Seq<bool>) -> Seq<u8> {
    merkle_root_of(packed_bits(bits) + zeros(chunk_padding(packed_bits(bits).len())))
}

/// The hash tree root of a sync aggregate: the root of its bits, then the
/// root of its signature.
pub open spec fn aggregate_root<const N: usize>(a: SyncAggregate<N>) -> Seq<u8> {
    merkle_root_of(bits_root(a.sync_committee_bits@) + signature_root(a.sync_committee_signature))
}

/// The outcome of the quorum check on the bits of a committee of `size`:
/// one bit per member, and at least two thirds of them set.
pub open spec fn participation_outcome(bits: Seq<bool>, size: nat) -> Result<(), VerificationError> {
    if bits.len() != size {
        Err(VerificationError::WrongLength)
    } else if meets_quorum(participation_count(bits), size) {
        Ok(())
    } else {
        Err(VerificationError::InsufficientParticipation)
    }
}

impl<const SYNC_COMMITTEE_SIZE: usize> SyncAggregate<SYNC_COMMITTEE_SIZE> {
    pub fn hash_tree_root(&self) -> (r: Root)
        ensures
            r@ == aggregate_root(*self),
    {
        let mut packed = pack_bits(&self.sync_committee_bits);
        let len = packed.len();
        let pad: usize = if len % 32 == 0 {
            0
        } else {
            32 - len % 32
        };
        push_zeros(&mut packed, pad);
        let bits_root = merkleize(&packed);
        let sig_root = self.sync_committee_signature.hash_tree_root();
        let mut chunks: Vec<u8> = Vec::new();
        push_bytes(&mut chunks, bits_root.as_slice());
        push_bytes(&mut chunks, sig_root.as_slice());
        merkleize(&chunks)
    }

    /// Checks that the aggregate has one bit per committee member and that
    /// enough members took part in the signature.
    pub fn verify_participation(&self) -> (r: Result<(), VerificationError>)
        ensures
            r == participation_outcome(self.sync_committee_bits@, SYNC_COMMITTEE_SIZE as nat),
    {
        if self.sync_committee_bits.len() != SYNC_COMMITTEE_SIZE {
            return Err(VerificationError::WrongLength);
        }
        let bits = &self.sync_committee_bits;
        let mut participation: usize = 0;
        let mut i: usize = 0;
        while i < bits.len()
            invariant
                i <= bits@.len(),
                participation == count_set(bits@, i as int),
            decreases bits@.len() - i,
        {
            proof {
                lemma_count_set_bounded(bits@, i as int);
            }
            if bits[i] {
                participation = participation + 1;
            }
            i = i + 1;
        }
        if participation as u128 * 3 >= SYNC_COMMITTEE_SIZE as u128 * 2 {
            Ok(())
        } else {
            Err(VerificationError::InsufficientParticipation)
        }
    }
}

/// The keys of the members whose bit is set, among the first `n` pairs of
/// bits and keys, in committee order.
pub open spec fn selected_keys(bits: Seq<bool>, keys: Seq<BlsPublicKey>, n: int) -> Seq<Seq<u8>>
    decreases n,
{
    if n <= 0 {
        Seq::empty()
    } else if bits[n - 1] {
        selected_keys(bits, keys, n - 1).push(keys[n - 1].0@)
    } else {
        selected_keys(bits, keys, n - 1)
    }
}

/// The keys of the participating members, bits and keys paired in order.
pub open spec fn participant_keys(bits: Seq<bool>, keys: Seq<BlsPublicKey>) -> Seq<Seq<u8>> {
    selected_keys(bits, keys, if bits.len() <= keys.len() { bits.len() as int } else { keys.len() as int })
}

/// The keys folded from the left by pairwise aggregation: `None` for no keys,
/// an error as soon as one step fails.
pub open spec fn aggregate_fold(keys: Seq<Seq<u8>>) -> Result<Option<Seq<u8>>, BlsError>
    decreases keys.len(),
{
    if keys.len() == 0 {
        Ok(None)
    } else {
        match aggregate_fold(keys.drop_last()) {
            Err(e) => Err(e),
            Ok(None) => Ok(Some(keys.last())),
            Ok(Some(acc)) => match aggregate_of(acc, keys.last()) {
                Some(k) => Ok(Some(k)),
                None => Err(BlsError::InvalidKey),
            },
        }
    }
}

/// Once a prefix of the fold has failed, every longer prefix fails alike.
proof fn lemma_fold_error_persists(bits: Seq<bool>, keys: Seq<BlsPublicKey>, m: int, n: int)
    requires
        0 <= m <= n,
        aggregate_fold(selected_keys(bits, keys, m)) is Err,
    ensures
        aggregate_fold(selected_keys(bits, keys, n)) == aggregate_fold(selected_keys(bits, keys, m)),
    decreases n - m,
{
    if n > m {
        lemma_fold_error_persists(bits, keys, m, n - 1);
        if bits[n - 1] {
            let s = selected_keys(bits, keys, n);
            assert(s.drop_last() =~= selected_keys(bits, keys, n - 1));
        }
    }
}

/// The view of an optional key.
pub open spec fn key_view(k: Option<BlsPublicKey>) -> Option<Seq<u8>> {
    match k {
        Some(k) => Some(k.0@),
        None => None,
    }
}

/// The roots of the first `n` keys, one after another.
pub open spec fn pubkey_roots(keys: Seq<BlsPublicKey>, n: int) -> Seq<u8>
    decreases n,
{
    if n <= 0 {
        Seq::empty()
    } else {
        pubkey_roots(keys, n - 1) + pubkey_root(keys[n - 1])
    }
}

/// The hash tree root of a committee: the root of its key vector, then the
/// root of its aggregate key.
pub open spec fn committee_root<const N: usize>(c: SyncCommittee<N>) -> Seq<u8> {
    merkle_root_of(
        merkle_root_of(pubkey_roots(c.pubkeys@, c.pubkeys@.len() as int)) + pubkey_root(
            c.aggregate_pubkey,
        ),
    )
}

/// The members of a sync committee: the public keys, in order, and their
/// precomputed aggregate key.
#[derive(Clone, Debug, PartialEq, Eq)]
pub struct SyncCommittee<const SYNC_COMMITTEE_SIZE: usize> {
    pub pubkeys: Vec<BlsPublicKey>,
    pub aggregate_pubkey: BlsPublicKey,
}

impl<const SYNC_COMMITTEE_SIZE: usize> SyncCommittee<SYNC_COMMITTEE_SIZE> {
    /// Aggregates the keys of the members that `participation` marks, in
    /// committee order; `Ok(None)` where none is marked. A key that does not
    /// decode ends the aggregation with an error.
    pub fn aggregate_pubkey(&self, participation: &Vec<bool>) -> (r: Result<
        Option<BlsPublicKey>,
        BlsError,
    >)
        ensures
            match aggregate_fold(participant_keys(participation@, self.pubkeys@)) {
                Ok(k) => r matches Ok(a) && key_view(a) == k,
                Err(e) => r == Err::<Option<BlsPublicKey>, BlsError>(e),
            },
    {
        let n: usize = if participation.len() <= self.pubkeys.len() {
            participation.len()
        } else {
            self.pubkeys.len()
        };
        let mut acc: Option<BlsPublicKey> = None;
        let mut i: usize = 0;
        while i < n
            invariant
                n == (if participation@.len() <= self.pubkeys@.len() {
                    participation@.len()
                } else {
                    self.pubkeys@.len()
                }),
                i <= n,
                aggregate_fold(selected_keys(participation@, self.pubkeys@, i as int)) == Ok::<
                    Option<Seq<u8>>,
                    BlsError,
                >(key_view(acc)),
            decreases n - i,
        {
            let ghost prev = selected_keys(participation@, self.pubkeys@, i as int);
            if participation[i] {
                let key = self.pubkeys[i];
                assert(selected_keys(participation@, self.pubkeys@, i + 1).drop_last() =~= prev);
                match acc {
                    None => {
                        acc = Some(key);
                    },
                    Some(a) => {
                        match a.aggregate(key) {
                            Ok(k) => {
                                acc = Some(k);
                            },
                            Err(e) => {
                                proof {
                                    let s = selected_keys(participation@, self.pubkeys@, i + 1);
                                    assert(s.last() == key.0@);
                                    assert(aggregate_fold(s) == Err::<Option<Seq<u8>>, BlsError>(
                                        e,
                                    ));
                                    lemma_fold_error_persists(
                                        participation@,
                                        self.pubkeys@,
                                        i + 1,
                                        n as int,
                                    );
                                    assert(participant_keys(participation@, self.pubkeys@)
                                        == selected_keys(participation@, self.pubkeys@, n as int));
                                    assert(aggregate_fold(selected_keys(participation@, self.pubkeys@, n as int))
                                        == Err::<Option<Seq<u8>>, BlsError>(e));
                                }
                                return Err(e);
                            },
                        }
                    },
                }
            }
            i = i + 1;
        }
        assert(participant_keys(participation@, self.pubkeys@) == selected_keys(participation@, self.pubkeys@, n as int));
        Ok(acc)
    }

    pub fn hash_tree_root(&self) -> (r: Root)
        ensures
            r@ == committee_root(*self),
    {
        let keys = &self.pubkeys;
        let mut roots: Vec<u8> = Vec::new();
        let mut i: usize = 0;
        while i < keys.len()
            invariant
                i <= keys@.len(),
                roots@ == pubkey_roots(keys@, i as int),
                roots@.len() == 32 * i,
            decreases keys@.len() - i,
        {
            let root = keys[i].hash_tree_root();
            push_bytes(&mut roots, root.as_slice());
            i = i + 1;
        }
        let keys_root = merkleize(&roots);
        let agg_root = self.aggregate_pubkey.hash_tree_root();
        let mut chunks: Vec<u8> = Vec::new();
        push_bytes(&mut chunks, keys_root.as_slice());
        push_bytes(&mut chunks, agg_root.as_slice());
        merkleize(&chunks)
    }
}

} // verus!
