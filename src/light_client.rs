//! Light client updates and the check that one may replace a trusted
//! header and committee.
use vstd::prelude::*;

use crate::beacon_block_header::{header_root, BeaconBlockHeader};
use crate::bls::{pop_verifies, BlsError, BlsSignature};
use crate::merkle::{
    branch_view, is_valid_merkle_branch, merkle_branch_valid, merkle_root_of, merkleize, push_bytes,
    push_u64_chunk, u64_chunk,
};
use crate::primitives::{ByteList, ByteVector, Bytes32, ExecutionAddress, Root, Slot, U256};
use crate::signing::{compute_domain, compute_signing_root, domain_of, signing_root, DomainType, ForkData};
use crate::sync_committee::{
    aggregate_fold, aggregate_root, lemma_no_participants_no_key, committee_root, participant_keys, participation_count, participation_outcome,
    SyncAggregate, SyncCommittee,
};
use crate::VerificationError;

verus! {

/// Everything needed to prove, from a trusted committee of the previous
/// period, a new finalized header and the next sync committee.
#[derive(Clone, Debug, PartialEq, Eq)]
pub struct LightClientUpdate<
    const SYNC_COMMITTEE_SIZE: usize,
    const NEXT_SYNC_COMMITTEE_GINDEX: usize,
    const NEXT_SYNC_COMMITTEE_PROOF_SIZE: usize,
    const FINALIZED_ROOT_GINDEX: usize,
    const FINALIZED_ROOT_PROOF_SIZE: usize,
> {
    pub attested_header: BeaconBlockHeader,
    pub next_sync_committee: SyncCommittee<SYNC_COMMITTEE_SIZE>,
    pub next_sync_committee_branch: Vec<Root>,
    pub finalized_header: BeaconBlockHeader,
    pub finality_branch: Vec<Root>,
    pub sync_aggregate: SyncAggregate<SYNC_COMMITTEE_SIZE>,
    pub signature_slot: Slot,
}

/// The first `n` nodes of a branch, one after another.
pub open spec fn nodes_bytes(nodes: Seq<Root>, n: int) -> Seq<u8>
    decreases n,
{
    if n <= 0 {
        Seq::empty()
    } else {
        nodes_bytes(nodes, n - 1) + nodes[n - 1]@
    }
}

/// The hash tree root of a branch: its nodes as chunks.
pub open spec fn branch_root(nodes: Seq<Root>) -> Seq<u8> {
    merkle_root_of(nodes_bytes(nodes, nodes.len() as int))
}

/// The hash tree root of an update: the roots of its seven fields, in order.
pub open spec fn update_root<
    const N: usize,
    const NG: usize,
    const NP: usize,
    const FG: usize,
    const FP: usize,
>(u: LightClientUpdate<N, NG, NP, FG, FP>) -> Seq<u8> {
    merkle_root_of(update_root_chunks(u))
}

/// The seven field roots of an update, one after another.
pub open spec fn update_root_chunks<
    const N: usize,
    const NG: usize,
    const NP: usize,
    const FG: usize,
    const FP: usize,
>(u: LightClientUpdate<N, NG, NP, FG, FP>) -> Seq<u8> {
    header_root(u.attested_header) + committee_root(u.next_sync_committee) + branch_root(
        u.next_sync_committee_branch@,
    ) + header_root(u.finalized_header) + branch_root(u.finality_branch@) + aggregate_root(
        u.sync_aggregate,
    ) + u64_chunk(u.signature_slot)
}

fn branch_hash_tree_root(nodes: &Vec<Root>) -> (r: Root)
    ensures
        r@ == branch_root(nodes@),
{
    let mut chunks: Vec<u8> = Vec::new();
    let mut i: usize = 0;
    while i < nodes.len()
        invariant
            i <= nodes@.len(),
            chunks@ == nodes_bytes(nodes@, i as int),
            chunks@.len() == 32 * i,
        decreases nodes@.len() - i,
    {
        push_bytes(&mut chunks, nodes[i].as_slice());
        i = i + 1;
    }
    merkleize(&chunks)
}

/// Whether the next committee's branch proves it part of the attested state.
pub open spec fn next_committee_proof_valid<
    const N: usize,
    const NG: usize,
    const NP: usize,
    const FG: usize,
    const FP: usize,
>(u: LightClientUpdate<N, NG, NP, FG, FP>) -> bool {
    merkle_branch_valid(
        committee_root(u.next_sync_committee),
        branch_view(u.next_sync_committee_branch@),
        NP as nat,
        NG as nat,
        u.attested_header.state_root@,
    )
}

/// Whether the finality branch proves the finalized header part of the attested state.
pub open spec fn finality_proof_valid<
    const N: usize,
    const NG: usize,
    const NP: usize,
    const FG: usize,
    const FP: usize,
>(u: LightClientUpdate<N, NG, NP, FG, FP>) -> bool {
    merkle_branch_valid(
        header_root(u.finalized_header),
        branch_view(u.finality_branch@),
        FP as nat,
        FG as nat,
        u.attested_header.state_root@,
    )
}

/// The root that the committee signs for the attested header on the network of `f`.
pub open spec fn attested_signing_root<
    const N: usize,
    const NG: usize,
    const NP: usize,
    const FG: usize,
    const FP: usize,
>(u: LightClientUpdate<N, NG, NP, FG, FP>, f: ForkData) -> Seq<u8> {
    signing_root(header_root(u.attested_header), domain_of(DomainType::SyncCommittee, f))
}

/// The outcome of checking the aggregate signature against committee `c`:
/// one bit and one key per member, then the aggregate key of the marked
/// members, then the signature under it.
pub open spec fn signature_outcome<
    const N: usize,
    const NG: usize,
    const NP: usize,
    const FG: usize,
    const FP: usize,
>(u: LightClientUpdate<N, NG, NP, FG, FP>, f: ForkData, c: SyncCommittee<N>) -> Result<
    (),
    VerificationError,
> {
    if u.sync_aggregate.sync_committee_bits@.len() != N || c.pubkeys@.len() != N {
        Err(VerificationError::WrongLength)
    } else {
        match aggregate_fold(participant_keys(u.sync_aggregate.sync_committee_bits@, c.pubkeys@)) {
            Err(e) => Err(VerificationError::BlsError(e)),
            Ok(None) => Err(VerificationError::NoSigners),
            Ok(Some(k)) => if pop_verifies(
                k,
                attested_signing_root(u, f),
                u.sync_aggregate.sync_committee_signature.0@,
            ) {
                Ok(())
            } else {
                Err(VerificationError::BlsError(BlsError::InvalidSignature))
            },
        }
    }
}

/// The outcome of the whole check: lengths and quorum, then signature, then
/// both proofs.
pub open spec fn update_outcome<
    const N: usize,
    const NG: usize,
    const NP: usize,
    const FG: usize,
    const FP: usize,
>(u: LightClientUpdate<N, NG, NP, FG, FP>, f: ForkData, c: SyncCommittee<N>) -> Result<
    bool,
    VerificationError,
> {
    match participation_outcome(u.sync_aggregate.sync_committee_bits@, N as nat) {
        Err(e) => Err(e),
        Ok(_) => match signature_outcome(u, f, c) {
            Err(e) => Err(e),
            Ok(_) => Ok(next_committee_proof_valid(u) && finality_proof_valid(u)),
        },
    }
}

/// With no participant the signature check fails with `NoSigners`.
pub proof fn lemma_no_participants_no_signers<
    const N: usize,
    const NG: usize,
    const NP: usize,
    const FG: usize,
    const FP: usize,
>(u: LightClientUpdate<N, NG, NP, FG, FP>, f: ForkData, c: SyncCommittee<N>)
    requires
        u.sync_aggregate.sync_committee_bits@.len() == N,
        c.pubkeys@.len() == N,
        participation_count(u.sync_aggregate.sync_committee_bits@) == 0,
    ensures
        signature_outcome(u, f, c) == Err::<(), VerificationError>(VerificationError::NoSigners),
{
    lemma_no_participants_no_key(u.sync_aggregate.sync_committee_bits@, c.pubkeys@);
}

/// Replacing the aggregate signature leaves both proof results as they were.
pub proof fn lemma_signature_does_not_touch_proofs<
    const N: usize,
    const NG: usize,
    const NP: usize,
    const FG: usize,
    const FP: usize,
>(u: LightClientUpdate<N, NG, NP, FG, FP>, sig: BlsSignature)
    ensures
        ({
            let v = LightClientUpdate {
                sync_aggregate: SyncAggregate { sync_committee_signature: sig, ..u.sync_aggregate },
                ..u
            };
            next_committee_proof_valid(v) == next_committee_proof_valid(u)
                && finality_proof_valid(v) == finality_proof_valid(u)
        }),
{
}

/// Against any two committees (one key swapped, say) whose signature checks
/// both pass, the update's outcome is the same: the committee does not
/// reach the proofs.
pub proof fn lemma_committee_does_not_touch_proofs<
    const N: usize,
    const NG: usize,
    const NP: usize,
    const FG: usize,
    const FP: usize,
>(u: LightClientUpdate<N, NG, NP, FG, FP>, f: ForkData, c1: SyncCommittee<N>, c2: SyncCommittee<N>)
    requires
        signature_outcome(u, f, c1) is Ok,
        signature_outcome(u, f, c2) is Ok,
    ensures
        update_outcome(u, f, c1) == update_outcome(u, f, c2),
{
}

/// Replacing the next committee's branch can change only that proof's
/// result: the signature check and the finality proof stay as they were.
pub proof fn lemma_next_branch_touches_only_its_proof<
    const N: usize,
    const NG: usize,
    const NP: usize,
    const FG: usize,
    const FP: usize,
>(u: LightClientUpdate<N, NG, NP, FG, FP>, branch: Vec<Root>, f: ForkData, c: SyncCommittee<N>)
    ensures
        ({
            let v = LightClientUpdate { next_sync_committee_branch: branch, ..u };
            signature_outcome(v, f, c) == signature_outcome(u, f, c)
                && finality_proof_valid(v) == finality_proof_valid(u)
        }),
{
}

/// Replacing the finality branch can change only that proof's result: the
/// signature check and the next committee's proof stay as they were.
pub proof fn lemma_finality_branch_touches_only_its_proof<
    const N: usize,
    const NG: usize,
    const NP: usize,
    const FG: usize,
    const FP: usize,
>(u: LightClientUpdate<N, NG, NP, FG, FP>, branch: Vec<Root>, f: ForkData, c: SyncCommittee<N>)
    ensures
        ({
            let v = LightClientUpdate { finality_branch: branch, ..u };
            signature_outcome(v, f, c) == signature_outcome(u, f, c)
                && next_committee_proof_valid(v) == next_committee_proof_valid(u)
        }),
{
}

/// Replacing the finalized header reaches the outcome through the finality
/// proof only: the signature check and the next committee's proof stay as they
/// were, and an update that was accepted now yields exactly the new finality
/// proof's result.
pub proof fn lemma_finalized_header_touches_only_finality<
    const N: usize,
    const NG: usize,
    const NP: usize,
    const FG: usize,
    const FP: usize,
>(u: LightClientUpdate<N, NG, NP, FG, FP>, h: BeaconBlockHeader, f: ForkData, c: SyncCommittee<N>)
    ensures
        ({
            let v = LightClientUpdate { finalized_header: h, ..u };
            &&& signature_outcome(v, f, c) == signature_outcome(u, f, c)
            &&& next_committee_proof_valid(v) == next_committee_proof_valid(u)
            &&& update_outcome(u, f, c) == Ok::<bool, VerificationError>(true) ==> update_outcome(
                v,
                f,
                c,
            ) == Ok::<bool, VerificationError>(finality_proof_valid(v))
        }),
{
}

impl<
    const SYNC_COMMITTEE_SIZE: usize,
    const NEXT_SYNC_COMMITTEE_GINDEX: usize,
    const NEXT_SYNC_COMMITTEE_PROOF_SIZE: usize,
    const FINALIZED_ROOT_GINDEX: usize,
    const FINALIZED_ROOT_PROOF_SIZE: usize,
> LightClientUpdate<
    SYNC_COMMITTEE_SIZE,
    NEXT_SYNC_COMMITTEE_GINDEX,
    NEXT_SYNC_COMMITTEE_PROOF_SIZE,
    FINALIZED_ROOT_GINDEX,
    FINALIZED_ROOT_PROOF_SIZE,
> {
    pub fn hash_tree_root(&self) -> (r: Root)
        ensures
            r@ == update_root(*self),
    {
        let mut chunks: Vec<u8> = Vec::new();
        push_bytes(&mut chunks, self.attested_header.hash_tree_root().as_slice());
        push_bytes(&mut chunks, self.next_sync_committee.hash_tree_root().as_slice());
        push_bytes(&mut chunks, branch_hash_tree_root(&self.next_sync_committee_branch).as_slice());
        push_bytes(&mut chunks, self.finalized_header.hash_tree_root().as_slice());
        push_bytes(&mut chunks, branch_hash_tree_root(&self.finality_branch).as_slice());
        push_bytes(&mut chunks, self.sync_aggregate.hash_tree_root().as_slice());
        push_u64_chunk(&mut chunks, self.signature_slot);
        assert(chunks@ =~= update_root_chunks(*self));
        merkleize(&chunks)
    }

    /// Decides whether this update may replace the caller's trusted header and
    /// committee: `Ok(true)` only when quorum, signature and both proofs hold.
    pub fn verify(&self, fork_data: &ForkData, committee: &SyncCommittee<SYNC_COMMITTEE_SIZE>) -> (r:
        Result<bool, VerificationError>)
        requires
            NEXT_SYNC_COMMITTEE_PROOF_SIZE <= 32,
            FINALIZED_ROOT_PROOF_SIZE <= 32,
        ensures
            r == update_outcome(*self, *fork_data, *committee),
    {
        self.sync_aggregate.verify_participation()?;
        self.verify_signature(fork_data, committee)?;
        self.verify_proofs()
    }

    /// Checks the aggregate signature of the committee members marked in the
    /// sync aggregate over the signing root of the attested header.
    pub fn verify_signature(
        &self,
        fork_data: &ForkData,
        committee: &SyncCommittee<SYNC_COMMITTEE_SIZE>,
    ) -> (r: Result<(), VerificationError>)
        ensures
            r == signature_outcome(*self, *fork_data, *committee),
    {
        if self.sync_aggregate.sync_committee_bits.len() != SYNC_COMMITTEE_SIZE
            || committee.pubkeys.len() != SYNC_COMMITTEE_SIZE {
            return Err(VerificationError::WrongLength);
        }
        let domain = compute_domain(DomainType::SyncCommittee, fork_data);
        let signing_root = compute_signing_root(self.attested_header.hash_tree_root(), domain);
        let key = match committee.aggregate_pubkey(&self.sync_aggregate.sync_committee_bits) {
            Err(e) => {
                return Err(VerificationError::BlsError(e));
            },
            Ok(None) => {
                return Err(VerificationError::NoSigners);
            },
            Ok(Some(k)) => k,
        };
        match key.verify_signature(signing_root.as_slice(), &self.sync_aggregate.sync_committee_signature) {
            Ok(()) => Ok(()),
            Err(e) => Err(VerificationError::BlsError(e)),
        }
    }

    /// Checks both Merkle proofs of this update against its attested state root.
    pub fn verify_proofs(&self) -> (r: Result<bool, VerificationError>)
        requires
            NEXT_SYNC_COMMITTEE_PROOF_SIZE <= 32,
            FINALIZED_ROOT_PROOF_SIZE <= 32,
        ensures
            r == Ok::<bool, VerificationError>(
                next_committee_proof_valid(*self) && finality_proof_valid(*self),
            ),
    {
        let next = self.verify_next_sync_committee()?;
        let finality = self.verify_finality()?;
        Ok(next && finality)
    }

    /// Checks the proof that `next_sync_committee` is part of the state
    /// rooted in the attested header.
    pub fn verify_next_sync_committee(&self) -> (r: Result<bool, VerificationError>)
        requires
            NEXT_SYNC_COMMITTEE_PROOF_SIZE <= 32,
        ensures
            r == Ok::<bool, VerificationError>(next_committee_proof_valid(*self)),
    {
        let leaf = self.next_sync_committee.hash_tree_root();
        Ok(
            is_valid_merkle_branch(
                &leaf,
                self.next_sync_committee_branch.as_slice(),
                NEXT_SYNC_COMMITTEE_PROOF_SIZE,
                NEXT_SYNC_COMMITTEE_GINDEX,
                &self.attested_header.state_root,
            ),
        )
    }

    /// Checks the proof that the finalized header is part of the state rooted
    /// in the attested header.
    pub fn verify_finality(&self) -> (r: Result<bool, VerificationError>)
        requires
            FINALIZED_ROOT_PROOF_SIZE <= 32,
        ensures
            r == Ok::<bool, VerificationError>(finality_proof_valid(*self)),
    {
        let leaf = self.finalized_header.hash_tree_root();
        Ok(
            is_valid_merkle_branch(
                &leaf,
                self.finality_branch.as_slice(),
                FINALIZED_ROOT_PROOF_SIZE,
                FINALIZED_ROOT_GINDEX,
                &self.attested_header.state_root,
            ),
        )
    }
}

/// The header of an execution block, as carried by a light client header.
#[derive(Debug, Clone, PartialEq, Eq)]
pub struct ExecutionPayloadHeader<const BYTES_PER_LOGS_BLOOM: usize, const MAX_EXTRA_DATA_BYTES: usize> {
    pub parent_hash: Root,
    pub fee_recipient: ExecutionAddress,
    pub state_root: Root,
    pub receipts_root: Root,
    pub logs_bloom: ByteVector<BYTES_PER_LOGS_BLOOM>,
    pub prev_randao: Root,
    pub block_number: u64,
    pub gas_limit: u64,
    pub gas_used: u64,
    pub timestamp: u64,
    pub extra_data: ByteList<MAX_EXTRA_DATA_BYTES>,
    pub base_fee_per_gas: U256,
    pub block_hash: Root,
    pub transactions_root: Root,
    pub withdrawals_root: Root,
}

/// A beacon header with its execution payload header and the branch that
/// places the latter in the beacon block body.
#[derive(Debug, Clone, PartialEq, Eq)]
pub struct LightClientHeader<const BYTES_PER_LOGS_BLOOM: usize, const MAX_EXTRA_DATA_BYTES: usize> {
    pub beacon: BeaconBlockHeader,
    pub execution: ExecutionPayloadHeader<BYTES_PER_LOGS_BLOOM, MAX_EXTRA_DATA_BYTES>,
    pub execution_branch: Vec<Bytes32>,
}

/// A light client update whose headers carry execution payload headers.
#[derive(Debug, Clone, PartialEq, Eq)]
pub struct LightClientUpdateCapella<
    const SYNC_COMMITTEE_SIZE: usize,
    const NEXT_SYNC_COMMITTEE_GINDEX: usize,
    const NEXT_SYNC_COMMITTEE_PROOF_SIZE: usize,
    const FINALIZED_ROOT_GINDEX: usize,
    const FINALIZED_ROOT_PROOF_SIZE: usize,
    const BYTES_PER_LOGS_BLOOM: usize,
    const MAX_EXTRA_DATA_BYTES: usize,
> {
    pub attested_header: LightClientHeader<BYTES_PER_LOGS_BLOOM, MAX_EXTRA_DATA_BYTES>,
    pub next_sync_committee: SyncCommittee<SYNC_COMMITTEE_SIZE>,
    pub next_sync_committee_branch: Vec<Root>,
    pub finalized_header: LightClientHeader<BYTES_PER_LOGS_BLOOM, MAX_EXTRA_DATA_BYTES>,
    pub finality_branch: Vec<Root>,
    pub sync_aggregate: SyncAggregate<SYNC_COMMITTEE_SIZE>,
    pub signature_slot: Slot,
}

/// The state a light client starts from: a header, the committee current at
/// it, and the branch that places the committee in the header's state.
#[derive(Debug, Clone, PartialEq, Eq)]
pub struct LightClientBootstrap<
    const SYNC_COMMITTEE_SIZE: usize,
    const NEXT_SYNC_COMMITTEE_PROOF_SIZE: usize,
    const BYTES_PER_LOGS_BLOOM: usize,
    const MAX_EXTRA_DATA_BYTES: usize,
> {
    pub header: LightClientHeader<BYTES_PER_LOGS_BLOOM, MAX_EXTRA_DATA_BYTES>,
    pub current_sync_committee: SyncCommittee<SYNC_COMMITTEE_SIZE>,
    pub current_sync_committee_branch: Vec<Root>,
}

/// An update that proves a new finalized header only.
#[derive(Debug, Clone, PartialEq, Eq)]
pub struct LightClientFinalityUpdate<
    const SYNC_COMMITTEE_SIZE: usize,
    const FINALIZED_ROOT_PROOF_SIZE: usize,
    const BYTES_PER_LOGS_BLOOM: usize,
    const MAX_EXTRA_DATA_BYTES: usize,
> {
    pub attested_header: LightClientHeader<BYTES_PER_LOGS_BLOOM, MAX_EXTRA_DATA_BYTES>,
    pub finalized_header: LightClientHeader<BYTES_PER_LOGS_BLOOM, MAX_EXTRA_DATA_BYTES>,
    pub finality_branch: Vec<Bytes32>,
    pub sync_aggregate: SyncAggregate<SYNC_COMMITTEE_SIZE>,
    pub signature_slot: Slot,
}

} // verus!
