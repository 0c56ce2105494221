//! Ethereum consensus-layer data types and verification of light client updates.
pub mod beacon_block_header;
pub mod bls;
pub mod codec;
pub mod hex_text;
pub mod light_client;
pub mod merkle;
pub mod presets;
pub mod primitives;
pub mod signing;
pub mod sync_committee;

use vstd::prelude::*;

pub use primitives::{
    BlobIndex, ByteList, ByteVector, Bytes32, ChainId, CommitteeIndex, Domain, Epoch,
    ExecutionAddress, ForkDigest, Gwei, Hash32, NetworkId, ParticipationFlags, Root, Slot,
    ValidatorIndex, Version, WithdrawalIndex, U256,
};
pub use beacon_block_header::BeaconBlockHeader;
pub use light_client::{
    ExecutionPayloadHeader, LightClientBootstrap, LightClientFinalityUpdate, LightClientHeader,
    LightClientUpdate, LightClientUpdateCapella,
};
pub use signing::ForkData;
pub use bls::{BlsPublicKey, BlsSignature};
pub use sync_committee::{SyncAggregate, SyncCommittee};

verus! {

/// A byte string that does not decode to the value asked for.
#[derive(Debug, Clone, PartialEq, Eq)]
pub enum DecodeError {
    /// Not an even number of hex digits.
    InvalidHex,
    /// The bytes are not as many as the value's fixed length.
    WrongLength,
    /// A bit past the end of a bit vector is set.
    NonZeroPadding,
    /// A number does not fit the field that holds it.
    OutOfRange,
}

/// Why a light client update was rejected.
#[derive(Debug, Clone, PartialEq, Eq)]
pub enum VerificationError {
    /// The aggregate key could not be formed or the signature did not verify.
    BlsError(bls::BlsError),
    /// The participation bits or the committee's keys are not as many as
    /// the committee's size.
    WrongLength,
    /// No committee member took part.
    NoSigners,
    /// Fewer than two thirds of the committee took part.
    InsufficientParticipation,
}

} // verus!
