use vstd::prelude::*;

use crate::DecodeError;

verus! {

/// A 32-byte node of a Merkle tree.
pub type Root = [u8; 32];

pub type Bytes32 = [u8; 32];

pub type Slot = u64;

pub type Epoch = u64;

pub type ValidatorIndex = usize;

pub type Version = [u8; 4];

pub type ForkDigest = [u8; 4];

pub type Domain = [u8; 32];

pub type CommitteeIndex = usize;

pub type WithdrawalIndex = usize;

pub type BlobIndex = u64;

pub type Gwei = u64;

pub type Hash32 = Bytes32;

pub type ChainId = usize;

pub type NetworkId = usize;

pub type ParticipationFlags = u8;

/// A 256-bit unsigned integer as its 32 little-endian bytes.
pub type U256 = [u8; 32];

/// A byte string of exactly `N` bytes.
#[derive(Debug, Clone, PartialEq, Eq)]
pub struct ByteVector<const N: usize>(pub Vec<u8>);

/// A byte string of at most `N` bytes.
#[derive(Debug, Clone, PartialEq, Eq)]
pub struct ByteList<const N: usize>(pub Vec<u8>);

pub type ExecutionAddress = ByteVector<20>;

impl<const N: usize> ByteVector<N> {
    /// Takes the bytes where there are exactly `N` of them.
    pub fn try_from_bytes(bytes: Vec<u8>) -> (r: Result<Self, DecodeError>)
        ensures
            match r {
                Ok(v) => bytes@.len() == N && v.0@ == bytes@,
                Err(e) => bytes@.len() != N && e == DecodeError::WrongLength,
            },
    {
        if bytes.len() == N {
            Ok(ByteVector(bytes))
        } else {
            Err(DecodeError::WrongLength)
        }
    }

    pub fn as_slice(&self) -> (r: &[u8])
        ensures
            r@ == self.0@,
    {
        self.0.as_slice()
    }
}

impl<const N: usize> ByteList<N> {
    /// Takes the bytes where there are at most `N` of them.
    pub fn try_from_bytes(bytes: Vec<u8>) -> (r: Result<Self, DecodeError>)
        ensures
            match r {
                Ok(v) => bytes@.len() <= N && v.0@ == bytes@,
                Err(e) => bytes@.len() > N && e == DecodeError::WrongLength,
            },
    {
        if bytes.len() <= N {
            Ok(ByteList(bytes))
        } else {
            Err(DecodeError::WrongLength)
        }
    }

    pub fn as_slice(&self) -> (r: &[u8])
        ensures
            r@ == self.0@,
    {
        self.0.as_slice()
    }
}

} // verus!
