//! Fork-versioned signing domains and signing roots.
use vstd::prelude::*;

use crate::merkle::{merkle_root_of, merkleize, push_bytes, push_zeros, zeros};
use crate::primitives::{Domain, ForkDigest, Root, Version};

verus! {

/// The network a signature belongs to: its fork version and genesis validators root.
#[derive(Debug, Clone, Copy, PartialEq, Eq)]
pub struct ForkData {
    pub fork_version: Version,
    pub genesis_validators_root: Root,
}

/// What an object root and a domain are signed as.
#[derive(Debug, Clone, Copy, PartialEq, Eq)]
pub struct SigningData {
    pub object_root: Root,
    pub domain: Domain,
}

/// The hash tree root of fork data: the version packed into one chunk, then
/// the genesis validators root.
pub open spec fn fork_data_root(f: ForkData) -> Seq<u8> {
    merkle_root_of(f.fork_version@ + zeros(28) + f.genesis_validators_root@)
}

/// The hash tree root of signing data: the object root, then the domain.
pub open spec fn signing_root(object_root: Seq<u8>, domain: Seq<u8>) -> Seq<u8> {
    merkle_root_of(object_root + domain)
}

/// The kinds of signed messages that this crate checks.
#[derive(Debug, Clone, Copy, PartialEq, Eq)]
pub enum DomainType {
    SyncCommittee,
}

/// The tag of a domain type as a number.
pub open spec fn domain_type_value(d: DomainType) -> u32 {
    match d {
        DomainType::SyncCommittee => 7,
    }
}

/// The four little-endian bytes of a domain type's tag.
pub open spec fn domain_type_bytes(d: DomainType) -> Seq<u8> {
    let v = domain_type_value(d);
    seq![v as u8, (v >> 8u32) as u8, (v >> 16u32) as u8, (v >> 24u32) as u8]
}

/// A signing domain: the type tag, then the first 28 bytes of the fork data root.
pub open spec fn domain_of(d: DomainType, f: ForkData) -> Seq<u8> {
    domain_type_bytes(d) + fork_data_root(f).subrange(0, 28)
}

impl DomainType {
    pub fn as_bytes(&self) -> (r: [u8; 4])
        ensures
            r@ == domain_type_bytes(*self),
    {
        let r: [u8; 4] = match self {
            DomainType::SyncCommittee => [7u8, 0u8, 0u8, 0u8],
        };
        proof {
            let v = domain_type_value(*self);
            assert((v >> 8u32) as u8 == 0u8) by (bit_vector)
                requires v == 7u32;
            assert((v >> 16u32) as u8 == 0u8) by (bit_vector)
                requires v == 7u32;
            assert((v >> 24u32) as u8 == 0u8) by (bit_vector)
                requires v == 7u32;
        }
        assert(r@ =~= domain_type_bytes(*self));
        r
    }
}

impl SigningData {
    pub fn hash_tree_root(&self) -> (r: Root)
        ensures
            r@ == signing_root(self.object_root@, self.domain@),
    {
        let mut chunks: Vec<u8> = Vec::new();
        push_bytes(&mut chunks, self.object_root.as_slice());
        push_bytes(&mut chunks, self.domain.as_slice());
        merkleize(&chunks)
    }
}

impl ForkData {
    pub fn hash_tree_root(&self) -> (r: Root)
        ensures
            r@ == fork_data_root(*self),
    {
        let mut chunks: Vec<u8> = Vec::new();
        push_bytes(&mut chunks, self.fork_version.as_slice());
        push_zeros(&mut chunks, 28);
        push_bytes(&mut chunks, self.genesis_validators_root.as_slice());
        merkleize(&chunks)
    }

    /// The first four bytes of the fork data root.
    pub fn fork_digest(&self) -> (r: ForkDigest)
        ensures
            r@ == fork_data_root(*self).subrange(0, 4),
    {
        let root = self.hash_tree_root();
        let digest: [u8; 4] = [root[0], root[1], root[2], root[3]];
        assert(digest@ =~= fork_data_root(*self).subrange(0, 4));
        digest
    }
}

/// The root that is signed for an object with root `object_root` under `domain`.
pub fn compute_signing_root(object_root: Root, domain: Domain) -> (r: Root)
    ensures
        r@ == signing_root(object_root@, domain@),
{
    let s = SigningData { object_root, domain };
    s.hash_tree_root()
}

/// The signing domain of `domain_type` on the network of `fork_data`.
pub fn compute_domain(domain_type: DomainType, fork_data: &ForkData) -> (r: Domain)
    ensures
        r@ == domain_of(domain_type, *fork_data),
{
    let fork_data_root = fork_data.hash_tree_root();
    let tag = domain_type.as_bytes();
    let mut domain: Domain = [0u8; 32];
    let mut i: usize = 0;
    while i < 4
        invariant
            i <= 4,
            forall|j: int| 0 <= j < i ==> domain@[j] == tag@[j],
        decreases 4 - i,
    {
        domain[i] = tag[i];
        i = i + 1;
    }
    while i < 32
        invariant
            4 <= i <= 32,
            forall|j: int| 0 <= j < 4 ==> domain@[j] == tag@[j],
            forall|j: int| 4 <= j < i ==> domain@[j] == fork_data_root@[j - 4],
        decreases 32 - i,
    {
        domain[i] = fork_data_root[i - 4];
        i = i + 1;
    }
    assert(domain@ =~= domain_of(domain_type, *fork_data));
    domain
}

} // verus!
