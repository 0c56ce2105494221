use vstd::prelude::*;

use crate::merkle::{merkle_root_of, merkleize, push_bytes, push_u64_chunk, u64_chunk};
use crate::primitives::{Root, Slot, ValidatorIndex};

verus! {

/// The header of a block on the beacon chain.
#[derive(Debug, Clone, Copy, PartialEq, Eq)]
pub struct BeaconBlockHeader {
    pub slot: Slot,
    pub proposer_index: ValidatorIndex,
    pub parent_root: Root,
    pub state_root: Root,
    pub body_root: Root,
}

/// The five field chunks of a header, in field order.
pub open spec fn header_chunks(h: BeaconBlockHeader) -> Seq<u8> {
    u64_chunk(h.slot) + u64_chunk(h.proposer_index as u64) + h.parent_root@ + h.state_root@
        + h.body_root@
}

/// The hash tree root of a header.
pub open spec fn header_root(h: BeaconBlockHeader) -> Seq<u8> {
    merkle_root_of(header_chunks(h))
}

impl BeaconBlockHeader {
    pub fn hash_tree_root(&self) -> (r: Root)
        ensures
            r@ == header_root(*self),
    {
        let mut chunks: Vec<u8> = Vec::new();
        push_u64_chunk(&mut chunks, self.slot);
        push_u64_chunk(&mut chunks, self.proposer_index as u64);
        push_bytes(&mut chunks, self.parent_root.as_slice());
        push_bytes(&mut chunks, self.state_root.as_slice());
        push_bytes(&mut chunks, self.body_root.as_slice());
        assert(chunks@ =~= header_chunks(*self));
        merkleize(&chunks)
    }
}

} // verus!
