//! Tree-hashing helpers: the chunk layout of this crate's containers is stated
//! here, while merkleization and branch checking are done by ssz_rs.
use vstd::prelude::*;

use crate::primitives::Root;

verus! {

/// The Merkle root that ssz_rs computes over `chunks`, a whole number of
/// 32-byte chunks padded with zero chunks up to a power of two.
pub uninterp spec fn merkle_root_of(chunks: Seq<u8>) -> Seq<u8>;

/// Whether ssz_rs accepts `branch` as proof that `leaf` sits at generalized
/// index `index`, `depth` levels below `root`.
pub uninterp spec fn merkle_branch_valid(
    leaf: Seq<u8>,
    branch: Seq<Seq<u8>>,
    depth: nat,
    index: nat,
    root: Seq<u8>,
) -> bool;

/// Relies on `ssz_rs::__internal::merkleize` with no limit, the function that
/// ssz_rs's container derive calls; without a limit it cannot fail.
#[verifier::external_body]
fn merkleize_chunks(chunks: &[u8]) -> (r: Root)
    requires
        chunks@.len() % 32 == 0,
    ensures
        r@ == merkle_root_of(chunks@),
{
    let mut root = [0u8; 32];
    if let Ok(node) = ssz_rs::__internal::merkleize(chunks, None) {
        root.copy_from_slice(node.as_ref());
    }
    root
}

/// The views of the nodes of a branch.
pub open spec fn branch_view(branch: Seq<Root>) -> Seq<Seq<u8>> {
    branch.map_values(|n: Root| n@)
}

/// Relies on `ssz_rs::is_valid_merkle_branch`. It computes `2^i` in `usize`
/// for each level `i` below `depth`, which stays in range on 32-bit targets
/// too only for at most 32 levels.
#[verifier::external_body]
fn check_merkle_branch(leaf: &Root, branch: &[Root], depth: usize, index: usize, root: &Root) -> (r:
    bool)
    requires
        depth <= 32,
    ensures
        r == merkle_branch_valid(leaf@, branch_view(branch@), depth as nat, index as nat, root@),
{
    let to_node = |b: &Root| ssz_rs::Node::try_from(b.as_slice()).unwrap_or_default();
    let nodes: Vec<ssz_rs::Node> = branch.iter().map(to_node).collect();
    ssz_rs::is_valid_merkle_branch(&to_node(leaf), nodes.iter(), depth, index, &to_node(root))
}

/// Checks a Merkle inclusion branch; a pure function of its five arguments.
pub fn is_valid_merkle_branch(
    leaf: &Root,
    branch: &[Root],
    depth: usize,
    index: usize,
    root: &Root,
) -> (r: bool)
    requires
        depth <= 32,
    ensures
        r == merkle_branch_valid(leaf@, branch_view(branch@), depth as nat, index as nat, root@),
{
    check_merkle_branch(leaf, branch, depth, index, root)
}

/// `n` zero bytes.
pub open spec fn zeros(n: nat) -> Seq<u8> {
    Seq::new(n, |i: int| 0u8)
}

/// Little-endian bytes of a 64-bit integer.
pub open spec fn u64_le(v: u64) -> Seq<u8> {
    seq![
        v as u8,
        (v >> 8u64) as u8,
        (v >> 16u64) as u8,
        (v >> 24u64) as u8,
        (v >> 32u64) as u8,
        (v >> 40u64) as u8,
        (v >> 48u64) as u8,
        (v >> 56u64) as u8,
    ]
}

/// The chunk of a 64-bit integer: its little-endian bytes, zero padded.
pub open spec fn u64_chunk(v: u64) -> Seq<u8> {
    u64_le(v) + zeros(24)
}

/// The root of a hash computed over `chunks`.
pub fn merkleize(chunks: &Vec<u8>) -> (r: Root)
    requires
        chunks@.len() % 32 == 0,
    ensures
        r@ == merkle_root_of(chunks@),
{
    merkleize_chunks(chunks.as_slice())
}

pub(crate) fn push_bytes(buf: &mut Vec<u8>, bytes: &[u8])
    ensures
        final(buf)@ == old(buf)@ + bytes@,
{
    let ghost start = buf@;
    let mut i: usize = 0;
    while i < bytes.len()
        invariant
            i <= bytes@.len(),
            buf@ == start + bytes@.subrange(0, i as int),
        decreases bytes@.len() - i,
    {
        buf.push(bytes[i]);
        i = i + 1;
        assert(buf@ =~= start + bytes@.subrange(0, i as int));
    }
    assert(bytes@.subrange(0, i as int) =~= bytes@);
}

pub(crate) fn push_zeros(buf: &mut Vec<u8>, n: usize)
    ensures
        final(buf)@ == old(buf)@ + zeros(n as nat),
{
    let ghost start = buf@;
    let mut i: usize = 0;
    while i < n
        invariant
            i <= n,
            buf@ == start + zeros(i as nat),
        decreases n - i,
    {
        buf.push(0u8);
        i = i + 1;
        assert(buf@ =~= start + zeros(i as nat));
    }
}

pub(crate) fn push_u64_chunk(buf: &mut Vec<u8>, v: u64)
    ensures
        final(buf)@ == old(buf)@ + u64_chunk(v),
{
    let ghost start = buf@;
    buf.push(v as u8);
    buf.push((v >> 8u64) as u8);
    buf.push((v >> 16u64) as u8);
    buf.push((v >> 24u64) as u8);
    buf.push((v >> 32u64) as u8);
    buf.push((v >> 40u64) as u8);
    buf.push((v >> 48u64) as u8);
    buf.push((v >> 56u64) as u8);
    assert(buf@ =~= start + u64_le(v));
    push_zeros(buf, 24);
    assert(buf@ =~= start + u64_chunk(v));
}

} // verus!
