//! The canonical binary encoding of this crate's fixed-length containers:
//! fields in order, integers little-endian, byte strings as they are.
use vstd::prelude::*;

use crate::beacon_block_header::BeaconBlockHeader;
use crate::bls::{BlsPublicKey, BlsSignature};
use crate::merkle::{push_bytes, u64_le};
use crate::signing::ForkData;
use crate::sync_committee::{SyncAggregate, SyncCommittee};
use crate::DecodeError;

verus! {

/// The 64-bit integer that eight little-endian bytes spell.
pub open spec fn u64_from_le(b: Seq<u8>) -> u64 {
    (b[0] as u64) | ((b[1] as u64) << 8u64) | ((b[2] as u64) << 16u64) | ((b[3] as u64) << 24u64)
        | ((b[4] as u64) << 32u64) | ((b[5] as u64) << 40u64) | ((b[6] as u64) << 48u64) | ((
    b[7] as u64) << 56u64)
}

proof fn lemma_u64_le_round_trip(v: u64)
    ensures
        u64_from_le(u64_le(v)) == v,
{
    let b = u64_le(v);
    let (b0, b1, b2, b3, b4, b5, b6, b7) = (b[0], b[1], b[2], b[3], b[4], b[5], b[6], b[7]);
    assert(b0 == v as u8 && b1 == (v >> 8u64) as u8 && b2 == (v >> 16u64) as u8 && b3 == (v
        >> 24u64) as u8 && b4 == (v >> 32u64) as u8 && b5 == (v >> 40u64) as u8 && b6 == (v
        >> 48u64) as u8 && b7 == (v >> 56u64) as u8);
    assert((b0 as u64) | ((b1 as u64) << 8u64) | ((b2 as u64) << 16u64) | ((b3 as u64) << 24u64)
        | ((b4 as u64) << 32u64) | ((b5 as u64) << 40u64) | ((b6 as u64) << 48u64) | ((b7 as u64)
        << 56u64) == v) by (bit_vector)
        requires
            b0 == v as u8,
            b1 == (v >> 8u64) as u8,
            b2 == (v >> 16u64) as u8,
            b3 == (v >> 24u64) as u8,
            b4 == (v >> 32u64) as u8,
            b5 == (v >> 40u64) as u8,
            b6 == (v >> 48u64) as u8,
            b7 == (v >> 56u64) as u8,
    ;
}

fn read_u64_le(b: &[u8], off: usize) -> (r: u64)
    requires
        off + 8 <= b@.len(),
    ensures
        r == u64_from_le(b@.subrange(off as int, off + 8)),
{
    let ghost s = b@.subrange(off as int, off + 8);
    assert(s[0] == b@[off as int] && s[7] == b@[off + 7]);
    (b[off] as u64) | ((b[off + 1] as u64) << 8u64) | ((b[off + 2] as u64) << 16u64) | ((b[off
        + 3] as u64) << 24u64) | ((b[off + 4] as u64) << 32u64) | ((b[off + 5] as u64) << 40u64)
        | ((b[off + 6] as u64) << 48u64) | ((b[off + 7] as u64) << 56u64)
}

fn read_array<const N: usize>(b: &[u8], off: usize) -> (r: [u8; N])
    requires
        off + N <= b@.len(),
    ensures
        r@ == b@.subrange(off as int, off + N),
{
    let len = b.len();
    let mut a: [u8; N] = [0u8; N];
    let mut i: usize = 0;
    while i < N
        invariant
            len == b@.len(),
            off + N <= b@.len(),
            i <= N,
            a@.len() == N,
            forall|j: int| 0 <= j < i ==> a@[j] == b@[off + j],
        decreases N - i,
    {
        a[i] = b[off + i];
        i = i + 1;
    }
    assert(a@ =~= b@.subrange(off as int, off + N));
    a
}

fn push_u64_le(buf: &mut Vec<u8>, v: u64)
    ensures
        final(buf)@ == old(buf)@ + u64_le(v),
{
    let ghost start = buf@;
    buf.push(v as u8);
    buf.push((v >> 8u64) as u8);
    buf.push((v >> 16u64) as u8);
    buf.push((v >> 24u64) as u8);
    buf.push((v >> 32u64) as u8);
    buf.push((v >> 40u64) as u8);
    buf.push((v >> 48u64) as u8);
    buf.push((v >> 56u64) as u8);
    assert(buf@ =~= start + u64_le(v));
}

/// The encoding of a header: 112 bytes.
pub open spec fn header_bytes(h: BeaconBlockHeader) -> Seq<u8> {
    u64_le(h.slot) + u64_le(h.proposer_index as u64) + h.parent_root@ + h.state_root@
        + h.body_root@
}

/// The encoding of fork data: 36 bytes.
pub open spec fn fork_data_bytes(f: ForkData) -> Seq<u8> {
    f.fork_version@ + f.genesis_validators_root@
}

/// The first `n` keys, 48 bytes each, one after another.
pub open spec fn keys_bytes(keys: Seq<BlsPublicKey>, n: int) -> Seq<u8>
    decreases n,
{
    if n <= 0 {
        Seq::empty()
    } else {
        keys_bytes(keys, n - 1) + keys[n - 1].0@
    }
}

/// The encoding of a committee: its keys, then its aggregate key.
pub open spec fn committee_bytes<const N: usize>(c: SyncCommittee<N>) -> Seq<u8> {
    keys_bytes(c.pubkeys@, c.pubkeys@.len() as int) + c.aggregate_pubkey.0@
}

proof fn lemma_keys_bytes_len(keys: Seq<BlsPublicKey>, n: int)
    requires
        0 <= n <= keys.len(),
    ensures
        keys_bytes(keys, n).len() == 48 * n,
    decreases n,
{
    if n > 0 {
        lemma_keys_bytes_len(keys, n - 1);
    }
}

proof fn lemma_keys_bytes_injective(k1: Seq<BlsPublicKey>, k2: Seq<BlsPublicKey>, n: int)
    requires
        0 <= n <= k1.len(),
        n <= k2.len(),
        keys_bytes(k1, n) == keys_bytes(k2, n),
    ensures
        k1.subrange(0, n) == k2.subrange(0, n),
    decreases n,
{
    if n > 0 {
        lemma_keys_bytes_len(k1, n - 1);
        lemma_keys_bytes_len(k2, n - 1);
        let (a, b) = (keys_bytes(k1, n), keys_bytes(k2, n));
        assert(keys_bytes(k1, n - 1) =~= a.subrange(0, 48 * (n - 1)));
        assert(keys_bytes(k2, n - 1) =~= b.subrange(0, 48 * (n - 1)));
        lemma_keys_bytes_injective(k1, k2, n - 1);
        assert(k1[n - 1].0@ =~= a.subrange(48 * (n - 1), 48 * n));
        assert(k2[n - 1].0@ =~= b.subrange(48 * (n - 1), 48 * n));
        assert(k1[n - 1].0 =~= k2[n - 1].0);
        assert(k1.subrange(0, n) =~= k1.subrange(0, n - 1).push(k1[n - 1]));
        assert(k2.subrange(0, n) =~= k2.subrange(0, n - 1).push(k2[n - 1]));
    }
}

/// A header encodes to 112 bytes, with a proposer index that fits, and only
/// that header encodes to them: so decoding an encoding gives back the
/// header, and with it the same root.
pub proof fn lemma_header_round_trip(h: BeaconBlockHeader, g: BeaconBlockHeader)
    ensures
        header_bytes(h).len() == 112,
        u64_from_le(header_bytes(h).subrange(8, 16)) == h.proposer_index as u64,
        header_bytes(g) == header_bytes(h) ==> g == h,
{
    assert(u64_le(h.proposer_index as u64) =~= header_bytes(h).subrange(8, 16));
    lemma_u64_le_round_trip(h.proposer_index as u64);
    if header_bytes(g) == header_bytes(h) {
        let (a, b) = (header_bytes(g), header_bytes(h));
        assert(u64_le(g.slot) =~= a.subrange(0, 8) && u64_le(h.slot) =~= b.subrange(0, 8));
        assert(u64_le(g.proposer_index as u64) =~= a.subrange(8, 16));
        assert(u64_le(h.proposer_index as u64) =~= b.subrange(8, 16));
        lemma_u64_le_round_trip(g.slot);
        lemma_u64_le_round_trip(h.slot);
        lemma_u64_le_round_trip(g.proposer_index as u64);
        lemma_u64_le_round_trip(h.proposer_index as u64);
        assert(g.parent_root@ =~= a.subrange(16, 48) && h.parent_root@ =~= b.subrange(16, 48));
        assert(g.state_root@ =~= a.subrange(48, 80) && h.state_root@ =~= b.subrange(48, 80));
        assert(g.body_root@ =~= a.subrange(80, 112) && h.body_root@ =~= b.subrange(80, 112));
        assert(g.parent_root =~= h.parent_root);
        assert(g.state_root =~= h.state_root);
        assert(g.body_root =~= h.body_root);
    }
}

/// Fork data encodes to 36 bytes, and only that fork data encodes to them.
pub proof fn lemma_fork_data_round_trip(f: ForkData, g: ForkData)
    ensures
        fork_data_bytes(f).len() == 36,
        fork_data_bytes(g) == fork_data_bytes(f) ==> g == f,
{
    if fork_data_bytes(g) == fork_data_bytes(f) {
        let (a, b) = (fork_data_bytes(g), fork_data_bytes(f));
        assert(g.fork_version@ =~= a.subrange(0, 4) && f.fork_version@ =~= b.subrange(0, 4));
        assert(g.genesis_validators_root@ =~= a.subrange(4, 36));
        assert(f.genesis_validators_root@ =~= b.subrange(4, 36));
        assert(g.fork_version =~= f.fork_version);
        assert(g.genesis_validators_root =~= f.genesis_validators_root);
    }
}

/// A committee of `N` keys encodes to `48 * N + 48` bytes, and only that
/// committee of `N` keys encodes to them.
pub proof fn lemma_committee_round_trip<const N: usize>(c: SyncCommittee<N>, d: SyncCommittee<N>)
    requires
        c.pubkeys@.len() == N,
        d.pubkeys@.len() == N,
    ensures
        committee_bytes(c).len() == 48 * N + 48,
        committee_bytes(d) == committee_bytes(c) ==> d.pubkeys@ == c.pubkeys@
            && d.aggregate_pubkey == c.aggregate_pubkey,
{
    lemma_keys_bytes_len(c.pubkeys@, N as int);
    lemma_keys_bytes_len(d.pubkeys@, N as int);
    if committee_bytes(d) == committee_bytes(c) {
        let (a, b) = (committee_bytes(d), committee_bytes(c));
        assert(keys_bytes(d.pubkeys@, N as int) =~= a.subrange(0, 48 * N));
        assert(keys_bytes(c.pubkeys@, N as int) =~= b.subrange(0, 48 * N));
        lemma_keys_bytes_injective(d.pubkeys@, c.pubkeys@, N as int);
        assert(d.pubkeys@ =~= d.pubkeys@.subrange(0, N as int));
        assert(c.pubkeys@ =~= c.pubkeys@.subrange(0, N as int));
        assert(d.aggregate_pubkey.0@ =~= a.subrange(48 * N, 48 * N + 48));
        assert(c.aggregate_pubkey.0@ =~= b.subrange(48 * N, 48 * N + 48));
        assert(d.aggregate_pubkey.0 =~= c.aggregate_pubkey.0);
    }
}

impl BeaconBlockHeader {
    pub fn to_ssz_bytes(&self) -> (r: Vec<u8>)
        ensures
            r@ == header_bytes(*self),
    {
        let mut out: Vec<u8> = Vec::new();
        push_u64_le(&mut out, self.slot);
        push_u64_le(&mut out, self.proposer_index as u64);
        push_bytes(&mut out, self.parent_root.as_slice());
        push_bytes(&mut out, self.state_root.as_slice());
        push_bytes(&mut out, self.body_root.as_slice());
        assert(out@ =~= header_bytes(*self));
        out
    }

    /// Decodes a header from exactly 112 bytes; a proposer index beyond
    /// `usize` is refused.
    pub fn from_ssz_bytes(bytes: &[u8]) -> (r: Result<Self, DecodeError>)
        ensures
            match r {
                Ok(h) => header_bytes(h) == bytes@,
                Err(e) => if bytes@.len() != 112 {
                    e == DecodeError::WrongLength
                } else {
                    u64_from_le(bytes@.subrange(8, 16)) > usize::MAX && e == DecodeError::OutOfRange
                },
            },
    {
        if bytes.len() != 112 {
            return Err(DecodeError::WrongLength);
        }
        let slot = read_u64_le(bytes, 0);
        let proposer = read_u64_le(bytes, 8);
        if proposer > usize::MAX as u64 {
            return Err(DecodeError::OutOfRange);
        }
        let h = BeaconBlockHeader {
            slot,
            proposer_index: proposer as usize,
            parent_root: read_array::<32>(bytes, 16),
            state_root: read_array::<32>(bytes, 48),
            body_root: read_array::<32>(bytes, 80),
        };
        proof {
            let b = bytes@;
            let s = u64_le(slot);
            let sb = b.subrange(0, 8);
            lemma_u64_le_round_trip(slot);
            lemma_u64_from_le_round_trip(sb);
            lemma_u64_from_le_round_trip(b.subrange(8, 16));
            assert(header_bytes(h) =~= b);
        }
        Ok(h)
    }
}

proof fn lemma_u64_from_le_round_trip(b: Seq<u8>)
    requires
        b.len() == 8,
    ensures
        u64_le(u64_from_le(b)) == b,
{
    let v = u64_from_le(b);
    let (b0, b1, b2, b3, b4, b5, b6, b7) = (b[0], b[1], b[2], b[3], b[4], b[5], b[6], b[7]);
    assert(v as u8 == b0 && (v >> 8u64) as u8 == b1 && (v >> 16u64) as u8 == b2 && (v >> 24u64) as u8 == b3
        && (v >> 32u64) as u8 == b4 && (v >> 40u64) as u8 == b5 && (v >> 48u64) as u8 == b6 && (v >> 56u64) as u8 == b7)
        by (bit_vector)
        requires
            v == (b0 as u64) | ((b1 as u64) << 8u64) | ((b2 as u64) << 16u64) | ((b3 as u64) << 24u64)
                | ((b4 as u64) << 32u64) | ((b5 as u64) << 40u64) | ((b6 as u64) << 48u64) | ((b7 as u64) << 56u64),
    ;
    assert(u64_le(v) =~= b);
}

impl ForkData {
    pub fn to_ssz_bytes(&self) -> (r: Vec<u8>)
        ensures
            r@ == fork_data_bytes(*self),
    {
        let mut out: Vec<u8> = Vec::new();
        push_bytes(&mut out, self.fork_version.as_slice());
        push_bytes(&mut out, self.genesis_validators_root.as_slice());
        out
    }

    /// Decodes fork data from exactly 36 bytes.
    pub fn from_ssz_bytes(bytes: &[u8]) -> (r: Result<Self, DecodeError>)
        ensures
            match r {
                Ok(f) => fork_data_bytes(f) == bytes@,
                Err(e) => bytes@.len() != 36 && e == DecodeError::WrongLength,
            },
    {
        if bytes.len() != 36 {
            return Err(DecodeError::WrongLength);
        }
        let f = ForkData {
            fork_version: read_array::<4>(bytes, 0),
            genesis_validators_root: read_array::<32>(bytes, 4),
        };
        assert(fork_data_bytes(f) =~= bytes@);
        Ok(f)
    }
}

impl<const SYNC_COMMITTEE_SIZE: usize> SyncCommittee<SYNC_COMMITTEE_SIZE> {
    pub fn to_ssz_bytes(&self) -> (r: Vec<u8>)
        ensures
            r@ == committee_bytes(*self),
    {
        let keys = &self.pubkeys;
        let mut out: Vec<u8> = Vec::new();
        let mut i: usize = 0;
        while i < keys.len()
            invariant
                i <= keys@.len(),
                out@ == keys_bytes(keys@, i as int),
            decreases keys@.len() - i,
        {
            push_bytes(&mut out, keys[i].0.as_slice());
            i = i + 1;
        }
        push_bytes(&mut out, self.aggregate_pubkey.0.as_slice());
        out
    }

    /// Decodes a committee of `SYNC_COMMITTEE_SIZE` keys from exactly
    /// `48 * SYNC_COMMITTEE_SIZE + 48` bytes.
    pub fn from_ssz_bytes(bytes: &[u8]) -> (r: Result<Self, DecodeError>)
        ensures
            match r {
                Ok(c) => c.pubkeys@.len() == SYNC_COMMITTEE_SIZE && committee_bytes(c) == bytes@,
                Err(e) => bytes@.len() != 48 * SYNC_COMMITTEE_SIZE + 48 && e
                    == DecodeError::WrongLength,
            },
    {
        let len = bytes.len();
        if SYNC_COMMITTEE_SIZE >= len / 48 {
            assert(len != 48 * SYNC_COMMITTEE_SIZE + 48) by (nonlinear_arith)
                requires
                    SYNC_COMMITTEE_SIZE >= len / 48,
            ;
            return Err(DecodeError::WrongLength);
        }
        assert(48 * SYNC_COMMITTEE_SIZE + 48 <= len) by (nonlinear_arith)
            requires
                SYNC_COMMITTEE_SIZE < len / 48,
        ;
        if len != 48 * SYNC_COMMITTEE_SIZE + 48 {
            return Err(DecodeError::WrongLength);
        }
        let mut pubkeys: Vec<BlsPublicKey> = Vec::new();
        let mut i: usize = 0;
        while i < SYNC_COMMITTEE_SIZE
            invariant
                len == bytes@.len(),
                bytes@.len() == 48 * SYNC_COMMITTEE_SIZE + 48,
                i <= SYNC_COMMITTEE_SIZE,
                pubkeys@.len() == i,
                keys_bytes(pubkeys@, i as int) == bytes@.subrange(0, 48 * i),
            decreases SYNC_COMMITTEE_SIZE - i,
        {
            let ghost before = pubkeys@;
            assert(48 * i + 48 <= 48 * SYNC_COMMITTEE_SIZE) by (nonlinear_arith)
                requires
                    i < SYNC_COMMITTEE_SIZE,
            ;
            let key = BlsPublicKey(read_array::<48>(bytes, 48 * i));
            pubkeys.push(key);
            proof {
                assert(pubkeys@.subrange(0, i as int) =~= before);
                lemma_keys_bytes_prefix(pubkeys@, before, i as int);
                assert(bytes@.subrange(0, 48 * (i + 1)) =~= bytes@.subrange(0, 48 * i) + key.0@);
            }
            i = i + 1;
        }
        let c = SyncCommittee { pubkeys, aggregate_pubkey: BlsPublicKey(read_array::<48>(bytes, 48 * SYNC_COMMITTEE_SIZE)) };
        assert(committee_bytes(c) =~= bytes@);
        Ok(c)
    }
}

/// Bit `k` of byte `b`, counting from the least significant.
pub open spec fn bit_of(b: u8, k: u8) -> bool {
    (b >> k) & 1u8 == 1u8
}

/// Bit `i` of a bit vector, `false` past its end.
pub open spec fn bit_at(bits: Seq<bool>, i: int) -> bool {
    0 <= i < bits.len() && bits[i]
}

/// Bytes needed for `n` bits.
pub open spec fn bit_bytes_len(n: nat) -> nat {
    if n % 8 == 0 { n / 8 } else { n / 8 + 1 }
}

/// `bytes` hold `bits` eight to a byte, least significant bit first, with
/// the bits past the end zero.
pub open spec fn packs_bits(bytes: Seq<u8>, bits: Seq<bool>) -> bool {
    &&& bytes.len() == bit_bytes_len(bits.len())
    &&& forall|j: int, k: int|
        0 <= j < bytes.len() && 0 <= k < 8 ==> #[trigger] bit_of(bytes[j], k as u8) == bit_at(
            bits,
            8 * j + k,
        )
}

/// `bytes` are the encoding of the sync aggregate `a`: its packed bits, then
/// its 96 signature bytes.
pub open spec fn encodes_aggregate<const N: usize>(bytes: Seq<u8>, a: SyncAggregate<N>) -> bool {
    let nb = bit_bytes_len(N as nat);
    &&& bytes.len() == nb + 96
    &&& packs_bits(bytes.subrange(0, nb as int), a.sync_committee_bits@)
    &&& bytes.subrange(nb as int, (nb + 96) as int) == a.sync_committee_signature.0@
}

proof fn lemma_bit_set(b: u8, k: u8, k2: u8)
    requires
        k < 8,
        k2 < 8,
    ensures
        bit_of(b | (1u8 << k), k2) == (k2 == k || bit_of(b, k2)),
{
    assert(((b | (1u8 << k)) >> k2) & 1u8 == 1u8 <==> (k2 == k || (b >> k2) & 1u8 == 1u8))
        by (bit_vector)
        requires
            k < 8,
            k2 < 8,
    ;
}

proof fn lemma_zero_bits(k2: u8)
    ensures
        !bit_of(0u8, k2),
{
    assert((0u8 >> k2) & 1u8 != 1u8) by (bit_vector);
}

proof fn lemma_bit_position(i: int)
    requires
        0 <= i,
    ensures
        i == 8 * (i / 8) + i % 8,
        0 <= i % 8 < 8,
{
}

/// Bits packed into the same bytes are the same bits, where there are as
/// many of them.
proof fn lemma_packs_bits_injective(bytes: Seq<u8>, b1: Seq<bool>, b2: Seq<bool>)
    requires
        packs_bits(bytes, b1),
        packs_bits(bytes, b2),
        b1.len() == b2.len(),
    ensures
        b1 == b2,
{
    assert forall|i: int| 0 <= i < b1.len() implies b1[i] == b2[i] by {
        lemma_bit_position(i);
        let (j, k) = (i / 8, i % 8);
        assert(j < bytes.len()) by (nonlinear_arith)
            requires
                i == 8 * j + k,
                0 <= k < 8,
                0 <= i < b1.len(),
                bytes.len() == bit_bytes_len(b1.len()),
                b1.len() % 8 == 0 ==> bit_bytes_len(b1.len()) == b1.len() / 8,
                b1.len() % 8 != 0 ==> bit_bytes_len(b1.len()) == b1.len() / 8 + 1,
                b1.len() == 8 * (b1.len() / 8) + b1.len() % 8,
        ;
        assert(bit_of(bytes[j], k as u8) == bit_at(b1, 8 * j + k));
    }
    assert(b1 =~= b2);
}

/// A sync aggregate of `N` bits has exactly one encoding, and no other sync
/// aggregate of `N` bits shares it: so decoding an encoding gives the
/// aggregate back.
pub proof fn lemma_aggregate_round_trip<const N: usize>(
    bytes: Seq<u8>,
    a: SyncAggregate<N>,
    b: SyncAggregate<N>,
)
    requires
        a.sync_committee_bits@.len() == N,
        b.sync_committee_bits@.len() == N,
        encodes_aggregate(bytes, a),
        encodes_aggregate(bytes, b),
    ensures
        a.sync_committee_bits@ == b.sync_committee_bits@,
        a.sync_committee_signature == b.sync_committee_signature,
{
    let nb = bit_bytes_len(N as nat);
    lemma_packs_bits_injective(bytes.subrange(0, nb as int), a.sync_committee_bits@, b.sync_committee_bits@);
    assert(a.sync_committee_signature.0 =~= b.sync_committee_signature.0);
}

/// Some bit of `bytes` past the first `n` is set.
pub open spec fn padding_set(bytes: Seq<u8>, n: nat) -> bool {
    exists|j: int, k: int|
        0 <= j < bytes.len() && 0 <= k < 8 && 8 * j + k >= n && #[trigger] bit_of(bytes[j], k as u8)
}

fn bit_bytes_count(n: usize) -> (r: usize)
    ensures
        r == bit_bytes_len(n as nat),
{
    if n % 8 == 0 {
        n / 8
    } else {
        n / 8 + 1
    }
}

proof fn lemma_bits_determine_byte(b1: u8, b2: u8)
    requires
        forall|k: u8| k < 8 ==> #[trigger] bit_of(b1, k) == bit_of(b2, k),
    ensures
        b1 == b2,
{
    assert(bit_of(b1, 0) == bit_of(b2, 0) && bit_of(b1, 1) == bit_of(b2, 1));
    assert(bit_of(b1, 2) == bit_of(b2, 2) && bit_of(b1, 3) == bit_of(b2, 3));
    assert(bit_of(b1, 4) == bit_of(b2, 4) && bit_of(b1, 5) == bit_of(b2, 5));
    assert(bit_of(b1, 6) == bit_of(b2, 6) && bit_of(b1, 7) == bit_of(b2, 7));
    assert(b1 == b2) by (bit_vector)
        requires
            (b1 >> 0u8) & 1u8 == 1u8 <==> (b2 >> 0u8) & 1u8 == 1u8,
            (b1 >> 1u8) & 1u8 == 1u8 <==> (b2 >> 1u8) & 1u8 == 1u8,
            (b1 >> 2u8) & 1u8 == 1u8 <==> (b2 >> 2u8) & 1u8 == 1u8,
            (b1 >> 3u8) & 1u8 == 1u8 <==> (b2 >> 3u8) & 1u8 == 1u8,
            (b1 >> 4u8) & 1u8 == 1u8 <==> (b2 >> 4u8) & 1u8 == 1u8,
            (b1 >> 5u8) & 1u8 == 1u8 <==> (b2 >> 5u8) & 1u8 == 1u8,
            (b1 >> 6u8) & 1u8 == 1u8 <==> (b2 >> 6u8) & 1u8 == 1u8,
            (b1 >> 7u8) & 1u8 == 1u8 <==> (b2 >> 7u8) & 1u8 == 1u8,
    ;
}

/// A bit vector has one packing only.
pub proof fn lemma_packing_unique(p1: Seq<u8>, p2: Seq<u8>, bits: Seq<bool>)
    requires
        packs_bits(p1, bits),
        packs_bits(p2, bits),
    ensures
        p1 == p2,
{
    assert forall|j: int| 0 <= j < p1.len() implies p1[j] == p2[j] by {
        assert forall|k: u8| k < 8 implies #[trigger] bit_of(p1[j], k) == bit_of(p2[j], k) by {
            assert(bit_of(p1[j], (k as int) as u8) == bit_at(bits, 8 * j + k));
            assert(bit_of(p2[j], (k as int) as u8) == bit_at(bits, 8 * j + k));
        }
        lemma_bits_determine_byte(p1[j], p2[j]);
    }
    assert(p1 =~= p2);
}

/// The packing of a bit vector.
pub open spec fn packed_bits(bits: Seq<bool>) -> Seq<u8> {
    choose|p: Seq<u8>| packs_bits(p, bits)
}

/// Packs bits eight to a byte, least significant bit first.
pub fn pack_bits(bits: &Vec<bool>) -> (r: Vec<u8>)
    ensures
        packs_bits(r@, bits@),
        r@ == packed_bits(bits@),
{
    let n = bits.len();
    let nb = bit_bytes_count(n);
    let mut out: Vec<u8> = Vec::new();
    let mut j: usize = 0;
    while j < nb
        invariant
            n == bits@.len(),
            nb == bit_bytes_len(n as nat),
            j <= nb,
            out@.len() == j,
            forall|j2: int, k: int|
                0 <= j2 < j && 0 <= k < 8 ==> #[trigger] bit_of(out@[j2], k as u8) == bit_at(
                    bits@,
                    8 * j2 + k,
                ),
        decreases nb - j,
    {
        let mut b: u8 = 0;
        let mut k: u8 = 0;
        proof {
            assert forall|k2: u8| k2 < 8 implies !bit_of(b, k2) by {
                lemma_zero_bits(k2);
            }
        }
        while k < 8
            invariant
                n == bits@.len(),
                j < nb,
                nb == bit_bytes_len(n as nat),
                k <= 8,
                forall|k2: u8|
                    k2 < 8 ==> #[trigger] bit_of(b, k2) == (k2 < k && bit_at(
                        bits@,
                        8 * j + k2,
                    )),
            decreases 8 - k,
        {
            assert(8 * j + 8 <= n + 8) by (nonlinear_arith)
                requires
                    j < nb,
                    n % 8 == 0 ==> nb == n / 8,
                    n % 8 != 0 ==> nb == n / 8 + 1,
                    n == 8 * (n / 8) + n % 8,
            ;
            let idx: usize = 8 * j + k as usize;
            if idx < n && bits[idx] {
                let ghost old_b = b;
                b = b | (1u8 << k);
                proof {
                    assert forall|k2: u8| k2 < 8 implies #[trigger] bit_of(b, k2) == (k2 < k + 1
                        && bit_at(bits@, 8 * j + k2)) by {
                        lemma_bit_set(old_b, k, k2);
                    }
                }
            }
            k = k + 1;
        }
        out.push(b);
        proof {
            assert forall|j2: int, k2: int|
                0 <= j2 < j + 1 && 0 <= k2 < 8 implies #[trigger] bit_of(out@[j2], k2 as u8)
                == bit_at(bits@, 8 * j2 + k2) by {
                if j2 == j {
                    assert(bit_of(b, k2 as u8) == (k2 < 8 && bit_at(bits@, 8 * j + k2)));
                }
            }
        }
        j = j + 1;
    }
    proof {
        lemma_packing_unique(out@, packed_bits(bits@), bits@);
    }
    out
}

impl<const SYNC_COMMITTEE_SIZE: usize> SyncAggregate<SYNC_COMMITTEE_SIZE> {
    /// Encodes the aggregate: the bits packed eight to a byte, then the signature.
    pub fn to_ssz_bytes(&self) -> (r: Vec<u8>)
        requires
            self.sync_committee_bits@.len() == SYNC_COMMITTEE_SIZE,
        ensures
            encodes_aggregate(r@, *self),
    {
        let mut out = pack_bits(&self.sync_committee_bits);
        let nb = out.len();
        let ghost packed = out@;
        push_bytes(&mut out, self.sync_committee_signature.0.as_slice());
        assert(out@.subrange(0, nb as int) =~= packed);
        assert(out@.subrange(nb as int, (nb + 96) as int) =~= self.sync_committee_signature.0@);
        out
    }

    /// Decodes an aggregate of `SYNC_COMMITTEE_SIZE` bits; the bits past the
    /// last member must be zero.
    pub fn from_ssz_bytes(bytes: &[u8]) -> (r: Result<Self, DecodeError>)
        ensures
            match r {
                Ok(a) => a.sync_committee_bits@.len() == SYNC_COMMITTEE_SIZE && encodes_aggregate(
                    bytes@,
                    a,
                ),
                Err(e) => if bytes@.len() != bit_bytes_len(SYNC_COMMITTEE_SIZE as nat) + 96 {
                    e == DecodeError::WrongLength
                } else {
                    e == DecodeError::NonZeroPadding && padding_set(
                        bytes@.subrange(0, bit_bytes_len(SYNC_COMMITTEE_SIZE as nat) as int),
                        SYNC_COMMITTEE_SIZE as nat,
                    )
                },
            },
    {
        let n = SYNC_COMMITTEE_SIZE;
        let len = bytes.len();
        let nb = bit_bytes_count(n);
        if nb > len || len - nb != 96 {
            return Err(DecodeError::WrongLength);
        }
        let ghost packed = bytes@.subrange(0, nb as int);
        proof {
            assert(8 * nb >= n) by (nonlinear_arith)
                requires
                    n % 8 == 0 ==> nb == n / 8,
                    n % 8 != 0 ==> nb == n / 8 + 1,
                    n == 8 * (n / 8) + n % 8,
                    0 <= n % 8 < 8,
            ;
        }
        let mut bits: Vec<bool> = Vec::new();
        let mut j: usize = 0;
        while j < nb
            invariant
                n == SYNC_COMMITTEE_SIZE,
                len == bytes@.len(),
                len == nb + 96,
                nb == bit_bytes_len(n as nat),
                nb <= len,
                8 * nb >= n,
                packed == bytes@.subrange(0, nb as int),
                j <= nb,
                bits@.len() == if 8 * j <= n { 8 * j } else { n as int },
                forall|j2: int, k2: int|
                    0 <= j2 < j && 0 <= k2 < 8 ==> #[trigger] bit_of(bytes@[j2], k2 as u8)
                        == bit_at(bits@, 8 * j2 + k2),
            decreases nb - j,
        {
            let byte = bytes[j];
            let mut k: u8 = 0;
            while k < 8
                invariant
                    n == SYNC_COMMITTEE_SIZE,
                    len == bytes@.len(),
                    len == nb + 96,
                    nb == bit_bytes_len(n as nat),
                    nb <= len,
                    8 * nb >= n,
                    packed == bytes@.subrange(0, nb as int),
                    j < nb,
                    byte == bytes@[j as int],
                    k <= 8,
                    bits@.len() == if 8 * j + k <= n { 8 * j + k } else { n as int },
                    forall|j2: int, k2: int|
                        0 <= j2 < j && 0 <= k2 < 8 ==> #[trigger] bit_of(bytes@[j2], k2 as u8)
                            == bit_at(bits@, 8 * j2 + k2),
                    forall|k2: int|
                        0 <= k2 < k ==> #[trigger] bit_of(byte, k2 as u8) == bit_at(bits@, 8 * j + k2),
                decreases 8 - k,
            {
                let bit = (byte >> k) & 1u8 == 1u8;
                let ghost before = bits@;
                if (j as u128) * 8 + (k as u128) < n as u128 {
                    bits.push(bit);
                    proof {
                        assert forall|j2: int, k2: int|
                            0 <= j2 < j && 0 <= k2 < 8 implies #[trigger] bit_of(bytes@[j2], k2 as u8)
                            == bit_at(bits@, 8 * j2 + k2) by {
                            assert(bit_at(bits@, 8 * j2 + k2) == bit_at(before, 8 * j2 + k2));
                        }
                        assert forall|k2: int| 0 <= k2 < k + 1 implies #[trigger] bit_of(byte, k2 as u8)
                            == bit_at(bits@, 8 * j + k2) by {
                            if k2 < k {
                                assert(bit_at(bits@, 8 * j + k2) == bit_at(before, 8 * j + k2));
                            }
                        }
                    }
                } else if bit {
                    proof {
                        let (jj, kk) = (j as int, k as int);
                        assert(packed[jj] == byte);
                        assert(0 <= jj < packed.len() && 0 <= kk < 8 && 8 * jj + kk >= n && bit_of(
                            packed[jj],
                            kk as u8,
                        ));
                        assert(padding_set(packed, n as nat));
                        assert(bytes@.len() == bit_bytes_len(n as nat) + 96);
                    }
                    return Err(DecodeError::NonZeroPadding);
                }
                k = k + 1;
            }
            j = j + 1;
        }
        let sig = BlsSignature(read_array::<96>(bytes, nb));
        let a = SyncAggregate { sync_committee_bits: bits, sync_committee_signature: sig };
        proof {
            assert forall|j2: int, k2: int|
                0 <= j2 < packed.len() && 0 <= k2 < 8 implies #[trigger] bit_of(packed[j2], k2 as u8)
                == bit_at(a.sync_committee_bits@, 8 * j2 + k2) by {
                assert(bit_of(bytes@[j2], k2 as u8) == bit_at(bits@, 8 * j2 + k2));
            }
        }
        Ok(a)
    }
}

proof fn lemma_keys_bytes_prefix(longer: Seq<BlsPublicKey>, shorter: Seq<BlsPublicKey>, n: int)
    requires
        0 <= n <= shorter.len(),
        shorter.len() <= longer.len(),
        longer.subrange(0, shorter.len() as int) == shorter,
    ensures
        keys_bytes(longer, n) == keys_bytes(shorter, n),
    decreases n,
{
    if n > 0 {
        assert(longer[n - 1] == longer.subrange(0, shorter.len() as int)[n - 1]);
        lemma_keys_bytes_prefix(longer, shorter, n - 1);
    }
}

} // verus!
