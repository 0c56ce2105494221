//! A narrow interface to BLS12-381 (min_pk) keys and signatures: decode,
//! aggregate and verify, all carried out by blst.
use vstd::prelude::*;
use vstd::string::StringSliceAdditionalSpecFns;

use blst::min_pk as bls;
use blst::BLST_ERROR;

use crate::hex_text::{
    hex_decoded, hex_text, lemma_hex_round_trip, try_bytes_from_hex_str, without_hex_prefix,
};
use crate::merkle::{merkle_root_of, merkleize, push_bytes, push_zeros, zeros};
use crate::primitives::Root;
use crate::DecodeError;

verus! {

pub const BLS_SIGNATURE_BYTES_LEN: usize = 96;

pub const BLS_PUBLIC_KEY_BYTES_LEN: usize = 48;

/// Domain separation tag of the proof-of-possession ciphersuite used by the beacon chain.
pub const BLS_DST: &'static str = "BLS_SIG_BLS12381G2_XMD:SHA-256_SSWU_RO_POP_";

/// The compressed key that blst gives for the sum of the two keys `a` and `b`,
/// or `None` where either does not decode to a curve point.
pub uninterp spec fn aggregate_of(a: Seq<u8>, b: Seq<u8>) -> Option<Seq<u8>>;

/// Whether blst accepts `sig` as a signature by `pk` over `msg`, in the
/// proof-of-possession scheme under `BLS_DST`.
pub uninterp spec fn pop_verifies(pk: Seq<u8>, msg: Seq<u8>, sig: Seq<u8>) -> bool;

/// The 96-byte uncompressed form of the compressed key `pk`, or `None` where it
/// does not decode.
pub uninterp spec fn decompressed_of(pk: Seq<u8>) -> Option<Seq<u8>>;

/// Relies on blst's `PublicKey::from_bytes`, `AggregatePublicKey::add_public_key`
/// (without a group check, as the beacon chain does) and `PublicKey::to_bytes`,
/// which gives 48 bytes.
#[verifier::external_body]
fn aggregate_keys(a: &[u8; 48], b: &[u8; 48]) -> (r: Option<[u8; 48]>)
    ensures
        match r {
            Some(k) => aggregate_of(a@, b@) == Some(k@),
            None => aggregate_of(a@, b@) is None,
        },
{
    let a = bls::PublicKey::from_bytes(a).ok()?;
    let b = bls::PublicKey::from_bytes(b).ok()?;
    let mut agg = bls::AggregatePublicKey::from_public_key(&a);
    agg.add_public_key(&b, false).ok()?;
    Some(agg.to_public_key().to_bytes())
}

/// Relies on blst's `Signature::from_bytes`, `PublicKey::from_bytes` and
/// `Signature::verify` with group checks on: `true` only on `BLST_SUCCESS`.
#[verifier::external_body]
fn pop_verify(pk: &[u8; 48], msg: &[u8], sig: &[u8; 96]) -> (r: bool)
    ensures
        r == pop_verifies(pk@, msg@, sig@),
{
    let sig = match bls::Signature::from_bytes(sig) {
        Ok(s) => s,
        Err(_) => return false,
    };
    let pk = match bls::PublicKey::from_bytes(pk) {
        Ok(p) => p,
        Err(_) => return false,
    };
    sig.verify(true, msg, BLS_DST.as_bytes(), &[], &pk, true) == BLST_ERROR::BLST_SUCCESS
}

/// Relies on blst's `PublicKey::uncompress` and `PublicKey::serialize`, which
/// gives 96 bytes.
#[verifier::external_body]
fn decompress_key(pk: &[u8; 48]) -> (r: Option<[u8; 96]>)
    ensures
        match r {
            Some(v) => decompressed_of(pk@) == Some(v@),
            None => decompressed_of(pk@) is None,
        },
{
    bls::PublicKey::uncompress(pk).ok().map(|p| p.serialize())
}

/// Failure of a BLS operation.
#[derive(Debug, Clone, PartialEq, Eq)]
pub enum BlsError {
    /// The signature does not verify, or it or the key does not decode.
    InvalidSignature,
    /// A key does not decode to a point of the curve.
    InvalidKey,
}

/// A compressed BLS12-381 public key. Any 48 bytes make one; whether they are
/// a point of the curve is checked when the key is used.
#[derive(Debug, Clone, Copy, PartialEq, Eq)]
pub struct BlsPublicKey(pub [u8; 48]);

/// A compressed BLS12-381 signature, 96 bytes, checked when it is used.
#[derive(Debug, Clone, Copy, PartialEq, Eq)]
pub struct BlsSignature(pub [u8; 96]);

/// Copies `bytes` into an array of `N` bytes, where the lengths agree.
fn fixed_bytes<const N: usize>(bytes: &[u8]) -> (r: Option<[u8; N]>)
    ensures
        match r {
            Some(a) => bytes@.len() == N && a@ == bytes@,
            None => bytes@.len() != N,
        },
{
    if bytes.len() != N {
        return None;
    }
    let mut a: [u8; N] = [0u8; N];
    let mut i: usize = 0;
    while i < N
        invariant
            bytes@.len() == N,
            i <= N,
            a@.len() == N,
            forall|j: int| 0 <= j < i ==> a@[j] == bytes@[j],
        decreases N - i,
    {
        a[i] = bytes[i];
        i = i + 1;
    }
    assert(a@ =~= bytes@);
    Some(a)
}

/// A key's encoding is its 48 bytes, and only that key has them: decoding
/// what a key encodes to gives back the key.
pub proof fn lemma_public_key_round_trip(k: BlsPublicKey, g: BlsPublicKey)
    ensures
        k.0@.len() == BLS_PUBLIC_KEY_BYTES_LEN,
        g.0@ == k.0@ ==> g == k,
{
    if g.0@ == k.0@ {
        assert(g.0 =~= k.0);
    }
}

/// A signature's encoding is its 96 bytes, and only that signature has them.
pub proof fn lemma_signature_round_trip(s: BlsSignature, g: BlsSignature)
    ensures
        s.0@.len() == BLS_SIGNATURE_BYTES_LEN,
        g.0@ == s.0@ ==> g == s,
{
    if g.0@ == s.0@ {
        assert(g.0 =~= s.0);
    }
}

/// The hex text of a key, in either case, with or without `0x`, reads back
/// as that key.
pub proof fn lemma_public_key_hex_round_trip(k: BlsPublicKey, g: BlsPublicKey, text: Seq<u8>, upper: bool)
    requires
        text == hex_text(k.0@, upper) || text == seq![0x30u8, 0x78u8] + hex_text(k.0@, upper),
    ensures
        hex_decoded(without_hex_prefix(text)) == Some(k.0@),
        g.0@ == k.0@ ==> g == k && pubkey_root(g) == pubkey_root(k),
{
    lemma_hex_round_trip(k.0@, upper);
    lemma_public_key_round_trip(k, g);
}

/// The hex text of a signature, in either case, with or without `0x`, reads
/// back as that signature.
pub proof fn lemma_signature_hex_round_trip(s: BlsSignature, g: BlsSignature, text: Seq<u8>, upper: bool)
    requires
        text == hex_text(s.0@, upper) || text == seq![0x30u8, 0x78u8] + hex_text(s.0@, upper),
    ensures
        hex_decoded(without_hex_prefix(text)) == Some(s.0@),
        g.0@ == s.0@ ==> g == s && signature_root(g) == signature_root(s),
{
    lemma_hex_round_trip(s.0@, upper);
    lemma_signature_round_trip(s, g);
}

/// The hash tree root of a public key: its 48 bytes packed into two chunks.
pub open spec fn pubkey_root(k: BlsPublicKey) -> Seq<u8> {
    merkle_root_of(k.0@ + zeros(16))
}

/// The hash tree root of a signature: its 96 bytes as three chunks.
pub open spec fn signature_root(s: BlsSignature) -> Seq<u8> {
    merkle_root_of(s.0@)
}

impl BlsPublicKey {
    pub fn hash_tree_root(&self) -> (r: Root)
        ensures
            r@ == pubkey_root(*self),
    {
        let mut chunks: Vec<u8> = Vec::new();
        push_bytes(&mut chunks, self.0.as_slice());
        push_zeros(&mut chunks, 16);
        merkleize(&chunks)
    }

    /// Takes a key from its 48 bytes; any other length is refused.
    pub fn try_from_bytes(bytes: &[u8]) -> (r: Result<Self, DecodeError>)
        ensures
            match r {
                Ok(k) => bytes@.len() == 48 && k.0@ == bytes@,
                Err(e) => bytes@.len() != 48 && e == DecodeError::WrongLength,
            },
    {
        match fixed_bytes::<48>(bytes) {
            Some(a) => Ok(BlsPublicKey(a)),
            None => Err(DecodeError::WrongLength),
        }
    }

    /// Reads a key from hex text, `0x` prefix optional.
    pub fn from_hex_str(s: &str) -> (r: Result<Self, DecodeError>)
        ensures
            match hex_decoded(without_hex_prefix(s.spec_bytes())) {
                None => r == Err::<Self, DecodeError>(DecodeError::InvalidHex),
                Some(b) => match r {
                    Ok(k) => b.len() == 48 && k.0@ == b,
                    Err(e) => b.len() != 48 && e == DecodeError::WrongLength,
                },
            },
    {
        let bytes = try_bytes_from_hex_str(s)?;
        Self::try_from_bytes(bytes.as_slice())
    }

    /// The key of the joint signer set of `self` and `other`.
    pub fn aggregate(self, other: Self) -> (r: Result<Self, BlsError>)
        ensures
            match aggregate_of(self.0@, other.0@) {
                Some(k) => r matches Ok(a) && a.0@ == k,
                None => r == Err::<Self, BlsError>(BlsError::InvalidKey),
            },
    {
        match aggregate_keys(&self.0, &other.0) {
            Some(k) => Ok(BlsPublicKey(k)),
            None => Err(BlsError::InvalidKey),
        }
    }

    /// Checks `signature` over `msg` against this key.
    pub fn verify_signature(&self, msg: &[u8], signature: &BlsSignature) -> (r: Result<(), BlsError>)
        ensures
            r is Ok <==> pop_verifies(self.0@, msg@, signature.0@),
            r is Err ==> r == Err::<(), BlsError>(BlsError::InvalidSignature),
    {
        if pop_verify(&self.0, msg, &signature.0) {
            Ok(())
        } else {
            Err(BlsError::InvalidSignature)
        }
    }

    /// The uncompressed form of the key.
    pub fn decompressed_bytes(&self) -> (r: Result<Vec<u8>, BlsError>)
        ensures
            match decompressed_of(self.0@) {
                Some(v) => r matches Ok(b) && b@ == v && b@.len() == 96,
                None => r == Err::<Vec<u8>, BlsError>(BlsError::InvalidKey),
            },
    {
        match decompress_key(&self.0) {
            Some(v) => Ok(vstd::slice::slice_to_vec(v.as_slice())),
            None => Err(BlsError::InvalidKey),
        }
    }

    pub fn to_bytes(&self) -> (r: &[u8])
        ensures
            r@ == self.0@,
    {
        self.0.as_slice()
    }
}

impl BlsSignature {
    pub fn hash_tree_root(&self) -> (r: Root)
        ensures
            r@ == signature_root(*self),
    {
        let mut chunks: Vec<u8> = Vec::new();
        push_bytes(&mut chunks, self.0.as_slice());
        merkleize(&chunks)
    }

    /// Takes a signature from its 96 bytes; any other length is refused.
    pub fn try_from_bytes(bytes: &[u8]) -> (r: Result<Self, DecodeError>)
        ensures
            match r {
                Ok(s) => bytes@.len() == 96 && s.0@ == bytes@,
                Err(e) => bytes@.len() != 96 && e == DecodeError::WrongLength,
            },
    {
        match fixed_bytes::<96>(bytes) {
            Some(a) => Ok(BlsSignature(a)),
            None => Err(DecodeError::WrongLength),
        }
    }

    /// Reads a signature from hex text, `0x` prefix optional.
    pub fn from_hex_str(s: &str) -> (r: Result<Self, DecodeError>)
        ensures
            match hex_decoded(without_hex_prefix(s.spec_bytes())) {
                None => r == Err::<Self, DecodeError>(DecodeError::InvalidHex),
                Some(b) => match r {
                    Ok(k) => b.len() == 96 && k.0@ == b,
                    Err(e) => b.len() != 96 && e == DecodeError::WrongLength,
                },
            },
    {
        let bytes = try_bytes_from_hex_str(s)?;
        Self::try_from_bytes(bytes.as_slice())
    }

    pub fn to_bytes(&self) -> (r: &[u8])
        ensures
            r@ == self.0@,
    {
        self.0.as_slice()
    }
}

} // verus!
