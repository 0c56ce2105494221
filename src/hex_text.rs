use vstd::prelude::*;
use vstd::string::StringSliceAdditionalSpecFns;

use crate::DecodeError;

verus! {

/// Value of one ASCII hex digit, either case.
pub open spec fn hex_digit(c: u8) -> Option<u8> {
    if 0x30 <= c <= 0x39 {
        Some((c - 0x30) as u8)
    } else if 0x61 <= c <= 0x66 {
        Some((c - 0x61 + 10) as u8)
    } else if 0x41 <= c <= 0x46 {
        Some((c - 0x41 + 10) as u8)
    } else {
        None
    }
}

/// The bytes that a string of hex digit pairs spells, if it is one.
pub open spec fn hex_decoded(s: Seq<u8>) -> Option<Seq<u8>>
    decreases s.len(),
{
    if s.len() % 2 != 0 {
        None
    } else if s.len() == 0 {
        Some(Seq::empty())
    } else {
        match (hex_digit(s[0]), hex_digit(s[1]), hex_decoded(s.subrange(2, s.len() as int))) {
            (Some(hi), Some(lo), Some(rest)) => Some(seq![(hi * 16 + lo) as u8] + rest),
            _ => None,
        }
    }
}

/// The text with one leading `0x` taken off, if it has one.
pub open spec fn without_hex_prefix(s: Seq<u8>) -> Seq<u8> {
    if s.len() >= 2 && s[0] == 0x30 && s[1] == 0x78 {
        s.subrange(2, s.len() as int)
    } else {
        s
    }
}

/// The hex digit for a value below 16, lower or upper case.
pub open spec fn hex_char(n: u8, upper: bool) -> u8 {
    if n < 10 {
        (0x30 + n) as u8
    } else if upper {
        (0x41 + n - 10) as u8
    } else {
        (0x61 + n - 10) as u8
    }
}

/// The hex text of `b`: two digits per byte, high digit first, all in one case.
pub open spec fn hex_text(b: Seq<u8>, upper: bool) -> Seq<u8>
    decreases b.len(),
{
    if b.len() == 0 {
        Seq::empty()
    } else {
        seq![hex_char(b[0] / 16, upper), hex_char(b[0] % 16, upper)] + hex_text(
            b.subrange(1, b.len() as int),
            upper,
        )
    }
}

proof fn lemma_hex_text_decodes(b: Seq<u8>, upper: bool)
    ensures
        hex_text(b, upper).len() == 2 * b.len(),
        hex_decoded(hex_text(b, upper)) == Some(b),
    decreases b.len(),
{
    if b.len() > 0 {
        let rest = b.subrange(1, b.len() as int);
        lemma_hex_text_decodes(rest, upper);
        let s = hex_text(b, upper);
        assert(s.subrange(2, s.len() as int) =~= hex_text(rest, upper));
        let (hi, lo) = ((b[0] / 16) as u8, (b[0] % 16) as u8);
        assert(hex_digit(hex_char(hi, upper)) == Some(hi));
        assert(hex_digit(hex_char(lo, upper)) == Some(lo));
        assert((hi * 16 + lo) as u8 == b[0]);
        assert(seq![b[0]] + rest =~= b);
    }
}

/// Hex text of bytes, in either case and with or without a leading `0x`,
/// decodes to those bytes.
pub proof fn lemma_hex_round_trip(b: Seq<u8>, upper: bool)
    ensures
        hex_decoded(without_hex_prefix(hex_text(b, upper))) == Some(b),
        hex_decoded(without_hex_prefix(seq![0x30u8, 0x78u8] + hex_text(b, upper))) == Some(b),
{
    lemma_hex_text_decodes(b, upper);
    let s = hex_text(b, upper);
    if b.len() > 0 {
        assert(s[1] == hex_char((b[0] % 16) as u8, upper));
        assert(s[1] != 0x78);
    }
    assert((seq![0x30u8, 0x78u8] + s).subrange(2, (s.len() + 2) as int) =~= s);
}

/// Relies on `hex::decode`: `Ok` exactly when the input is an even number of
/// hex digits (either case), each pair giving one byte, high digit first.
#[verifier::external_body]
fn decode_hex(s: &[u8]) -> (r: Option<Vec<u8>>)
    ensures
        match r {
            Some(v) => hex_decoded(s@) == Some(v@),
            None => hex_decoded(s@) is None,
        },
{
    hex::decode(s).ok()
}

/// Decodes hex text, with or without a leading `0x`, into bytes.
pub fn try_bytes_from_hex_str(s: &str) -> (r: Result<Vec<u8>, DecodeError>)
    ensures
        match r {
            Ok(v) => hex_decoded(without_hex_prefix(s.spec_bytes())) == Some(v@),
            Err(e) => hex_decoded(without_hex_prefix(s.spec_bytes())) is None
                && e == DecodeError::InvalidHex,
        },
{
    let bytes = s.as_bytes();
    let digits: &[u8] = if bytes.len() >= 2 && bytes[0] == 0x30 && bytes[1] == 0x78 {
        &bytes[2..bytes.len()]
    } else {
        bytes
    };
    match decode_hex(digits) {
        Some(v) => Ok(v),
        None => Err(DecodeError::InvalidHex),
    }
}

} // verus!
