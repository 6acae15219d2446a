//! Text decodings at the tool's boundary: hex coin ids and bech32 NFT ids.

use vstd::prelude::*;
use vstd::string::StringSliceAdditionalSpecFns;
use crate::RecoveryError;

verus! {

/// The value of one hex digit byte, either case, if it is one.
pub open spec fn hex_digit_value(b: u8) -> Option<u8> {
    if 48 <= b && b <= 57 {
        Some((b - 48) as u8)
    } else if 97 <= b && b <= 102 {
        Some((b - 87) as u8)
    } else if 65 <= b && b <= 70 {
        Some((b - 55) as u8)
    } else {
        None
    }
}

/// Hex decoding: each pair of digits becomes one byte; odd length or a
/// non-digit fails.
pub open spec fn hex_decode_spec(s: Seq<u8>) -> Option<Seq<u8>>
    decreases s.len(),
{
    if s.len() == 0 {
        Some(Seq::<u8>::empty())
    } else if s.len() == 1 {
        None
    } else {
        match (hex_digit_value(s[0]), hex_digit_value(s[1])) {
            (Some(hi), Some(lo)) => match hex_decode_spec(s.skip(2)) {
                Some(rest) => Some(seq![(16 * hi + lo) as u8] + rest),
                None => None,
            },
            _ => None,
        }
    }
}

/// Relies on hex::decode: each pair of hex digits of either case becomes one
/// byte; an odd length or a byte that is no hex digit fails.
#[verifier::external_body]
fn hex_decode(s: &[u8]) -> (r: Option<Vec<u8>>)
    ensures
        r matches Some(v) ==> hex_decode_spec(s@) == Some(v@),
        r is None ==> hex_decode_spec(s@) is None,
{
    hex::decode(s).ok()
}

/// A leading ASCII `0x` or `0X`, if present, removed.
pub open spec fn strip_hex_prefix(s: Seq<u8>) -> Seq<u8> {
    if s.len() >= 2 && s[0] == 48 && (s[1] == 120 || s[1] == 88) {
        s.skip(2)
    } else {
        s
    }
}

/// The 32-byte coin id a piece of text denotes, if it denotes one: an
/// optional `0x` prefix, then exactly 64 hex digits.
pub open spec fn coin_id_of_text(s: Seq<u8>) -> Option<Seq<u8>> {
    match hex_decode_spec(strip_hex_prefix(s)) {
        Some(b) => if b.len() == 32 {
            Some(b)
        } else {
            None
        },
        None => None,
    }
}

/// Parse a coin id from its textual form. Fails with `Decode` unless the
/// text, after an optional `0x` prefix, hex-decodes to exactly 32 bytes.
pub fn coin_id_from_string(coin_id_str: &str) -> (r: Result<Vec<u8>, RecoveryError>)
    ensures
        r matches Ok(v) ==> coin_id_of_text(coin_id_str.spec_bytes()) == Some(v@) && v@.len() == 32,
        r matches Err(e) ==> e == RecoveryError::Decode
            && coin_id_of_text(coin_id_str.spec_bytes()) is None,
{
    let b = coin_id_str.as_bytes();
    let stripped: &[u8] = if b.len() >= 2 {
        let b0 = *vstd::slice::slice_index_get(b, 0);
        let b1 = *vstd::slice::slice_index_get(b, 1);
        if b0 == 48 && (b1 == 120 || b1 == 88) {
            let s = vstd::slice::slice_subrange(b, 2, b.len());
            proof {
                assert(s@ =~= b@.skip(2));
            }
            s
        } else {
            b
        }
    } else {
        b
    };
    proof {
        assert(stripped@ == strip_hex_prefix(b@));
    }
    match hex_decode(stripped) {
        Some(v) => {
            if v.len() == 32 {
                Ok(v)
            } else {
                Err(RecoveryError::Decode)
            }
        }
        None => Err(RecoveryError::Decode),
    }
}

/// What bech32 decoding yields for a piece of text: the data part, with the
/// checksum verified and removed, if the text is well-formed. It depends on
/// the text alone.
pub uninterp spec fn bech32_payload(s: Seq<char>) -> Option<Seq<u8>>;

/// Relies on bech32::decode: checksum-verified decoding of the data part of a
/// bech32 or bech32m string, dropping the human-readable part.
#[verifier::external_body]
fn bech32_decode(s: &str) -> (r: Option<Vec<u8>>)
    ensures
        r matches Some(v) ==> bech32_payload(s@) == Some(v@),
        r is None ==> bech32_payload(s@) is None,
{
    bech32::decode(s).ok().map(|(_hrp, data)| data)
}

/// Decode an NFT identifier (checksummed text) to its 32-byte launcher id.
/// Fails with `Decode` unless the text is well-formed and its payload is
/// exactly 32 bytes.
pub fn nft_launcher_id(nft_id: &str) -> (r: Result<Vec<u8>, RecoveryError>)
    ensures
        r matches Ok(v) ==> bech32_payload(nft_id@) == Some(v@) && v@.len() == 32,
        r matches Err(e) ==> e == RecoveryError::Decode
            && (bech32_payload(nft_id@) is None
                || (bech32_payload(nft_id@) matches Some(p) && p.len() != 32)),
{
    match bech32_decode(nft_id) {
        Some(v) => {
            if v.len() == 32 {
                Ok(v)
            } else {
                Err(RecoveryError::Decode)
            }
        }
        None => Err(RecoveryError::Decode),
    }
}

} // verus!
