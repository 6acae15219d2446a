//! Recovery of the metadata blobs a single coin's memo carries: trim the
//! metadata tags, gzip-inflate, parse a JSON array of strings, and decode
//! each entry from base64 into one blob.

use vstd::prelude::*;
use base64::Engine;
use crate::RecoveryError;
use crate::markers::{
    drop_from_marker, drop_through_marker, filter_meta_end, filter_meta_start, has_marker,
    is_meta, lemma_find_marker_of_unique, match_at, meta_end_marker, meta_start_marker,
};

verus! {

/// What gzip inflation yields for a buffer, if the buffer is a well-formed
/// gzip stream. It depends on the bytes alone.
pub uninterp spec fn gunzip(b: Seq<u8>) -> Option<Seq<u8>>;

/// Relies on flate2's GzDecoder: gzip inflation of the whole stream, which
/// fails exactly on malformed input.
#[verifier::external_body]
fn gzip_inflate(b: &[u8]) -> (r: Option<Vec<u8>>)
    ensures
        r matches Some(v) ==> gunzip(b@) == Some(v@),
        r is None ==> gunzip(b@) is None,
{
    let mut decoder = flate2::read::GzDecoder::new(b);
    let mut out: Vec<u8> = Vec::new();
    std::io::Read::read_to_end(&mut decoder, &mut out).ok().map(|_| out)
}

/// Gzip-inflate a buffer. Fails with `Decode` exactly on a malformed stream.
pub fn decompress_gzip_to_bytes(compressed: &[u8]) -> (r: Result<Vec<u8>, RecoveryError>)
    ensures
        r matches Ok(v) ==> gunzip(compressed@) == Some(v@),
        r matches Err(e) ==> e == RecoveryError::Decode && gunzip(compressed@) is None,
{
    match gzip_inflate(compressed) {
        Some(v) => Ok(v),
        None => Err(RecoveryError::Decode),
    }
}

/// What base64 decoding yields for a piece of text, if the text is
/// well-formed standard base64. It depends on the text alone.
pub uninterp spec fn base64_payload(s: Seq<char>) -> Option<Seq<u8>>;

/// Relies on base64's standard-alphabet engine: padded base64 decoding,
/// which fails exactly on malformed input.
#[verifier::external_body]
fn base64_decode(s: &str) -> (r: Option<Vec<u8>>)
    ensures
        r matches Some(v) ==> base64_payload(s@) == Some(v@),
        r is None ==> base64_payload(s@) is None,
{
    base64::engine::general_purpose::STANDARD.decode(s).ok()
}

/// What parsing a buffer as a JSON array of strings yields, if the buffer is
/// one. It depends on the bytes alone.
pub uninterp spec fn json_string_array(b: Seq<u8>) -> Option<Seq<Seq<char>>>;

/// Relies on serde_json::from_slice::<Vec<String>>: parses the buffer as a
/// JSON array of strings, failing exactly on anything else.
#[verifier::external_body]
fn parse_json_string_array(b: &[u8]) -> (r: Option<Vec<String>>)
    ensures
        r matches Some(v) ==> json_string_array(b@) == Some(v.deep_view()),
        r is None ==> json_string_array(b@) is None,
{
    serde_json::from_slice::<Vec<String>>(b).ok()
}

/// Base64-decode every entry; one malformed entry fails the whole sequence.
pub open spec fn decode_all_base64(entries: Seq<Seq<char>>) -> Option<Seq<Seq<u8>>>
    decreases entries.len(),
{
    if entries.len() == 0 {
        Some(Seq::<Seq<u8>>::empty())
    } else {
        match (base64_payload(entries[0]), decode_all_base64(entries.skip(1))) {
            (Some(b), Some(rest)) => Some(seq![b] + rest),
            _ => None,
        }
    }
}

/// If every entry decodes, the sequence decodes to exactly those results.
proof fn lemma_decode_all_pointwise(entries: Seq<Seq<char>>, outs: Seq<Seq<u8>>)
    requires
        outs.len() == entries.len(),
        forall|k: int| 0 <= k < entries.len() ==> base64_payload(entries[k]) == Some(outs[k]),
    ensures
        decode_all_base64(entries) == Some(outs),
    decreases entries.len(),
{
    if entries.len() == 0 {
        assert(outs =~= Seq::<Seq<u8>>::empty());
    } else {
        lemma_decode_all_pointwise(entries.skip(1), outs.skip(1));
        assert(decode_all_base64(entries) == Some(seq![outs[0]] + outs.skip(1)));
        assert(seq![outs[0]] + outs.skip(1) =~= outs);
    }
}

/// If any entry fails to decode, the whole sequence fails.
proof fn lemma_decode_all_fails(entries: Seq<Seq<char>>, j: int)
    requires
        0 <= j < entries.len(),
        base64_payload(entries[j]) is None,
    ensures
        decode_all_base64(entries) is None,
    decreases entries.len(),
{
    if j > 0 {
        lemma_decode_all_fails(entries.skip(1), j - 1);
    }
}

/// The memo's metadata tags trimmed away: everything through the first
/// metadata-start tag and everything from the first following metadata-end
/// tag are removed.
pub open spec fn trimmed_metadata(m: Seq<u8>) -> Seq<u8> {
    drop_from_marker(drop_through_marker(m, meta_start_marker()), meta_end_marker())
}

/// The blobs a metadata memo carries: trim the tags, gzip-inflate, parse a
/// JSON array of strings, and base64-decode each entry. Any malformed stage
/// yields nothing.
pub open spec fn metadata_blobs(m: Seq<u8>) -> Option<Seq<Seq<u8>>> {
    match gunzip(trimmed_metadata(m)) {
        Some(j) => match json_string_array(j) {
            Some(entries) => decode_all_base64(entries),
            None => None,
        },
        None => None,
    }
}

/// Recover the ordered blobs one metadata coin's memo carries. Fails with
/// `ProtocolMismatch` exactly when the memo lacks the metadata-start tag, and
/// with `Decode` exactly when any decoding stage is malformed; otherwise the
/// result is every blob, in order.
pub fn recover_metadata(memo: &[u8]) -> (r: Result<Vec<Vec<u8>>, RecoveryError>)
    ensures
        r matches Ok(v) ==> has_marker(memo@, meta_start_marker())
            && metadata_blobs(memo@) == Some(v.deep_view()),
        r matches Err(e) ==> (if e == RecoveryError::ProtocolMismatch {
            !has_marker(memo@, meta_start_marker())
        } else {
            e == RecoveryError::Decode && has_marker(memo@, meta_start_marker())
                && metadata_blobs(memo@) is None
        }),
{
    if !is_meta(memo) {
        return Err(RecoveryError::ProtocolMismatch);
    }
    let stripped = filter_meta_start(memo);
    let trimmed = filter_meta_end(stripped.as_slice());
    let inflated = match gzip_inflate(trimmed.as_slice()) {
        Some(v) => v,
        None => {
            return Err(RecoveryError::Decode);
        }
    };
    let entries = match parse_json_string_array(inflated.as_slice()) {
        Some(v) => v,
        None => {
            return Err(RecoveryError::Decode);
        }
    };
    let ghost entry_views: Seq<Seq<char>> = entries.deep_view();
    let mut blobs: Vec<Vec<u8>> = Vec::new();
    let mut i: usize = 0;
    while i < entries.len()
        invariant
            i <= entries@.len(),
            entry_views == entries.deep_view(),
            entry_views.len() == entries@.len(),
            blobs@.len() == i,
            forall|k: int| 0 <= k < i ==> base64_payload(entry_views[k])
                == Some(#[trigger] blobs.deep_view()[k]),
            json_string_array(inflated@) == Some(entry_views),
            gunzip(trimmed_metadata(memo@)) == Some(inflated@),
            has_marker(memo@, meta_start_marker()),
        decreases entries@.len() - i,
    {
        proof {
            assert(entry_views[i as int] == entries@[i as int]@);
        }
        match base64_decode(entries[i].as_str()) {
            Some(b) => {
                let ghost prev: Seq<Vec<u8>> = blobs@;
                let ghost prev_dv: Seq<Seq<u8>> = blobs.deep_view();
                blobs.push(b);
                proof {
                    assert forall|k: int| 0 <= k < i + 1 implies base64_payload(entry_views[k])
                        == Some(#[trigger] blobs.deep_view()[k]) by {
                        assert(blobs.deep_view()[k] == blobs@[k]@);
                        if k < i {
                            assert(prev_dv[k] == prev[k]@);
                            assert(blobs@[k] == prev[k]);
                        }
                    }
                }
            }
            None => {
                proof {
                    lemma_decode_all_fails(entry_views, i as int);
                }
                return Err(RecoveryError::Decode);
            }
        }
        i += 1;
    }
    proof {
        lemma_decode_all_pointwise(entry_views, blobs.deep_view());
    }
    Ok(blobs)
}

/// Law: metadata recovery round-trips. A buffer built as the metadata-start
/// tag, then a gzip stream of a JSON array of base64 strings, then the
/// metadata-end tag, yields back exactly the decoded entries, provided no
/// metadata tag occurrence begins inside the stream bytes.
pub proof fn lemma_metadata_round_trip(z: Seq<u8>, entries: Seq<Seq<char>>, blobs: Seq<Seq<u8>>)
    requires
        gunzip(z) matches Some(j) && json_string_array(j) == Some(entries),
        decode_all_base64(entries) == Some(blobs),
        forall|k: int| !match_at(meta_start_marker() + z + meta_end_marker(),
            meta_start_marker(), k) || k == 0,
        forall|k: int| 0 <= k < z.len() ==> !match_at(z + meta_end_marker(), meta_end_marker(), k),
    ensures
        metadata_blobs(meta_start_marker() + z + meta_end_marker()) == Some(blobs),
{
    let sm = meta_start_marker();
    let em = meta_end_marker();
    let m = sm + z + em;
    assert(m.subrange(0, sm.len() as int) =~= sm);
    assert(match_at(m, sm, 0));
    lemma_find_marker_of_unique(m, sm, 0);
    let after = m.subrange(sm.len() as int, m.len() as int);
    assert(after =~= z + em);
    assert(drop_through_marker(m, sm) == z + em);
    let w = z + em;
    assert(w.subrange(z.len() as int, (z.len() + em.len()) as int) =~= em);
    assert(match_at(w, em, z.len() as int));
    lemma_find_marker_of_unique(w, em, z.len() as int);
    assert(w.subrange(0, z.len() as int) =~= z);
    assert(trimmed_metadata(m) == z);
}

} // verus!
