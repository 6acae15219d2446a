//! Forward recovery of a whole collection: one image after another, each
//! reassembled by the image walk, until the memo that completed an image
//! carries the collection-end tag. The names of the written files come from
//! here too: the chain's own candidate, or an ordinal fallback.

use vstd::prelude::*;
use vstd::string::StringSliceAdditionalSpecFns;
use crate::RecoveryError;
use crate::chain::Coin;
use crate::image::ImageData;
use crate::markers::{collection_end_marker, collection_start_marker, has_marker,
    is_collection_end, is_collection_start};

verus! {

/// The decimal digits of `n`, as ASCII bytes, most significant first.
pub open spec fn ascii_digits(n: nat) -> Seq<u8>
    decreases n,
{
    if n < 10 {
        seq![(48 + n) as u8]
    } else {
        ascii_digits(n / 10) + seq![(48 + n % 10) as u8]
    }
}

/// Append the decimal digits of `n`.
fn push_dec_digits(n: u64, out: &mut Vec<u8>)
    ensures
        final(out)@ == old(out)@ + ascii_digits(n as nat),
    decreases n,
{
    if n < 10 {
        out.push(48 + (n as u8));
    } else {
        push_dec_digits(n / 10, out);
        out.push(48 + ((n % 10) as u8));
        proof {
            assert(out@ =~= old(out)@ + ascii_digits(n as nat));
        }
    }
}

/// The ASCII bytes of `.png`.
pub open spec fn png_suffix() -> Seq<u8> {
    seq![46u8, 112u8, 110u8, 103u8]
}

/// The ordinal fallback name for an image without a carried filename:
/// `<counter>-<coin text>.png`.
pub open spec fn fallback_name(counter: u64, coin_text: Seq<u8>) -> Seq<u8> {
    ascii_digits(counter as nat) + seq![45u8] + coin_text + png_suffix()
}

/// The fallback name for a single recovered image: `<coin text>.png`.
pub open spec fn default_image_name(coin_text: Seq<u8>) -> Seq<u8> {
    coin_text + png_suffix()
}

fn push_bytes(out: &mut Vec<u8>, b: &[u8])
    ensures
        final(out)@ == old(out)@ + b@,
{
    let mut i: usize = 0;
    while i < b.len()
        invariant
            i <= b@.len(),
            out@ == old(out)@ + b@.subrange(0, i as int),
        decreases b@.len() - i,
    {
        out.push(*vstd::slice::slice_index_get(b, i));
        proof {
            assert(old(out)@ + b@.subrange(0, i as int) + seq![b@[i as int]]
                =~= old(out)@ + b@.subrange(0, i as int + 1));
        }
        i += 1;
    }
    proof {
        assert(b@.subrange(0, b@.len() as int) =~= b@);
    }
}

/// Build the ordinal fallback filename `<counter>-<coin text>.png`.
pub fn fallback_filename(counter: u64, coin_text: &str) -> (r: Vec<u8>)
    ensures
        r@ == fallback_name(counter, coin_text.spec_bytes()),
{
    let mut out: Vec<u8> = Vec::new();
    push_dec_digits(counter, &mut out);
    out.push(45);
    push_bytes(&mut out, coin_text.as_bytes());
    out.push(46);
    out.push(112);
    out.push(110);
    out.push(103);
    proof {
        assert(out@ =~= fallback_name(counter, coin_text.spec_bytes()));
    }
    out
}

/// Build the single-image fallback filename `<coin text>.png`.
pub fn default_image_filename(coin_text: &str) -> (r: Vec<u8>)
    ensures
        r@ == default_image_name(coin_text.spec_bytes()),
{
    let mut out: Vec<u8> = Vec::new();
    push_bytes(&mut out, coin_text.as_bytes());
    out.push(46);
    out.push(112);
    out.push(110);
    out.push(103);
    proof {
        assert(out@ =~= default_image_name(coin_text.spec_bytes()));
    }
    out
}

/// The name to write one collection image under: the carried candidate, or
/// the ordinal fallback.
pub fn image_output_name(filename: Option<String>, counter: u64, coin_text: &str) -> (r: Vec<u8>)
    ensures
        r@ == match filename {
            Some(s) => vstd::utf8::encode_utf8(s@),
            None => fallback_name(counter, coin_text.spec_bytes()),
        },
{
    match filename {
        Some(s) => {
            let b = s.as_str().as_bytes();
            vstd::slice::slice_to_vec(b)
        }
        None => fallback_filename(counter, coin_text),
    }
}

/// What the collection walk does after one completed image.
pub enum CollectionStep {
    /// The memo that completed the image carries the collection-end tag: the
    /// collection is fully recovered.
    Finished,
    /// Fetch this coin (the deterministic child of the coin that completed
    /// the image) and reassemble the next image from it.
    NextImage(Coin),
}

/// Decide, from one completed image, whether the collection is done or where
/// its next image starts.
pub fn collection_step(img: &ImageData) -> (r: CollectionStep)
    requires
        img.last_coin.wf(),
    ensures
        match r {
            CollectionStep::Finished => has_marker(img.last_memo@, collection_end_marker()),
            CollectionStep::NextImage(child) => {
                &&& !has_marker(img.last_memo@, collection_end_marker())
                &&& child.parent_coin_info@ == img.last_coin.coin.id()
                &&& child.puzzle_hash@ == img.last_coin.coin@.puzzle_hash
                &&& child.amount == img.last_coin.coin@.amount
                &&& child.wf()
            },
        },
{
    if is_collection_end(img.last_memo.as_slice()) {
        CollectionStep::Finished
    } else {
        CollectionStep::NextImage(img.last_coin.coin.expected_child())
    }
}

/// The first memo of a collection walk must carry the collection-start tag;
/// anything else fails with `ProtocolMismatch`.
pub fn require_collection_start(memo_opt: &Option<Vec<u8>>) -> (r: Result<(), RecoveryError>)
    ensures
        match r {
            Ok(u) => memo_opt matches Some(m) && has_marker(m@, collection_start_marker()),
            Err(e) => e == RecoveryError::ProtocolMismatch && (memo_opt is None || (
            memo_opt matches Some(m) && !has_marker(m@, collection_start_marker()))),
        },
{
    match memo_opt {
        Some(m) => {
            if is_collection_start(m.as_slice()) {
                Ok(())
            } else {
                Err(RecoveryError::ProtocolMismatch)
            }
        }
        None => Err(RecoveryError::ProtocolMismatch),
    }
}

} // verus!
