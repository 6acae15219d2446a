//! Forward reassembly of one image from a chain of memo fragments.
//!
//! The walk is a state machine: the first memo must open with the PNG
//! signature; each memo is trimmed of framing markers and appended; the memo
//! holding the PNG end chunk completes the image. Advancing to the next coin
//! is a ledger fetch and happens outside the library; each step here says
//! which coin to fetch next.

use vstd::prelude::*;
use crate::RecoveryError;
use crate::chain::{Coin, CoinRecord, clone_bytes};
use crate::markers::{
    collection_end_marker, collection_start_marker, drop_from_marker, drop_through_marker,
    filename_of, filter_collection_end, filter_collection_start, filter_png_end, filter_png_start,
    get_filename, has_marker, is_png_end, is_png_start, keep_from_marker, keep_through_marker,
    png_end_marker, png_start_marker,
};

verus! {

/// One reassembled image: its bytes, the filename candidate its chain
/// carried, and the coin and unfiltered memo that completed it.
#[derive(Clone, Debug, PartialEq, Eq)]
pub struct ImageData {
    pub data: Vec<u8>,
    pub filename: Option<String>,
    pub last_coin: CoinRecord,
    pub last_memo: Vec<u8>,
}

/// The view of an optional piece of text.
pub open spec fn opt_str_view(o: Option<String>) -> Option<Seq<char>> {
    match o {
        Some(s) => Some(s@),
        None => None,
    }
}

/// One memo fragment with every framing marker trimmed, in the fixed filter
/// order: PNG start, PNG end, collection start, collection end.
pub open spec fn filtered_fragment(m: Seq<u8>) -> Seq<u8> {
    drop_from_marker(
        drop_through_marker(
            keep_through_marker(keep_from_marker(m, png_start_marker()), png_end_marker()),
            collection_start_marker(),
        ),
        collection_end_marker(),
    )
}

/// Apply the image filter chain to one memo.
pub fn filter_fragment(memo: &[u8]) -> (r: Vec<u8>)
    ensures
        r@ == filtered_fragment(memo@),
{
    let a = filter_png_start(memo);
    let b = filter_png_end(a.as_slice());
    let c = filter_collection_start(b.as_slice());
    filter_collection_end(c.as_slice())
}

/// The filename candidate after one memo: a non-empty name found in the memo
/// replaces the previous candidate; anything else keeps it.
pub open spec fn next_filename(m: Seq<u8>, prev: Option<Seq<char>>) -> Option<Seq<char>> {
    match filename_of(m) {
        Some(s) => if s.len() > 0 {
            Some(s)
        } else {
            prev
        },
        None => prev,
    }
}

/// The running state of one image reassembly.
pub struct ImageAssembly {
    /// The fragments accumulated so far, already trimmed.
    pub data: Vec<u8>,
    /// The last non-empty filename candidate seen.
    pub filename: Option<String>,
    /// The PNG signature has been seen; set by the first successful step.
    pub found_start: bool,
}

/// What one reassembly step asks the caller to do next.
#[derive(Debug)]
pub enum ImageStep {
    /// The image is complete.
    Done(ImageData),
    /// Fetch this coin's record (the deterministic forward child) and its
    /// spend, and step again with the next memo.
    Continue(Coin),
}

impl ImageAssembly {
    /// An empty assembly, before any memo was seen.
    pub fn new() -> (r: ImageAssembly)
        ensures
            r.data@ == Seq::<u8>::empty(),
            r.filename is None,
            !r.found_start,
    {
        ImageAssembly { data: Vec::new(), filename: None, found_start: false }
    }

    /// Process the memo of the current coin's spend.
    ///
    /// The first memo must hold the PNG signature, and every step must have a
    /// memo, else the walk fails with `ProtocolMismatch` and the state is
    /// unchanged. Otherwise the trimmed fragment is appended; a memo holding
    /// the PNG end chunk completes the image, and any other memo directs the
    /// caller to the deterministic forward child.
    pub fn step(&mut self, current: &CoinRecord, memo_opt: Option<Vec<u8>>) -> (r: Result<
        ImageStep,
        RecoveryError,
    >)
        requires
            current.wf(),
        ensures
            match r {
                Err(e) => {
                    &&& e == RecoveryError::ProtocolMismatch
                    &&& *final(self) == *old(self)
                    &&& (memo_opt is None || (!old(self).found_start && !has_marker(
                        memo_opt.unwrap()@,
                        png_start_marker(),
                    )))
                },
                Ok(step) => {
                    &&& memo_opt matches Some(m)
                    &&& (old(self).found_start || has_marker(memo_opt.unwrap()@, png_start_marker()))
                    &&& final(self).found_start
                    &&& final(self).data@ == old(self).data@ + filtered_fragment(
                        memo_opt.unwrap()@,
                    )
                    &&& opt_str_view(final(self).filename) == next_filename(
                        memo_opt.unwrap()@,
                        opt_str_view(old(self).filename),
                    )
                    &&& match step {
                        ImageStep::Done(img) => {
                            &&& has_marker(memo_opt.unwrap()@, png_end_marker())
                            &&& img.data@ == final(self).data@
                            &&& opt_str_view(img.filename) == opt_str_view(final(self).filename)
                            &&& img.last_coin@ == current@
                            &&& img.last_memo@ == memo_opt.unwrap()@
                        },
                        ImageStep::Continue(child) => {
                            &&& !has_marker(memo_opt.unwrap()@, png_end_marker())
                            &&& child.parent_coin_info@ == current.coin.id()
                            &&& child.puzzle_hash@ == current.coin@.puzzle_hash
                            &&& child.amount == current.coin@.amount
                            &&& child.wf()
                        },
                    }
                },
            },
    {
        let memo = match memo_opt {
            Some(m) => m,
            None => {
                return Err(RecoveryError::ProtocolMismatch);
            }
        };
        if !self.found_start && !is_png_start(memo.as_slice()) {
            return Err(RecoveryError::ProtocolMismatch);
        }
        self.found_start = true;

        // Capture the filename candidate from the unfiltered memo, before the
        // markers it sits behind are trimmed away.
        match get_filename(memo.as_slice()) {
            Some(name) => {
                if !name.as_str().is_empty() {
                    self.filename = Some(name);
                }
            }
            None => {}
        }

        let mut fragment = filter_fragment(memo.as_slice());
        self.data.append(&mut fragment);

        if is_png_end(memo.as_slice()) {
            let img = ImageData {
                data: clone_bytes(&self.data),
                filename: match &self.filename {
                    Some(s) => Some(clone_string(s)),
                    None => None,
                },
                last_coin: current.duplicate(),
                last_memo: memo,
            };
            Ok(ImageStep::Done(img))
        } else {
            Ok(ImageStep::Continue(current.coin.expected_child()))
        }
    }
}

/// A copy of a piece of text.
fn clone_string(s: &String) -> (r: String)
    ensures
        r@ == s@,
{
    s.as_str().to_owned()
}

} // verus!
