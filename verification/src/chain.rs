//! Coins and chain traversal steps. A coin's forward child is deterministic:
//! same puzzle hash and amount, parent equal to the current coin's id. The
//! ledger fetches themselves happen outside this library; what stands here is
//! every derivation and decision of a traversal step.

use vstd::prelude::*;
use crate::RecoveryError;

verus! {

/// A copy of a byte buffer.
pub fn clone_bytes(v: &Vec<u8>) -> (r: Vec<u8>)
    ensures
        r@ == v@,
{
    vstd::slice::slice_to_vec(v.as_slice())
}

/// An addressable value unit on the ledger. Its identity is a deterministic
/// hash of exactly these three fields.
#[derive(Clone, Debug, PartialEq, Eq)]
pub struct Coin {
    /// The 32-byte id of the coin this one was created from.
    pub parent_coin_info: Vec<u8>,
    /// The 32-byte hash of the coin's puzzle.
    pub puzzle_hash: Vec<u8>,
    /// The coin's value.
    pub amount: u64,
}

/// A coin as fetched from the ledger, with its lifecycle heights. A spent
/// height of 0 means unspent, a terminal state for forward traversal.
#[derive(Clone, Debug, PartialEq, Eq)]
pub struct CoinRecord {
    pub coin: Coin,
    pub confirmed_block_index: u32,
    pub spent_block_index: u32,
}

/// The mathematical value of a `Coin`.
pub ghost struct CoinView {
    pub parent_coin_info: Seq<u8>,
    pub puzzle_hash: Seq<u8>,
    pub amount: u64,
}

/// The mathematical value of a `CoinRecord`.
pub ghost struct CoinRecordView {
    pub coin: CoinView,
    pub confirmed_block_index: u32,
    pub spent_block_index: u32,
}

impl View for Coin {
    type V = CoinView;

    open spec fn view(&self) -> CoinView {
        CoinView {
            parent_coin_info: self.parent_coin_info@,
            puzzle_hash: self.puzzle_hash@,
            amount: self.amount,
        }
    }
}

impl View for CoinRecord {
    type V = CoinRecordView;

    open spec fn view(&self) -> CoinRecordView {
        CoinRecordView {
            coin: self.coin@,
            confirmed_block_index: self.confirmed_block_index,
            spent_block_index: self.spent_block_index,
        }
    }
}

/// What the ledger's deterministic coin-id hash yields for a parent id,
/// puzzle hash and amount; a function of the three alone.
pub uninterp spec fn coin_id_of(parent: Seq<u8>, puzzle_hash: Seq<u8>, amount: u64) -> Seq<u8>;

/// Relies on chia_protocol::Coin::coin_id: the 32-byte id is a digest of the
/// parent id, the puzzle hash and the amount, and of those alone.
#[verifier::external_body]
fn chia_coin_id(parent: &Vec<u8>, puzzle_hash: &Vec<u8>, amount: u64) -> (r: Vec<u8>)
    requires
        parent@.len() == 32,
        puzzle_hash@.len() == 32,
    ensures
        r@ == coin_id_of(parent@, puzzle_hash@, amount),
        r@.len() == 32,
{
    let coin = chia_protocol::Coin::new(
        chia_protocol::Bytes32::try_from(parent.as_slice()).unwrap(),
        chia_protocol::Bytes32::try_from(puzzle_hash.as_slice()).unwrap(),
        amount,
    );
    coin.coin_id().as_ref().to_vec()
}

impl Coin {
    /// Both id fields have the ledger's fixed 32-byte width.
    pub open spec fn wf(&self) -> bool {
        self.parent_coin_info@.len() == 32 && self.puzzle_hash@.len() == 32
    }

    /// The coin's spec-level identity.
    pub open spec fn id(&self) -> Seq<u8> {
        coin_id_of(self.parent_coin_info@, self.puzzle_hash@, self.amount)
    }

    /// Recompute the coin's deterministic id.
    pub fn coin_id(&self) -> (r: Vec<u8>)
        requires
            self.wf(),
        ensures
            r@ == self.id(),
            r@.len() == 32,
    {
        chia_coin_id(&self.parent_coin_info, &self.puzzle_hash, self.amount)
    }

    /// The one coin this protocol can create next from this one: same puzzle
    /// hash and amount, parent equal to this coin's id.
    pub fn expected_child(&self) -> (r: Coin)
        requires
            self.wf(),
        ensures
            r.parent_coin_info@ == self.id(),
            r.puzzle_hash@ == self.puzzle_hash@,
            r.amount == self.amount,
            r.wf(),
    {
        Coin {
            parent_coin_info: self.coin_id(),
            puzzle_hash: clone_bytes(&self.puzzle_hash),
            amount: self.amount,
        }
    }

    /// A copy of the coin.
    pub fn duplicate(&self) -> (r: Coin)
        ensures
            r@ == self@,
    {
        Coin {
            parent_coin_info: clone_bytes(&self.parent_coin_info),
            puzzle_hash: clone_bytes(&self.puzzle_hash),
            amount: self.amount,
        }
    }
}

/// Law: the derived child's own id is the ledger hash of the parent coin's
/// id, puzzle hash and amount.
pub proof fn lemma_child_id(c: Coin, child: Coin)
    requires
        child.parent_coin_info@ == c.id(),
        child.puzzle_hash@ == c.puzzle_hash@,
        child.amount == c.amount,
    ensures
        child.id() == coin_id_of(c.id(), c.puzzle_hash@, c.amount),
{
}

impl CoinRecord {
    /// The record's coin has well-formed id fields.
    pub open spec fn wf(&self) -> bool {
        self.coin.wf()
    }

    /// The coin has been spent.
    pub open spec fn spent(&self) -> bool {
        self.spent_block_index > 0
    }

    /// The coin was created and spent at the same height; the backward walk
    /// skips such coins without reading them.
    pub open spec fn ephemeral(&self) -> bool {
        self.spent_block_index == self.confirmed_block_index
    }

    /// The coin has been spent.
    pub fn is_spent(&self) -> (r: bool)
        ensures
            r == self.spent(),
    {
        self.spent_block_index > 0
    }

    /// The coin was created and spent at the same height.
    pub fn is_ephemeral(&self) -> (r: bool)
        ensures
            r == self.ephemeral(),
    {
        self.spent_block_index == self.confirmed_block_index
    }

    /// A copy of the record.
    pub fn duplicate(&self) -> (r: CoinRecord)
        ensures
            r@ == self@,
    {
        CoinRecord {
            coin: self.coin.duplicate(),
            confirmed_block_index: self.confirmed_block_index,
            spent_block_index: self.spent_block_index,
        }
    }
}

/// Classify what the ledger returned for an expected forward child. An
/// absent record is `NotFound`; an unspent one means the chain ends before
/// its terminal marker and is `Truncated`.
pub fn check_child_record(fetched: Option<CoinRecord>) -> (r: Result<CoinRecord, RecoveryError>)
    ensures
        r matches Ok(rec) ==> (fetched matches Some(f) && f@ == rec@) && rec.spent(),
        r matches Err(e) ==> (if e == RecoveryError::NotFound {
            fetched is None
        } else {
            e == RecoveryError::Truncated && (fetched matches Some(f) && !f.spent())
        }),
{
    match fetched {
        None => Err(RecoveryError::NotFound),
        Some(rec) => {
            if rec.spent_block_index == 0 {
                Err(RecoveryError::Truncated)
            } else {
                Ok(rec)
            }
        }
    }
}

/// Classify what the ledger returned for a coin's parent during the backward
/// walk: an absent record is `NotFound`.
pub fn check_parent_record(fetched: Option<CoinRecord>) -> (r: Result<CoinRecord, RecoveryError>)
    ensures
        r matches Ok(rec) ==> (fetched matches Some(f) && f@ == rec@),
        r matches Err(e) ==> e == RecoveryError::NotFound && fetched is None,
{
    match fetched {
        None => Err(RecoveryError::NotFound),
        Some(rec) => Ok(rec),
    }
}

} // verus!
