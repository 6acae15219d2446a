//! Locating a collection's start coin from an arbitrary member NFT.
//!
//! Two parts stand here. First, the announcement match: the spend of the
//! launcher's grandparent committed announcement messages, and among the
//! block's removals exactly one spend must assert the id of one of them —
//! that removal is the entry into the backward walk. Second, the backward
//! walk itself: a phase machine expecting, in order, a gap memo, the
//! metadata memo, the collection-end memo, and finally the collection-start
//! memo.

use vstd::prelude::*;
use crate::RecoveryError;
use crate::chain::CoinRecord;
use crate::conditions::SpendCondition;
use crate::markers::{
    collection_end_marker, collection_start_marker, has_marker, is_collection_end,
    is_collection_start, is_meta, meta_start_marker,
};

verus! {

/// What the SHA-256 digest of a buffer is; a function of the bytes alone.
pub uninterp spec fn sha256_of(b: Seq<u8>) -> Seq<u8>;

/// Relies on chia_sha2::Sha256: the 32-byte SHA-256 digest of the two
/// buffers concatenated.
#[verifier::external_body]
fn sha256_pair(a: &[u8], b: &[u8]) -> (r: Vec<u8>)
    ensures
        r@ == sha256_of(a@ + b@),
        r@.len() == 32,
{
    let mut hasher = chia_sha2::Sha256::new();
    hasher.update(a);
    hasher.update(b);
    hasher.finalize().to_vec()
}

/// The two buffers hold the same bytes.
fn bytes_eq(a: &[u8], b: &[u8]) -> (r: bool)
    ensures
        r == (a@ == b@),
{
    let al = a.len();
    if al != b.len() {
        return false;
    }
    let mut i: usize = 0;
    while i < al
        invariant
            i <= al,
            al == a@.len(),
            al == b@.len(),
            forall|k: int| 0 <= k < i ==> a@[k] == b@[k],
        decreases al - i,
    {
        if *vstd::slice::slice_index_get(a, i) != *vstd::slice::slice_index_get(b, i) {
            return false;
        }
        i += 1;
    }
    proof {
        assert(a@ =~= b@);
    }
    true
}

/// The messages of the coin-announcement creations in a condition list, in
/// order.
pub open spec fn announcement_messages(s: Seq<SpendCondition>) -> Seq<Seq<u8>>
    decreases s.len(),
{
    if s.len() == 0 {
        Seq::<Seq<u8>>::empty()
    } else {
        let rest = announcement_messages(s.skip(1));
        match s[0] {
            SpendCondition::CreateCoinAnnouncement { message } => seq![message@] + rest,
            _ => rest,
        }
    }
}

/// The ids of the coin-announcement assertions in a condition list, in order.
pub open spec fn asserted_announcement_ids(s: Seq<SpendCondition>) -> Seq<Seq<u8>>
    decreases s.len(),
{
    if s.len() == 0 {
        Seq::<Seq<u8>>::empty()
    } else {
        let rest = asserted_announcement_ids(s.skip(1));
        match s[0] {
            SpendCondition::AssertCoinAnnouncement { announcement_id } => seq![announcement_id@]
                + rest,
            _ => rest,
        }
    }
}

/// Collect the messages of every coin-announcement creation.
pub fn create_coin_announcements(conds: &Vec<SpendCondition>) -> (r: Vec<Vec<u8>>)
    ensures
        r.deep_view() == announcement_messages(conds@),
{
    proof {
        assert(conds@.skip(0) =~= conds@);
    }
    let mut out: Vec<Vec<u8>> = Vec::new();
    let mut i: usize = 0;
    while i < conds.len()
        invariant
            i <= conds@.len(),
            announcement_messages(conds@) == out.deep_view() + announcement_messages(
                conds@.skip(i as int),
            ),
        decreases conds@.len() - i,
    {
        proof {
            assert(conds@.skip(i as int)[0] == conds@[i as int]);
            assert(conds@.skip(i as int).skip(1) =~= conds@.skip(i as int + 1));
        }
        let ghost prev: Seq<Vec<u8>> = out@;
        let ghost prev_dv: Seq<Seq<u8>> = out.deep_view();
        match &conds[i] {
            SpendCondition::CreateCoinAnnouncement { message } => {
                let m = crate::chain::clone_bytes(message);
                let ghost mv: Seq<u8> = m@;
                out.push(m);
                proof {
                    assert forall|t: int| 0 <= t < out@.len() implies out.deep_view()[t] == (
                    prev_dv + seq![mv])[t] by {
                        assert(out.deep_view()[t] == out@[t]@);
                        if t < prev.len() {
                            assert(out@[t] == prev[t]);
                            assert(prev_dv[t] == prev[t]@);
                        } else {
                            assert(out@[t]@ == mv);
                        }
                    }
                    assert(out.deep_view() =~= prev_dv + seq![mv]);
                    assert(out.deep_view() + announcement_messages(conds@.skip(i as int + 1))
                        =~= prev_dv + announcement_messages(conds@.skip(i as int)));
                }
            }
            _ => {}
        }
        i += 1;
    }
    proof {
        assert(out.deep_view() + announcement_messages(conds@.skip(i as int)) =~= out.deep_view());
    }
    out
}

/// Collect the ids of every coin-announcement assertion.
pub fn collect_asserted_ids(conds: &Vec<SpendCondition>) -> (r: Vec<Vec<u8>>)
    ensures
        r.deep_view() == asserted_announcement_ids(conds@),
{
    proof {
        assert(conds@.skip(0) =~= conds@);
    }
    let mut out: Vec<Vec<u8>> = Vec::new();
    let mut i: usize = 0;
    while i < conds.len()
        invariant
            i <= conds@.len(),
            asserted_announcement_ids(conds@) == out.deep_view() + asserted_announcement_ids(
                conds@.skip(i as int),
            ),
        decreases conds@.len() - i,
    {
        proof {
            assert(conds@.skip(i as int)[0] == conds@[i as int]);
            assert(conds@.skip(i as int).skip(1) =~= conds@.skip(i as int + 1));
        }
        let ghost prev: Seq<Vec<u8>> = out@;
        let ghost prev_dv: Seq<Seq<u8>> = out.deep_view();
        match &conds[i] {
            SpendCondition::AssertCoinAnnouncement { announcement_id } => {
                let m = crate::chain::clone_bytes(announcement_id);
                let ghost mv: Seq<u8> = m@;
                out.push(m);
                proof {
                    assert forall|t: int| 0 <= t < out@.len() implies out.deep_view()[t] == (
                    prev_dv + seq![mv])[t] by {
                        assert(out.deep_view()[t] == out@[t]@);
                        if t < prev.len() {
                            assert(out@[t] == prev[t]);
                            assert(prev_dv[t] == prev[t]@);
                        } else {
                            assert(out@[t]@ == mv);
                        }
                    }
                    assert(out.deep_view() =~= prev_dv + seq![mv]);
                    assert(out.deep_view() + asserted_announcement_ids(conds@.skip(i as int + 1))
                        =~= prev_dv + asserted_announcement_ids(conds@.skip(i as int)));
                }
            }
            _ => {}
        }
        i += 1;
    }
    proof {
        assert(out.deep_view() + asserted_announcement_ids(conds@.skip(i as int))
            =~= out.deep_view());
    }
    out
}

/// The announcement ids the entry spend must assert: for each committed
/// message, the digest of the ephemeral coin's parent id followed by the
/// message.
pub open spec fn expected_ids_spec(parent: Seq<u8>, anns: Seq<Seq<u8>>) -> Seq<Seq<u8>> {
    Seq::new(anns.len(), |j: int| sha256_of(parent + anns[j]))
}

/// Compute the expected announcement id for each committed message.
pub fn expected_announcement_ids(parent: &Vec<u8>, anns: &Vec<Vec<u8>>) -> (r: Vec<Vec<u8>>)
    ensures
        r.deep_view() == expected_ids_spec(parent@, anns.deep_view()),
{
    let mut out: Vec<Vec<u8>> = Vec::new();
    let mut j: usize = 0;
    while j < anns.len()
        invariant
            j <= anns@.len(),
            out@.len() == j,
            forall|k: int| 0 <= k < j ==> #[trigger] out@[k]@ == sha256_of(
                parent@ + anns.deep_view()[k],
            ),
        decreases anns@.len() - j,
    {
        proof {
            assert(anns.deep_view()[j as int] == anns@[j as int]@);
        }
        let id = sha256_pair(parent.as_slice(), anns[j].as_slice());
        out.push(id);
        j += 1;
    }
    proof {
        assert forall|t: int| 0 <= t < out@.len() implies out.deep_view()[t] == expected_ids_spec(
            parent@,
            anns.deep_view(),
        )[t] by {
            assert(out.deep_view()[t] == out@[t]@);
        }
        assert(out.deep_view() =~= expected_ids_spec(parent@, anns.deep_view()));
    }
    out
}

/// How many entries of `xs` equal `x`.
pub open spec fn count_in(xs: Seq<Seq<u8>>, x: Seq<u8>) -> nat
    decreases xs.len(),
{
    if xs.len() == 0 {
        0
    } else {
        (if xs[0] == x {
            1nat
        } else {
            0
        }) + count_in(xs.skip(1), x)
    }
}

/// Count the entries of `xs` that equal `x`.
fn count_eq(xs: &Vec<Vec<u8>>, x: &Vec<u8>) -> (r: usize)
    ensures
        r == count_in(xs.deep_view(), x@),
{
    let ghost dv: Seq<Seq<u8>> = xs.deep_view();
    proof {
        assert(dv.skip(0) =~= dv);
    }
    let mut r: usize = 0;
    let mut i: usize = 0;
    while i < xs.len()
        invariant
            i <= xs@.len(),
            dv == xs.deep_view(),
            dv.len() == xs@.len(),
            r <= i,
            count_in(dv, x@) == r + count_in(dv.skip(i as int), x@),
        decreases xs@.len() - i,
    {
        proof {
            assert(dv.skip(i as int)[0] == dv[i as int]);
            assert(dv.skip(i as int).skip(1) =~= dv.skip(i as int + 1));
            assert(dv[i as int] == xs@[i as int]@);
        }
        if bytes_eq(xs[i].as_slice(), x.as_slice()) {
            r = r + 1;
        }
        i += 1;
    }
    r
}

/// How many (expected id, assertion) pairs agree for one removal.
pub open spec fn removal_count(asserts: Seq<Seq<u8>>, ids: Seq<Seq<u8>>) -> nat
    decreases ids.len(),
{
    if ids.len() == 0 {
        0
    } else {
        count_in(asserts, ids[0]) + removal_count(asserts, ids.skip(1))
    }
}

/// `removal_count`, capped at 2: enough to tell none, one, and many apart.
fn removal_match_count(asserts: &Vec<Vec<u8>>, ids: &Vec<Vec<u8>>) -> (r: usize)
    ensures
        r == vstd::math::min(removal_count(asserts.deep_view(), ids.deep_view()) as int, 2),
{
    let ghost adv: Seq<Seq<u8>> = asserts.deep_view();
    let ghost idv: Seq<Seq<u8>> = ids.deep_view();
    proof {
        assert(idv.skip(0) =~= idv);
    }
    let ghost mut partial: nat = 0nat;
    let mut acc: usize = 0;
    let mut i: usize = 0;
    while i < ids.len()
        invariant
            i <= ids@.len(),
            idv == ids.deep_view(),
            adv == asserts.deep_view(),
            idv.len() == ids@.len(),
            removal_count(adv, idv) == partial + removal_count(adv, idv.skip(i as int)),
            acc == vstd::math::min(partial as int, 2),
        decreases ids@.len() - i,
    {
        proof {
            assert(idv.skip(i as int)[0] == idv[i as int]);
            assert(idv.skip(i as int).skip(1) =~= idv.skip(i as int + 1));
            assert(idv[i as int] == ids@[i as int]@);
        }
        let c = count_eq(asserts, &ids[i]);
        let add = if c > 2 {
            2
        } else {
            c
        };
        acc = acc + add;
        if acc > 2 {
            acc = 2;
        }
        proof {
            partial = partial + count_in(adv, idv[i as int]);
        }
        i += 1;
    }
    acc
}

/// One removed coin of the block, with the conditions its spend emitted.
pub struct RemovalSpend {
    pub record: CoinRecord,
    pub conditions: Vec<SpendCondition>,
}

/// The matches over every removal: the sum of agreeing (expected id,
/// assertion) pairs.
pub open spec fn total_count(removals: Seq<RemovalSpend>, ids: Seq<Seq<u8>>) -> nat
    decreases removals.len(),
{
    if removals.len() == 0 {
        0
    } else {
        removal_count(asserted_announcement_ids(removals[0].conditions@), ids) + total_count(
            removals.skip(1),
            ids,
        )
    }
}

/// One removal's contribution splits out of the total at any position.
proof fn lemma_total_count_remove(s: Seq<RemovalSpend>, j: int, ids: Seq<Seq<u8>>)
    requires
        0 <= j < s.len(),
    ensures
        total_count(s, ids) == removal_count(asserted_announcement_ids(s[j].conditions@), ids)
            + total_count(s.remove(j), ids),
    decreases s.len(),
{
    if j == 0 {
        assert(s.remove(0) =~= s.skip(1));
    } else {
        lemma_total_count_remove(s.skip(1), j - 1, ids);
        assert(s.remove(j).skip(1) =~= s.skip(1).remove(j - 1));
        assert(s.remove(j)[0] == s[0]);
        assert(s.skip(1)[j - 1] == s[j]);
    }
}

/// Law: the announcement match is blind to enumeration order. The number of
/// agreeing (expected id, assertion) pairs depends on the removals as a
/// multiset only, so whether the entry search accepts, and the unique
/// matching removal it reports, cannot depend on the order in which the
/// block's removals are enumerated.
pub proof fn lemma_total_count_permutation(
    r1: Seq<RemovalSpend>,
    r2: Seq<RemovalSpend>,
    ids: Seq<Seq<u8>>,
)
    requires
        r1.to_multiset() == r2.to_multiset(),
    ensures
        total_count(r1, ids) == total_count(r2, ids),
    decreases r1.len(),
{
    broadcast use vstd::seq_lib::group_to_multiset_ensures;

    if r1.len() == 0 {
        assert(r2.to_multiset().len() == 0);
    } else {
        let x = r1[0];
        assert(r1.contains(x));
        assert(r2.to_multiset().count(x) > 0);
        assert(r2.contains(x));
        let j = choose|j: int| 0 <= j < r2.len() && r2[j] == x;
        lemma_total_count_remove(r2, j, ids);
        assert(r1.remove(0) =~= r1.skip(1));
        assert(r1.remove(0).to_multiset() =~= r1.to_multiset().remove(x));
        assert(r2.remove(j).to_multiset() =~= r2.to_multiset().remove(x));
        lemma_total_count_permutation(r1.skip(1), r2.remove(j), ids);
    }
}

/// Find the one removal whose spend asserts an expected announcement id.
///
/// `eph_parent_info` is the ephemeral coin's parent id; `announcements` are
/// the messages the direct parent's spend committed; `removals` are the
/// spends removed in the ephemeral coin's block. Exactly one (message,
/// assertion) agreement must exist over all removals; zero or several fail
/// with `Ambiguous`. Which removal enters the walk is fixed by the match
/// alone, not by the order the removals are given in.
pub fn find_entry_coin(
    eph_parent_info: &Vec<u8>,
    announcements: &Vec<Vec<u8>>,
    removals: &Vec<RemovalSpend>,
) -> (r: Result<CoinRecord, RecoveryError>)
    ensures
        ({
            let ids = expected_ids_spec(eph_parent_info@, announcements.deep_view());
            match r {
                Ok(rec) => total_count(removals@, ids) == 1 && exists|k: int|
                    0 <= k < removals@.len() && rec@ == #[trigger] removals@[k].record@
                        && removal_count(asserted_announcement_ids(removals@[k].conditions@), ids)
                        == 1,
                Err(e) => e == RecoveryError::Ambiguous && total_count(removals@, ids) != 1,
            }
        }),
{
    let ids = expected_announcement_ids(eph_parent_info, announcements);
    let ghost idv: Seq<Seq<u8>> = ids.deep_view();
    proof {
        assert(removals@.skip(0) =~= removals@);
    }
    let mut found: Option<CoinRecord> = None;
    let ghost mut found_k: int = 0;
    let ghost mut partial: nat = 0nat;
    let mut k: usize = 0;
    while k < removals.len()
        invariant
            k <= removals@.len(),
            idv == ids.deep_view(),
            idv == expected_ids_spec(eph_parent_info@, announcements.deep_view()),
            total_count(removals@, idv) == partial + total_count(removals@.skip(k as int), idv),
            match found {
                Some(rec) => partial == 1 && 0 <= found_k < k && rec@ == removals@[found_k].record@
                    && removal_count(
                    asserted_announcement_ids(removals@[found_k].conditions@),
                    idv,
                ) == 1,
                None => partial == 0,
            },
        decreases removals@.len() - k,
    {
        proof {
            assert(removals@.skip(k as int)[0] == removals@[k as int]);
            assert(removals@.skip(k as int).skip(1) =~= removals@.skip(k as int + 1));
        }
        let removal = &removals[k];
        let asserts = collect_asserted_ids(&removal.conditions);
        let c = removal_match_count(&asserts, &ids);
        let ghost real_c: nat = removal_count(
            asserted_announcement_ids(removals@[k as int].conditions@),
            idv,
        );
        if c > 0 {
            if found.is_some() || c >= 2 {
                proof {
                    assert(total_count(removals@.skip(k as int), idv) >= real_c);
                }
                return Err(RecoveryError::Ambiguous);
            }
            found = Some(removal.record.duplicate());
            proof {
                found_k = k as int;
            }
        }
        proof {
            partial = partial + real_c;
        }
        k += 1;
    }
    match found {
        Some(rec) => Ok(rec),
        None => Err(RecoveryError::Ambiguous),
    }
}

/// The backward walk's phases, in the order they must be satisfied.
#[derive(Clone, Copy, PartialEq, Eq, Structural, Debug)]
pub enum LocatePhase {
    /// Waiting for the first memo that is not a 32-byte hint: the gap between
    /// the minting machinery and the collection data.
    Gap,
    /// The gap was seen; the next memo must be the metadata.
    Meta,
    /// The metadata was seen; the next memo must hold the collection-end tag.
    CollectionEnd,
    /// Scanning image coins for the collection-start tag.
    Scan,
}

/// The running state of one backward walk.
pub struct LocatorState {
    pub phase: LocatePhase,
}

/// What one backward step asks the caller to do next.
#[derive(Debug)]
pub enum LocateStep {
    /// The current coin marks the collection start; the walk is over.
    Found,
    /// Fetch the record of the coin's parent and step again.
    ToParent,
}

/// The view of an optional byte buffer.
pub open spec fn opt_bytes_view(o: Option<Vec<u8>>) -> Option<Seq<u8>> {
    match o {
        Some(v) => Some(v@),
        None => None,
    }
}

/// The walk's transition relation for a non-ephemeral spent coin: from the
/// phase and the memo to the next phase and whether the start was found.
pub open spec fn locate_next(phase: LocatePhase, memo: Option<Seq<u8>>) -> Result<
    (LocatePhase, bool),
    RecoveryError,
> {
    match memo {
        None => if phase is Gap {
            Ok((LocatePhase::Gap, false))
        } else {
            Err(RecoveryError::ProtocolMismatch)
        },
        Some(m) => match phase {
            LocatePhase::Gap => if m.len() != 32 {
                Ok((LocatePhase::Meta, false))
            } else {
                Ok((LocatePhase::Gap, false))
            },
            LocatePhase::Meta => if has_marker(m, meta_start_marker()) {
                Ok((LocatePhase::CollectionEnd, false))
            } else {
                Err(RecoveryError::ProtocolMismatch)
            },
            LocatePhase::CollectionEnd => if has_marker(m, collection_end_marker()) {
                Ok((LocatePhase::Scan, false))
            } else {
                Err(RecoveryError::ProtocolMismatch)
            },
            LocatePhase::Scan => if has_marker(m, collection_start_marker()) {
                Ok((LocatePhase::Scan, true))
            } else {
                Ok((LocatePhase::Scan, false))
            },
        },
    }
}

impl LocatorState {
    /// A fresh walk, before the gap was seen.
    pub fn new() -> (r: LocatorState)
        ensures
            r.phase == LocatePhase::Gap,
    {
        LocatorState { phase: LocatePhase::Gap }
    }

    /// Process one visited coin of the backward walk.
    ///
    /// An unspent coin ends the walk with `Truncated`. An ephemeral coin
    /// (spent at its confirmation height) is skipped without reading its
    /// memo. Any other coin advances the phase machine by `locate_next`.
    pub fn step(&mut self, record: &CoinRecord, memo_opt: Option<Vec<u8>>) -> (r: Result<
        LocateStep,
        RecoveryError,
    >)
        ensures
            match r {
                Err(e) => {
                    &&& *final(self) == *old(self)
                    &&& (if !record.spent() {
                        e == RecoveryError::Truncated
                    } else {
                        !record.ephemeral() && locate_next(
                            old(self).phase,
                            opt_bytes_view(memo_opt),
                        ) == Err::<(LocatePhase, bool), RecoveryError>(e)
                    })
                },
                Ok(step) => record.spent() && (if record.ephemeral() {
                    step is ToParent && *final(self) == *old(self)
                } else {
                    locate_next(old(self).phase, opt_bytes_view(memo_opt)) matches Ok((ph, found))
                        && final(self).phase == ph && (step is Found <==> found)
                }),
            },
    {
        if !record.is_spent() {
            return Err(RecoveryError::Truncated);
        }
        if record.is_ephemeral() {
            return Ok(LocateStep::ToParent);
        }
        let memo = match memo_opt {
            Some(m) => m,
            None => {
                if matches!(self.phase, LocatePhase::Gap) {
                    return Ok(LocateStep::ToParent);
                } else {
                    return Err(RecoveryError::ProtocolMismatch);
                }
            }
        };
        match self.phase {
            LocatePhase::Gap => {
                if memo.len() != 32 {
                    self.phase = LocatePhase::Meta;
                }
                Ok(LocateStep::ToParent)
            }
            LocatePhase::Meta => {
                if is_meta(memo.as_slice()) {
                    self.phase = LocatePhase::CollectionEnd;
                    Ok(LocateStep::ToParent)
                } else {
                    Err(RecoveryError::ProtocolMismatch)
                }
            }
            LocatePhase::CollectionEnd => {
                if is_collection_end(memo.as_slice()) {
                    self.phase = LocatePhase::Scan;
                    Ok(LocateStep::ToParent)
                } else {
                    Err(RecoveryError::ProtocolMismatch)
                }
            }
            LocatePhase::Scan => {
                if is_collection_start(memo.as_slice()) {
                    Ok(LocateStep::Found)
                } else {
                    Ok(LocateStep::ToParent)
                }
            }
        }
    }
}

} // verus!
