//! Spend conditions: executing a coin's puzzle against its solution yields a
//! list of conditions, and the first memo of the first coin-creation
//! condition carries this protocol's payload fragment.

use vstd::prelude::*;
use crate::RecoveryError;

verus! {

/// The spend conditions this tool reads, as plain values. Everything the
/// execution engine emits beyond these three shapes is `Other`.
#[derive(Clone, Debug, PartialEq, Eq)]
pub enum SpendCondition {
    /// Creation of a new coin, with its ordered memo buffers.
    CreateCoin { puzzle_hash: Vec<u8>, amount: u64, memos: Vec<Vec<u8>> },
    /// A committed announcement message.
    CreateCoinAnnouncement { message: Vec<u8> },
    /// An asserted announcement id.
    AssertCoinAnnouncement { announcement_id: Vec<u8> },
    /// Any other condition; its content plays no role here.
    Other,
}

#[verifier::external_type_specification]
#[verifier::external_body]
pub struct ExAllocator(clvmr::Allocator);

#[verifier::external_type_specification]
#[verifier::external_body]
pub struct ExNodePtr(clvmr::NodePtr);

#[verifier::external_type_specification]
#[verifier::external_body]
#[verifier::reject_recursive_types(T)]
pub struct ExCondition<T>(chia_sdk_types::Condition<T>);

#[verifier::external_type_specification]
#[verifier::external_body]
#[verifier::reject_recursive_types(T)]
pub struct ExMemos<T>(chia_puzzle_types::Memos<T>);

/// Relies on clvmr::serde::node_from_bytes, chia_sdk_types::run_puzzle and
/// clvm-traits: deserialize the two programs, execute the puzzle against the
/// solution, and parse the output as a condition list. Failure of any stage
/// is an execution failure.
#[verifier::external_body]
fn run_puzzle_conditions(solution: &[u8], puzzle: &[u8]) -> (r: Result<
    (clvmr::Allocator, Vec<chia_sdk_types::Condition>),
    RecoveryError,
>)
    ensures
        r matches Err(e) ==> e == RecoveryError::EvalError,
{
    let mut allocator = clvmr::Allocator::new();
    let p = clvmr::serde::node_from_bytes(&mut allocator, puzzle)
        .map_err(|_| RecoveryError::EvalError)?;
    let s = clvmr::serde::node_from_bytes(&mut allocator, solution)
        .map_err(|_| RecoveryError::EvalError)?;
    let out = chia_sdk_types::run_puzzle(&mut allocator, p, s)
        .map_err(|_| RecoveryError::EvalError)?;
    let conds: Vec<chia_sdk_types::Condition> =
        clvm_traits::FromClvm::from_clvm(&allocator, out).map_err(|_| RecoveryError::EvalError)?;
    Ok((allocator, conds))
}

/// Relies on clvm-traits: read a memo node as a list of byte buffers; a node
/// of any other shape counts as no memos.
#[verifier::external_body]
fn memos_model(allocator: &clvmr::Allocator, m: chia_puzzle_types::Memos) -> Vec<Vec<u8>> {
    match m {
        chia_puzzle_types::Memos::Some(node) => {
            let parsed: Result<Vec<chia_protocol::Bytes>, _> =
                clvm_traits::FromClvm::from_clvm(allocator, node);
            parsed.map(|v| v.into_iter().map(|b| b.as_ref().to_vec()).collect()).unwrap_or_default()
        }
        chia_puzzle_types::Memos::None => Vec::new(),
    }
}

/// Relies on chia-sdk-types' condition accessors: map one executed condition
/// to this library's model, field for field.
#[verifier::external_body]
fn condition_model(allocator: &clvmr::Allocator, c: &chia_sdk_types::Condition) -> SpendCondition {
    if let Some(cc) = c.clone().into_create_coin() {
        let (puzzle_hash, memos) = (cc.puzzle_hash.as_ref().to_vec(), memos_model(allocator, cc.memos));
        return SpendCondition::CreateCoin { puzzle_hash, amount: cc.amount, memos };
    }
    if let Some(ca) = c.clone().into_create_coin_announcement() {
        return SpendCondition::CreateCoinAnnouncement { message: ca.message.as_ref().to_vec() };
    }
    if let Some(aa) = c.clone().into_assert_coin_announcement() {
        return SpendCondition::AssertCoinAnnouncement { announcement_id: aa.announcement_id.as_ref().to_vec() };
    }
    SpendCondition::Other
}

/// Execute a puzzle against its solution, both as serialized program bytes,
/// and return the emitted conditions in the engine's order. Fails with
/// `EvalError` on malformed programs or failing execution.
pub fn conditions_for_puzz_solution(solution_program: &[u8], reveal_program: &[u8]) -> (r: Result<
    Vec<SpendCondition>,
    RecoveryError,
>)
    ensures
        r matches Err(e) ==> e == RecoveryError::EvalError,
{
    let (allocator, raw) = match run_puzzle_conditions(solution_program, reveal_program) {
        Ok(p) => p,
        Err(e) => {
            return Err(e);
        }
    };
    let mut out: Vec<SpendCondition> = Vec::new();
    let mut i: usize = 0;
    while i < raw.len()
        invariant
            i <= raw@.len(),
        decreases raw@.len() - i,
    {
        let c = condition_model(&allocator, &raw[i]);
        out.push(c);
        i += 1;
    }
    Ok(out)
}

/// The first memo of the first coin-creation condition, if that condition
/// exists and its memo list is non-empty. A coin creation without memos
/// yields nothing, as does a list without any coin creation.
pub open spec fn first_create_coin_memo(conds: Seq<SpendCondition>) -> Option<Seq<u8>>
    decreases conds.len(),
{
    if conds.len() == 0 {
        None
    } else {
        match conds[0] {
            SpendCondition::CreateCoin { puzzle_hash, amount, memos } => if memos@.len() > 0 {
                Some(memos@[0]@)
            } else {
                None
            },
            _ => first_create_coin_memo(conds.skip(1)),
        }
    }
}

/// Extract the protocol memo from a condition list: the first memo entry of
/// the first coin creation, if any.
pub fn parse_memos_from_conditions(conditions: &Vec<SpendCondition>) -> (r: Option<Vec<u8>>)
    ensures
        match r {
            Some(m) => first_create_coin_memo(conditions@) == Some(m@),
            None => first_create_coin_memo(conditions@) is None,
        },
{
    proof {
        assert(conditions@.skip(0) =~= conditions@);
    }
    let mut i: usize = 0;
    while i < conditions.len()
        invariant
            i <= conditions@.len(),
            first_create_coin_memo(conditions@) == first_create_coin_memo(
                conditions@.skip(i as int),
            ),
            forall|k: int| 0 <= k < i ==> !(conditions@[k] is CreateCoin),
        decreases conditions@.len() - i,
    {
        proof {
            assert(conditions@.skip(i as int)[0] == conditions@[i as int]);
            assert(conditions@.skip(i as int).skip(1) =~= conditions@.skip(i as int + 1));
        }
        match &conditions[i] {
            SpendCondition::CreateCoin { puzzle_hash, amount, memos } => {
                if memos.len() > 0 {
                    let m = crate::chain::clone_bytes(&memos[0]);
                    return Some(m);
                } else {
                    return None;
                }
            }
            _ => {}
        }
        i += 1;
    }
    None
}

/// Execute a puzzle and extract the protocol memo from what it emitted.
/// Fails with `EvalError` exactly when execution does.
pub fn parse_memos(solution_program: &[u8], reveal_program: &[u8]) -> (r: Result<
    Option<Vec<u8>>,
    RecoveryError,
>)
    ensures
        r matches Err(e) ==> e == RecoveryError::EvalError,
{
    match conditions_for_puzz_solution(solution_program, reveal_program) {
        Ok(conds) => Ok(parse_memos_from_conditions(&conds)),
        Err(e) => Err(e),
    }
}

} // verus!
