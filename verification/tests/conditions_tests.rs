use clvmr::{Allocator, NodePtr};
use recovery_tools::conditions::{
    conditions_for_puzz_solution, parse_memos, parse_memos_from_conditions, SpendCondition,
};
use recovery_tools::RecoveryError;

fn atom(a: &mut Allocator, bytes: &[u8]) -> NodePtr {
    a.new_atom(bytes).unwrap()
}

fn list(a: &mut Allocator, items: &[NodePtr]) -> NodePtr {
    let mut node = a.nil();
    for item in items.iter().rev() {
        node = a.new_pair(*item, node).unwrap();
    }
    node
}

/// Serialize a condition list that the trivial puzzle `1` returns verbatim.
fn solution_with_conditions(build: impl Fn(&mut Allocator) -> Vec<NodePtr>) -> Vec<u8> {
    let mut a = Allocator::new();
    let conds = build(&mut a);
    let node = list(&mut a, &conds);
    clvmr::serde::node_to_bytes(&a, node).unwrap()
}

fn create_coin(a: &mut Allocator, puzzle_hash: &[u8], amount: u64, memos: &[&[u8]]) -> NodePtr {
    let opcode = atom(a, &[51]);
    let ph = atom(a, puzzle_hash);
    let amt = a.new_number(amount.into()).unwrap();
    let memo_atoms: Vec<NodePtr> = memos.iter().map(|m| atom(a, m)).collect();
    let memo_list = list(a, &memo_atoms);
    list(a, &[opcode, ph, amt, memo_list])
}

/// The trivial puzzle `1` echoes its solution: the engine returns exactly
/// the conditions the solution encodes, and the first coin creation's first
/// memo is the protocol memo.
#[test]
fn engine_extracts_conditions_and_memo() {
    let puzzle = vec![0x01u8];
    let solution = solution_with_conditions(|a| {
        let announce = {
            let op = atom(a, &[60]);
            let msg = atom(a, b"hello");
            list(a, &[op, msg])
        };
        let assert_ann = {
            let op = atom(a, &[61]);
            let id = atom(a, &[9u8; 32]);
            list(a, &[op, id])
        };
        let cc = create_coin(a, &[7u8; 32], 1, &[b"memo-bytes", b"second"]);
        vec![announce, cc, assert_ann]
    });

    let conds = conditions_for_puzz_solution(&solution, &puzzle).unwrap();
    assert_eq!(conds.len(), 3);
    assert_eq!(conds[0], SpendCondition::CreateCoinAnnouncement { message: b"hello".to_vec() });
    assert_eq!(
        conds[1],
        SpendCondition::CreateCoin {
            puzzle_hash: vec![7u8; 32],
            amount: 1,
            memos: vec![b"memo-bytes".to_vec(), b"second".to_vec()],
        }
    );
    assert_eq!(
        conds[2],
        SpendCondition::AssertCoinAnnouncement { announcement_id: vec![9u8; 32] }
    );

    assert_eq!(parse_memos_from_conditions(&conds), Some(b"memo-bytes".to_vec()));
    assert_eq!(parse_memos(&solution, &puzzle).unwrap(), Some(b"memo-bytes".to_vec()));
}

/// Malformed program bytes fail with `EvalError`.
#[test]
fn engine_rejects_malformed_programs() {
    assert_eq!(
        conditions_for_puzz_solution(&[0xFFu8, 0x00], &[0x01]).unwrap_err(),
        RecoveryError::EvalError
    );
}

/// The first coin creation decides the memo: with an empty memo list there
/// is no memo, even if a later creation has one.
#[test]
fn first_create_coin_with_empty_memos_means_no_memo() {
    let conds = vec![
        SpendCondition::Other,
        SpendCondition::CreateCoin { puzzle_hash: vec![1u8; 32], amount: 5, memos: vec![] },
        SpendCondition::CreateCoin {
            puzzle_hash: vec![2u8; 32],
            amount: 6,
            memos: vec![b"later".to_vec()],
        },
    ];
    assert_eq!(parse_memos_from_conditions(&conds), None);
}

/// Without any coin creation there is no memo.
#[test]
fn no_create_coin_means_no_memo() {
    let conds = vec![
        SpendCondition::Other,
        SpendCondition::CreateCoinAnnouncement { message: b"x".to_vec() },
    ];
    assert_eq!(parse_memos_from_conditions(&conds), None);
}
