use recovery_tools::chain::{Coin, CoinRecord};
use recovery_tools::conditions::SpendCondition;
use recovery_tools::locator::{create_coin_announcements, find_entry_coin, RemovalSpend};
use recovery_tools::RecoveryError;

fn coin(parent: u8, puzzle: u8, amount: u64) -> Coin {
    Coin {
        parent_coin_info: vec![parent; 32],
        puzzle_hash: vec![puzzle; 32],
        amount,
    }
}

fn record(c: Coin, confirmed: u32, spent: u32) -> CoinRecord {
    CoinRecord { coin: c, confirmed_block_index: confirmed, spent_block_index: spent }
}

/// The recomputed child id agrees with the ledger's own deterministic hash
/// of (parent id, puzzle hash, amount).
#[test]
fn child_id_matches_ledger_hash() {
    let c = coin(3, 4, 12345);
    let child = c.expected_child();
    assert_eq!(child.parent_coin_info, c.coin_id());
    assert_eq!(child.puzzle_hash, c.puzzle_hash);
    assert_eq!(child.amount, c.amount);

    // Cross-check against the ledger protocol crate directly.
    let ledger_parent = chia_protocol::Coin::new(
        chia_protocol::Bytes32::try_from(c.parent_coin_info.as_slice()).unwrap(),
        chia_protocol::Bytes32::try_from(c.puzzle_hash.as_slice()).unwrap(),
        c.amount,
    );
    let ledger_child = chia_protocol::Coin::new(
        ledger_parent.coin_id(),
        chia_protocol::Bytes32::try_from(c.puzzle_hash.as_slice()).unwrap(),
        c.amount,
    );
    assert_eq!(child.coin_id(), ledger_child.coin_id().as_ref().to_vec());
}

fn expected_digest(parent: &[u8], message: &[u8]) -> Vec<u8> {
    let mut hasher = chia_sha2::Sha256::new();
    hasher.update(parent);
    hasher.update(message);
    hasher.finalize().to_vec()
}

fn removal_with_asserts(c: Coin, asserts: Vec<Vec<u8>>) -> RemovalSpend {
    let mut conditions = vec![SpendCondition::Other];
    for id in asserts {
        conditions.push(SpendCondition::AssertCoinAnnouncement { announcement_id: id });
    }
    RemovalSpend { record: record(c, 9, 9), conditions }
}

/// With exactly one matching removal among many, that one is selected, in
/// whatever order the removals are given.
#[test]
fn entry_coin_unique_match_selected_in_any_order() {
    let parent = vec![0xAAu8; 32];
    let message = b"announce!".to_vec();
    let announcements = vec![message.clone()];
    let the_id = expected_digest(&parent, &message);

    let matching = || removal_with_asserts(coin(1, 1, 1), vec![the_id.clone()]);
    let other1 = || removal_with_asserts(coin(2, 2, 2), vec![vec![0u8; 32]]);
    let other2 = || removal_with_asserts(coin(3, 3, 3), vec![]);

    let removals = vec![other1(), matching(), other2()];
    let found = find_entry_coin(&parent, &announcements, &removals).unwrap();
    assert_eq!(found.coin.parent_coin_info, vec![1u8; 32]);

    let reordered = vec![other2(), matching(), other1()];
    let found2 = find_entry_coin(&parent, &announcements, &reordered).unwrap();
    assert_eq!(found2.coin.parent_coin_info, vec![1u8; 32]);
}

/// Zero matches and two matches both fail with `Ambiguous`.
#[test]
fn entry_coin_zero_or_two_matches_is_ambiguous() {
    let parent = vec![0xAAu8; 32];
    let message = b"announce!".to_vec();
    let announcements = vec![message.clone()];
    let the_id = expected_digest(&parent, &message);

    let none = vec![removal_with_asserts(coin(2, 2, 2), vec![vec![0u8; 32]])];
    assert_eq!(
        find_entry_coin(&parent, &announcements, &none).unwrap_err(),
        RecoveryError::Ambiguous
    );

    let two = vec![
        removal_with_asserts(coin(1, 1, 1), vec![the_id.clone()]),
        removal_with_asserts(coin(2, 2, 2), vec![the_id.clone()]),
    ];
    assert_eq!(
        find_entry_coin(&parent, &announcements, &two).unwrap_err(),
        RecoveryError::Ambiguous
    );

    // One removal asserting the id twice is also more than one match.
    let twice = vec![removal_with_asserts(coin(1, 1, 1), vec![the_id.clone(), the_id])];
    assert_eq!(
        find_entry_coin(&parent, &announcements, &twice).unwrap_err(),
        RecoveryError::Ambiguous
    );
}

/// The committed announcement messages are collected in order; other
/// conditions are passed over.
#[test]
fn announcement_messages_collected_in_order() {
    let conds = vec![
        SpendCondition::Other,
        SpendCondition::CreateCoinAnnouncement { message: b"one".to_vec() },
        SpendCondition::AssertCoinAnnouncement { announcement_id: vec![0u8; 32] },
        SpendCondition::CreateCoinAnnouncement { message: b"two".to_vec() },
    ];
    let msgs = create_coin_announcements(&conds);
    assert_eq!(msgs, vec![b"one".to_vec(), b"two".to_vec()]);
}

/// One removal that satisfies two different announcements is two matches,
/// not one.
#[test]
fn entry_coin_matching_two_announcements_is_ambiguous() {
    let parent = vec![0xAAu8; 32];
    let first = b"first message".to_vec();
    let second = b"second message".to_vec();
    let announcements = vec![first.clone(), second.clone()];

    let both = removal_with_asserts(
        coin(1, 1, 1),
        vec![expected_digest(&parent, &first), expected_digest(&parent, &second)],
    );
    assert_eq!(
        find_entry_coin(&parent, &announcements, &vec![both]).unwrap_err(),
        RecoveryError::Ambiguous
    );
}
