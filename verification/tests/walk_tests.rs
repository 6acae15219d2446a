use recovery_tools::chain::{check_child_record, check_parent_record, Coin, CoinRecord};
use recovery_tools::collection::{
    collection_step, default_image_filename, fallback_filename, image_output_name,
    require_collection_start, CollectionStep,
};
use recovery_tools::image::{ImageAssembly, ImageStep};
use recovery_tools::locator::{LocatePhase, LocateStep, LocatorState};
use recovery_tools::markers::{
    collection_end_bytes, collection_start_bytes, meta_start_bytes, png_end_bytes,
    png_start_bytes,
};
use recovery_tools::RecoveryError;

fn concat(parts: &[&[u8]]) -> Vec<u8> {
    let mut v = Vec::new();
    for p in parts {
        v.extend_from_slice(p);
    }
    v
}

fn record(coin: Coin, confirmed: u32, spent: u32) -> CoinRecord {
    CoinRecord { coin, confirmed_block_index: confirmed, spent_block_index: spent }
}

fn start_coin() -> Coin {
    Coin { parent_coin_info: vec![1u8; 32], puzzle_hash: vec![2u8; 32], amount: 1 }
}

/// A synthetic three-coin forward chain reassembles one image, in order, and
/// picks up the trailing filename.
#[test]
fn image_walk_over_three_coin_chain() {
    let png = png_start_bytes();
    let end = png_end_bytes();
    let memos = vec![
        concat(&[&png, b"AB"]),
        b"CD".to_vec(),
        concat(&[b"EF", &end, b"pic.png"]),
    ];

    let mut assembly = ImageAssembly::new();
    let mut rec = record(start_coin(), 10, 11);
    let mut result = None;
    for (i, memo) in memos.iter().enumerate() {
        match assembly.step(&rec, Some(memo.clone())).unwrap() {
            ImageStep::Done(img) => {
                assert_eq!(i, 2);
                result = Some(img);
            }
            ImageStep::Continue(child) => {
                assert!(i < 2);
                assert_eq!(child.parent_coin_info, rec.coin.coin_id());
                rec = record(child, 12 + i as u32, 13 + i as u32);
            }
        }
    }
    let img = result.unwrap();
    // The PNG signature and end chunk are part of the image bytes; the noise
    // outside them (here the filename tail) is trimmed.
    assert_eq!(img.data, concat(&[&png, b"AB", b"CD", b"EF", &end]));
    assert_eq!(img.filename, Some(String::from("pic.png")));
    assert_eq!(img.last_memo, memos[2]);
}

/// A chain whose first memo lacks the PNG signature is not an image start.
#[test]
fn image_walk_rejects_wrong_start() {
    let mut assembly = ImageAssembly::new();
    let rec = record(start_coin(), 10, 11);
    assert_eq!(
        assembly.step(&rec, Some(b"no signature".to_vec())).unwrap_err(),
        RecoveryError::ProtocolMismatch
    );
    assert_eq!(assembly.step(&rec, None).unwrap_err(), RecoveryError::ProtocolMismatch);
}

/// End-to-end over a mocked two-coin ledger: coin A spent with
/// `PNG_START+"X"`, its child B spent with `"Y"+PNG_END`, no filename; the
/// written file is named `<A's textual id>.png`.
#[test]
fn image_walk_two_coins_and_default_name() {
    let png = png_start_bytes();
    let end = png_end_bytes();
    let coin_a = start_coin();
    let rec_a = record(coin_a, 5, 6);

    let mut assembly = ImageAssembly::new();
    let child = match assembly.step(&rec_a, Some(concat(&[&png, b"X"]))).unwrap() {
        ImageStep::Continue(child) => child,
        ImageStep::Done(_) => panic!("chain should continue after the first memo"),
    };

    // The mocked ledger knows the child coin, spent.
    let rec_b = check_child_record(Some(record(child, 7, 8))).unwrap();
    let img = match assembly.step(&rec_b, Some(concat(&[b"Y", &end]))).unwrap() {
        ImageStep::Done(img) => img,
        ImageStep::Continue(_) => panic!("the end chunk should complete the image"),
    };
    assert_eq!(img.data, concat(&[&png, b"X", b"Y", &end]));
    assert_eq!(img.filename, None);

    let coin_text = "a1b2";
    let name = image_output_name(img.filename, 1, coin_text);
    assert_eq!(name, b"1-a1b2.png".to_vec());
    assert_eq!(default_image_filename(coin_text), b"a1b2.png".to_vec());
}

/// An unspent child truncates the chain; a missing one is not found.
#[test]
fn child_classification() {
    let rec = record(start_coin(), 5, 0);
    assert_eq!(check_child_record(Some(rec)).unwrap_err(), RecoveryError::Truncated);
    assert_eq!(check_child_record(None).unwrap_err(), RecoveryError::NotFound);
    assert_eq!(check_parent_record(None).unwrap_err(), RecoveryError::NotFound);
    let ok = check_child_record(Some(record(start_coin(), 5, 6))).unwrap();
    assert_eq!(ok.spent_block_index, 6);
}

/// The backward walk advances through its phases in order and ends on the
/// collection-start tag.
#[test]
fn backward_walk_phases_in_order() {
    let mut st = LocatorState::new();
    assert_eq!(st.phase, LocatePhase::Gap);
    let plain = record(start_coin(), 5, 9);

    // Ephemeral coins are skipped without phase checks.
    let eph = record(start_coin(), 7, 7);
    assert!(matches!(st.step(&eph, None).unwrap(), LocateStep::ToParent));
    assert_eq!(st.phase, LocatePhase::Gap);

    // Before the gap, a missing memo and 32-byte hints are skipped.
    assert!(matches!(st.step(&plain, None).unwrap(), LocateStep::ToParent));
    assert!(matches!(st.step(&plain, Some(vec![9u8; 32])).unwrap(), LocateStep::ToParent));
    assert_eq!(st.phase, LocatePhase::Gap);

    // A memo that is not exactly 32 bytes marks the gap.
    assert!(matches!(st.step(&plain, Some(vec![9u8; 31])).unwrap(), LocateStep::ToParent));
    assert_eq!(st.phase, LocatePhase::Meta);

    // Then the metadata memo, the collection end, and scanning.
    assert!(matches!(st.step(&plain, Some(meta_start_bytes())).unwrap(), LocateStep::ToParent));
    assert_eq!(st.phase, LocatePhase::CollectionEnd);
    assert!(
        matches!(st.step(&plain, Some(collection_end_bytes())).unwrap(), LocateStep::ToParent)
    );
    assert_eq!(st.phase, LocatePhase::Scan);

    // Image memos pass by; the collection-start tag ends the walk.
    let png_memo = concat(&[&png_start_bytes(), b"fragment"]);
    assert!(matches!(st.step(&plain, Some(png_memo)).unwrap(), LocateStep::ToParent));
    assert!(
        matches!(st.step(&plain, Some(collection_start_bytes())).unwrap(), LocateStep::Found)
    );
}

/// After the gap, a spend without a memo is fatal; a wrong memo at the
/// metadata or collection-end phase is fatal; an unspent coin truncates.
#[test]
fn backward_walk_failures() {
    let plain = record(start_coin(), 5, 9);

    let mut st = LocatorState::new();
    assert!(matches!(st.step(&plain, Some(vec![0u8; 4])).unwrap(), LocateStep::ToParent));
    assert_eq!(st.step(&plain, None).unwrap_err(), RecoveryError::ProtocolMismatch);
    assert_eq!(
        st.step(&plain, Some(b"not meta".to_vec())).unwrap_err(),
        RecoveryError::ProtocolMismatch
    );

    let mut st2 = LocatorState::new();
    let unspent = record(start_coin(), 5, 0);
    assert_eq!(st2.step(&unspent, None).unwrap_err(), RecoveryError::Truncated);
}

/// After one image, the collection walk stops on the collection-end tag and
/// otherwise continues at the deterministic child.
#[test]
fn collection_step_decides_from_last_memo() {
    let end = png_end_bytes();
    let tag = collection_end_bytes();

    let done = recovery_tools::image::ImageData {
        data: b"img".to_vec(),
        filename: None,
        last_coin: record(start_coin(), 5, 6),
        last_memo: concat(&[b"Y", &end, &tag]),
    };
    assert!(matches!(collection_step(&done), CollectionStep::Finished));

    let more = recovery_tools::image::ImageData {
        data: b"img".to_vec(),
        filename: None,
        last_coin: record(start_coin(), 5, 6),
        last_memo: concat(&[b"Y", &end]),
    };
    match collection_step(&more) {
        CollectionStep::NextImage(child) => {
            assert_eq!(child.parent_coin_info, start_coin().coin_id());
            assert_eq!(child.puzzle_hash, start_coin().puzzle_hash);
        }
        CollectionStep::Finished => panic!("no collection-end tag was present"),
    }
}

/// The collection walk's first memo must carry the collection-start tag.
#[test]
fn collection_start_is_required() {
    assert!(require_collection_start(&Some(collection_start_bytes())).is_ok());
    assert_eq!(
        require_collection_start(&Some(b"something else".to_vec())).unwrap_err(),
        RecoveryError::ProtocolMismatch
    );
    assert_eq!(require_collection_start(&None).unwrap_err(), RecoveryError::ProtocolMismatch);
}

/// The ordinal fallback name is `<counter>-<coin text>.png`.
#[test]
fn fallback_names() {
    assert_eq!(fallback_filename(1, "abcd"), b"1-abcd.png".to_vec());
    assert_eq!(fallback_filename(120, "ff"), b"120-ff.png".to_vec());
    assert_eq!(fallback_filename(0, ""), b"0-.png".to_vec());
    let named = image_output_name(Some(String::from("given.png")), 7, "cc");
    assert_eq!(named, b"given.png".to_vec());
}
