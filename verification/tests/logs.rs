use helios_rpc::logs::{blocks_to_verify, verify_logs, Log, ReceiptLogs};
use helios_rpc::types::{Address, BlockHeader, ProviderError, B256};

fn word(byte: u8) -> B256 {
    B256([byte; 32])
}

fn header(number: u64) -> BlockHeader {
    BlockHeader { hash: word(1), number, state_root: word(2), beneficiary: Address([3; 20]) }
}

fn log(tx: u8, index: u64, data: &[u8]) -> Log {
    Log {
        address: Address([0xaa; 20]),
        topics: vec![word(0x70), word(0x71)],
        data: data.to_vec(),
        block_number: Some(5),
        transaction_hash: Some(word(tx)),
        log_index: Some(index),
    }
}

fn receipt(logs: Vec<Log>) -> ReceiptLogs {
    ReceiptLogs { logs }
}

type Replies = Result<Vec<Option<Vec<ReceiptLogs>>>, ProviderError<&'static str>>;

/// Receipts of two blocks and one that is not known.
fn replies() -> Replies {
    Ok(vec![
        Some(vec![receipt(vec![log(1, 0, b"one"), log(1, 1, b"two")]), receipt(vec![])]),
        None,
        Some(vec![receipt(vec![log(2, 0, b"three")])]),
    ])
}

fn missing(tx: u8, index: u64) -> Option<Result<(), ProviderError<&'static str>>> {
    Some(Err(ProviderError::MissingLog { tx_hash: word(tx), log_index: index }))
}

#[test]
fn blocks_of_logs_are_named_once() {
    let at = |number: Option<u64>| Log { block_number: number, ..log(1, 0, b"") };
    let logs = vec![at(Some(5)), at(Some(7)), at(None), at(Some(5)), at(Some(9)), at(Some(8))];
    let mut numbers = blocks_to_verify(&logs, Ok::<_, ()>(Some(header(8)))).unwrap();
    numbers.sort();
    assert_eq!(numbers, vec![5, 7, 8]);
    assert_eq!(blocks_to_verify(&vec![], Ok::<_, ()>(Some(header(8)))).unwrap(), Vec::<u64>::new());
}

#[test]
fn latest_block_has_to_be_known() {
    assert_eq!(
        blocks_to_verify(&vec![], Ok::<_, ()>(None)),
        Err(ProviderError::BlockNotFound)
    );
    assert_eq!(
        blocks_to_verify(&vec![log(1, 0, b"")], Err("down")),
        Err(ProviderError::Upstream("down"))
    );
}

#[test]
fn listed_logs_pass() {
    let logs = vec![log(2, 0, b"three"), log(1, 1, b"two"), log(1, 0, b"one")];
    assert_eq!(verify_logs(&logs, replies()), Some(Ok(())));
    assert_eq!(verify_logs(&vec![], replies()), Some(Ok(())));
    assert_eq!(verify_logs::<()>(&vec![], Ok(vec![])), Some(Ok(())));
}

#[test]
fn only_what_a_log_says_is_compared() {
    let moved = Log { block_number: None, log_index: None, ..log(1, 77, b"one") };
    assert_eq!(verify_logs(&vec![moved], replies()), Some(Ok(())));
}

#[test]
fn unlisted_log_is_reported() {
    assert_eq!(verify_logs(&vec![log(1, 3, b"four")], replies()), missing(1, 3));
    // A log of another transaction does not count.
    assert_eq!(verify_logs(&vec![log(2, 4, b"one")], replies()), missing(2, 4));
    // Each part of what a log says counts.
    let address = Log { address: Address([0xab; 20]), ..log(1, 5, b"one") };
    assert_eq!(verify_logs(&vec![address], replies()), missing(1, 5));
    let topics = Log { topics: vec![word(0x71), word(0x70)], ..log(1, 6, b"one") };
    assert_eq!(verify_logs(&vec![topics], replies()), missing(1, 6));
    let fewer = Log { topics: vec![word(0x70)], ..log(1, 7, b"one") };
    assert_eq!(verify_logs(&vec![fewer], replies()), missing(1, 7));
    let error: ProviderError<()> =
        ProviderError::MissingLog { tx_hash: word(1), log_index: 0 };
    assert_eq!(error.message(), Some("missing log"));
}

#[test]
fn first_unlisted_log_counts() {
    let logs = vec![log(1, 0, b"one"), log(2, 8, b"x"), log(1, 9, b"y"), log(9, 0, b"unknown")];
    assert_eq!(verify_logs(&logs, replies()), missing(2, 8));
}

#[test]
fn later_receipt_of_a_transaction_counts() {
    let twice = || {
        Ok::<_, ProviderError<&'static str>>(vec![
            Some(vec![receipt(vec![log(1, 0, b"old")])]),
            Some(vec![receipt(vec![log(1, 0, b"new")])]),
        ])
    };
    assert_eq!(verify_logs(&vec![log(1, 0, b"new")], twice()), Some(Ok(())));
    assert_eq!(verify_logs(&vec![log(1, 0, b"old")], twice()), missing(1, 0));
}

#[test]
fn receipts_belong_to_the_transaction_of_their_first_log() {
    let odd = || Ok::<_, ProviderError<&'static str>>(vec![Some(vec![receipt(vec![
        log(1, 0, b"one"),
        log(2, 1, b"two"),
    ])])]);
    assert_eq!(verify_logs(&vec![log(1, 0, b"two")], odd()), Some(Ok(())));
    assert_eq!(verify_logs(&vec![log(2, 1, b"two")], odd()), None);
}

#[test]
fn logs_that_cannot_be_checked_get_no_answer() {
    // A transaction without receipts, a log that names none, one that cannot be reported.
    assert_eq!(verify_logs(&vec![log(9, 0, b"one")], replies()), None);
    let nowhere = Log { transaction_hash: None, ..log(1, 0, b"one") };
    assert_eq!(verify_logs(&vec![nowhere], replies()), None);
    let unplaced = Log { log_index: None, ..log(1, 0, b"four") };
    assert_eq!(verify_logs(&vec![unplaced], replies()), None);
    // A receipt whose first log names no transaction.
    let unnamed = receipt(vec![Log { transaction_hash: None, ..log(1, 0, b"one") }]);
    let replies: Replies = Ok(vec![Some(vec![unnamed])]);
    assert_eq!(verify_logs(&vec![], replies), None);
}

#[test]
fn errors_of_reading_receipts_are_handed_on() {
    let failed = || Err(ProviderError::<&'static str>::ReceiptFetchFailed);
    let logs = vec![log(9, 0, b"")];
    assert_eq!(
        verify_logs(&logs, failed()),
        Some(Err(ProviderError::ReceiptFetchFailed))
    );
}

#[test]
fn order_of_the_blocks_does_not_show() {
    let reversed = || replies().map(|mut all| {
        all.reverse();
        all
    });
    for (tx, data) in [(1, "one"), (1, "two"), (2, "three"), (2, "one"), (9, "one")] {
        let logs = vec![log(tx, 0, data.as_bytes())];
        assert_eq!(verify_logs(&logs, replies()), verify_logs(&logs, reversed()));
    }
}
