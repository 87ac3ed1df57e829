use helios_rpc::log_query::{get_logs, Filter, FilterBlockOption, GetLogs, MatchFilter, ReadLogs};
use helios_rpc::logs::{Log, ReceiptLogs};
use helios_rpc::types::{
    Address, BlockHeader, BlockId, BlockNumberOrTag, BlockRead, ProviderError, B256,
};

type Step = GetLogs<&'static str, &'static str>;

fn header(number: u64) -> BlockHeader {
    BlockHeader {
        hash: B256([1; 32]),
        number,
        state_root: B256([2; 32]),
        beneficiary: Address([3; 20]),
    }
}

fn header_of(tag: BlockNumberOrTag) -> BlockRead {
    BlockRead { block_id: BlockId::Number(tag), full_tx: false }
}

fn range(from: Option<BlockNumberOrTag>, to: Option<BlockNumberOrTag>) -> Filter<&'static str> {
    Filter {
        block_option: FilterBlockOption::Range { from_block: from, to_block: to },
        rest: "topics",
    }
}

fn numbers(from: u64, to: u64) -> Step {
    Step::ReadLogs(ReadLogs {
        filter: range(Some(BlockNumberOrTag::Number(from)), Some(BlockNumberOrTag::Number(to))),
    })
}

fn log() -> Log {
    Log {
        address: Address([4; 20]),
        topics: vec![],
        data: vec![5],
        block_number: Some(6),
        transaction_hash: Some(B256([7; 32])),
        log_index: Some(8),
    }
}

#[test]
fn numbers_are_sent_as_they_are() {
    let filter = range(Some(BlockNumberOrTag::Number(3)), Some(BlockNumberOrTag::Number(9)));
    assert_eq!(get_logs(filter), numbers(3, 9));
    // A range that is upside down is sent too.
    let filter = range(Some(BlockNumberOrTag::Number(9)), Some(BlockNumberOrTag::Number(3)));
    assert_eq!(get_logs(filter), numbers(9, 3));
}

#[test]
fn tags_are_resolved_before_the_filter_is_sent() {
    let filter = range(Some(BlockNumberOrTag::Finalized), None);
    let step = match get_logs(filter) {
        Step::ReadFrom(step) => step,
        other => panic!("{other:?}"),
    };
    assert_eq!(step.read, header_of(BlockNumberOrTag::Finalized));
    let step = match step.next(Ok(Some(header(50)))) {
        Step::ReadTo(step) => step,
        other => panic!("{other:?}"),
    };
    assert_eq!(step.read, header_of(BlockNumberOrTag::Latest));
    assert_eq!(step.next(Ok(Some(header(60)))), numbers(50, 60));

    let filter = range(None, Some(BlockNumberOrTag::Number(70)));
    match get_logs::<_, &str>(filter) {
        Step::ReadFrom(step) => {
            assert_eq!(step.read, header_of(BlockNumberOrTag::Latest));
            assert_eq!(step.next(Ok(Some(header(65)))), numbers(65, 70));
        }
        other => panic!("{other:?}"),
    }
}

#[test]
fn block_hash_is_sent_as_it_is() {
    let filter = || Filter {
        block_option: FilterBlockOption::AtBlockHash(B256([9; 32])),
        rest: "topics",
    };
    assert_eq!(get_logs::<_, &str>(filter()), Step::ReadLogs(ReadLogs { filter: filter() }));
}

#[test]
fn bounds_that_do_not_resolve_end_the_query() {
    let not_found = || Step::Done(Err(ProviderError::BlockNotFound));
    for tag in [BlockNumberOrTag::Safe, BlockNumberOrTag::Earliest, BlockNumberOrTag::Pending] {
        assert_eq!(get_logs(range(Some(tag), None)), not_found());
        assert_eq!(get_logs(range(Some(BlockNumberOrTag::Number(1)), Some(tag))), not_found());
    }
    let from = || match get_logs::<_, &str>(range(None, Some(BlockNumberOrTag::Pending))) {
        Step::ReadFrom(step) => step,
        other => panic!("{other:?}"),
    };
    assert_eq!(from().next(Ok(None)), not_found());
    assert_eq!(from().next(Err("down")), Step::Done(Err(ProviderError::Upstream("down"))));
    assert_eq!(from().next(Ok(Some(header(1)))), not_found());
    let to = || match get_logs::<_, &str>(range(Some(BlockNumberOrTag::Number(1)), None)) {
        Step::ReadTo(step) => step,
        other => panic!("{other:?}"),
    };
    assert_eq!(to().next(Ok(None)), not_found());
    assert_eq!(to().next(Err("down")), Step::Done(Err(ProviderError::Upstream("down"))));
}

#[test]
fn logs_come_out_verified_and_matched() {
    let filter = || range(Some(BlockNumberOrTag::Number(1)), Some(BlockNumberOrTag::Number(2)));
    let read = || match get_logs::<_, &str>(filter()) {
        Step::ReadLogs(step) => step,
        other => panic!("{other:?}"),
    };
    assert_eq!(read().next(Err("down")), Step::Done(Err(ProviderError::Upstream("down"))));
    let verify = || match read().next::<&str>(Ok(vec![log()])) {
        Step::VerifyLogs(step) => step,
        other => panic!("{other:?}"),
    };
    assert_eq!(verify().logs, vec![log()]);
    assert_eq!(verify().read, header_of(BlockNumberOrTag::Latest));
    assert_eq!(verify().next(Ok(None)), Step::Done(Err(ProviderError::BlockNotFound)));
    assert_eq!(verify().next(Err("cache")), Step::Done(Err(ProviderError::Upstream("cache"))));
    let receipts = || match verify().next::<&str>(Ok(Some(header(6)))) {
        Step::ReadReceipts(step) => step,
        other => panic!("{other:?}"),
    };
    assert_eq!(receipts().numbers, vec![6]);
    assert_eq!(receipts().logs, vec![log()]);
    let listing = |data: u8| ReceiptLogs { logs: vec![Log { data: vec![data], ..log() }] };
    let failed = ProviderError::<&str>::ReceiptFetchFailed;
    assert_eq!(
        receipts().next(Err(failed)),
        Some(Step::Done(Err(ProviderError::ReceiptFetchFailed)))
    );
    assert_eq!(
        receipts().next(Ok(vec![Some(vec![listing(9)])])),
        Some(Step::Done(Err(ProviderError::MissingLog { tx_hash: B256([7; 32]), log_index: 8 })))
    );
    // Without receipts for the transaction there is no answer.
    assert_eq!(receipts().next::<&str>(Ok(vec![None])), None);
    let matching = || match receipts().next::<&str>(Ok(vec![Some(vec![listing(5)])])) {
        Some(Step::MatchFilter(step)) => step,
        other => panic!("{other:?}"),
    };
    assert_eq!(matching(), MatchFilter { filter: filter(), logs: vec![log()] });
    assert_eq!(matching().next(Err("filter")), Err(ProviderError::Upstream("filter")));
    assert_eq!(matching().next::<&str>(Ok(())), Ok(vec![log()]));
}

#[test]
fn receipts_of_blocks_newer_than_the_latest_are_not_read() {
    let filter = range(Some(BlockNumberOrTag::Number(1)), Some(BlockNumberOrTag::Number(9)));
    let read = match get_logs::<_, &str>(filter) {
        Step::ReadLogs(step) => step,
        other => panic!("{other:?}"),
    };
    match read.next::<&str>(Ok(vec![log()])) {
        Step::VerifyLogs(step) => match step.next::<&str>(Ok(Some(header(5)))) {
            Step::ReadReceipts(step) => assert!(step.numbers.is_empty()),
            other => panic!("{other:?}"),
        },
        other => panic!("{other:?}"),
    }
}
