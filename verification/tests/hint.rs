use helios_rpc::hint::{
    get_execution_hint, AccessListItem, AccountMap, GetExecutionHint, HintQuery, ReadAccounts,
};
use helios_rpc::types::{Address, BlockHeader, BlockId, BlockRead, ProviderError, B256};

type Step = GetExecutionHint<u32, &'static str>;

fn address(byte: u8) -> Address {
    Address([byte; 20])
}

fn item(byte: u8, keys: Vec<u8>) -> AccessListItem {
    AccessListItem {
        address: address(byte),
        storage_keys: keys.into_iter().map(|key| B256([key; 32])).collect(),
    }
}

fn query(from: Option<u8>, to: Option<u8>, batch_size: usize) -> HintQuery {
    HintQuery {
        from: from.map(address),
        to: to.map(address),
        block_id: BlockId::from_number(7),
        batch_size,
    }
}

fn header() -> BlockHeader {
    BlockHeader {
        hash: B256([1; 32]),
        number: 7,
        state_root: B256([2; 32]),
        beneficiary: address(0xbe),
    }
}

fn read_accounts(query: HintQuery, list: Vec<AccessListItem>) -> ReadAccounts<u32> {
    let step = get_execution_hint(query);
    assert_eq!(
        step.read,
        BlockRead { block_id: BlockId::from_number(7), full_tx: false }
    );
    let step = match step.next::<u32, &str>(Ok(Some(header()))) {
        Step::ReadAccessList(step) => step,
        other => panic!("{other:?}"),
    };
    assert_eq!(step.query.block_id, BlockId::from_number(7));
    match step.next::<u32, &str>(Ok(list)) {
        Step::ReadAccounts(step) => step,
        other => panic!("{other:?}"),
    }
}

/// Reads all accounts, each as its place in the list, and counts the batches.
fn collect(mut step: ReadAccounts<u32>) -> (AccountMap<u32>, usize) {
    let mut batches = 0;
    loop {
        batches += 1;
        let replies = (step.next..step.batch_end()).map(|i| Ok(i as u32)).collect();
        match step.next::<&str>(replies) {
            Step::ReadAccounts(next) => step = next,
            Step::Done(outcome) => return (outcome.unwrap(), batches),
            other => panic!("{other:?}"),
        }
    }
}

#[test]
fn sender_receiver_and_producer_are_added() {
    let step = read_accounts(query(Some(1), Some(2), 10), vec![item(5, vec![9, 8])]);
    assert_eq!(
        step.list,
        vec![item(5, vec![9, 8]), item(1, vec![]), item(2, vec![]), item(0xbe, vec![])]
    );
    assert_eq!(step.next, 0);
}

#[test]
fn listed_addresses_are_not_added_again() {
    let list = || vec![item(0xbe, vec![1]), item(2, vec![2]), item(1, vec![3])];
    assert_eq!(read_accounts(query(Some(1), Some(2), 10), list()).list, list());
    // One address in several roles is added once.
    assert_eq!(
        read_accounts(query(Some(0xbe), Some(0xbe), 10), vec![]).list,
        vec![item(0xbe, vec![])]
    );
    // A list that names an address twice is left as it is.
    let twice = || vec![item(0xbe, vec![1]), item(0xbe, vec![2]), item(3, vec![])];
    assert_eq!(read_accounts(query(Some(3), Some(3), 10), twice()).list, twice());
}

#[test]
fn missing_sender_and_receiver_are_the_zero_address() {
    let step = read_accounts(query(None, None, 10), vec![]);
    assert_eq!(step.list, vec![item(0, vec![]), item(0xbe, vec![])]);
}

#[test]
fn accounts_are_read_with_code_at_the_block() {
    let step = read_accounts(query(Some(1), Some(2), 10), vec![item(5, vec![9, 8])]);
    let first = step.query_for(0);
    assert_eq!(first.address, address(5));
    assert_eq!(first.slots, vec![B256([9; 32]), B256([8; 32])]);
    assert!(first.with_code);
    assert_eq!(first.block_id, BlockId::from_number(7));
    assert_eq!(step.query_for(3).address, address(0xbe));
    assert!(step.query_for(3).slots.is_empty());
}

#[test]
fn batch_size_does_not_show_in_the_outcome() {
    let list = || vec![item(5, vec![]), item(6, vec![]), item(7, vec![]), item(8, vec![])];
    for (batch_size, expected_batches) in
        [(1, 7), (2, 4), (3, 3), (6, 2), (7, 1), (8, 1), (usize::MAX, 1)]
    {
        let step = read_accounts(query(Some(1), Some(2), batch_size), list());
        let (accounts, batches) = collect(step);
        assert_eq!(batches, expected_batches);
        for (place, byte) in [5, 6, 7, 8, 1, 2, 0xbe].into_iter().enumerate() {
            assert_eq!(accounts.get(&address(byte)), Some(&(place as u32)));
        }
        assert_eq!(accounts.get(&address(9)), None);
        assert_eq!(accounts.into_entries().len(), 7);
    }
}

#[test]
fn last_account_of_an_address_counts() {
    let list = vec![item(5, vec![1]), item(0xbe, vec![]), item(5, vec![2])];
    let (accounts, _) = collect(read_accounts(query(Some(5), Some(5), 2), list));
    assert_eq!(accounts.get(&address(5)), Some(&2));
    assert_eq!(accounts.into_entries().len(), 2);
}

#[test]
fn first_error_of_a_batch_ends_the_query() {
    let step = read_accounts(query(Some(1), Some(2), 3), vec![]);
    let replies =
        vec![Ok(1), Err(ProviderError::BlockNotFound), Err(ProviderError::Upstream("later"))];
    match step.next(replies) {
        Step::Done(Err(e)) => assert_eq!(e, ProviderError::BlockNotFound),
        other => panic!("{other:?}"),
    }
}

#[test]
fn hint_errors() {
    match get_execution_hint(query(None, None, 1)).next::<u32, &str>(Ok(None)) {
        Step::Done(Err(e)) => assert_eq!(e, ProviderError::BlockNotFound),
        other => panic!("{other:?}"),
    }
    match get_execution_hint(query(None, None, 1)).next::<u32, &str>(Err("cache")) {
        Step::Done(Err(e)) => assert_eq!(e, ProviderError::Upstream("cache")),
        other => panic!("{other:?}"),
    }
    match get_execution_hint(query(None, None, 1)).next::<u32, &str>(Ok(Some(header()))) {
        Step::ReadAccessList(step) => match step.next::<u32, &str>(Err("down")) {
            Step::Done(Err(e)) => assert_eq!(e, ProviderError::Upstream("down")),
            other => panic!("{other:?}"),
        },
        other => panic!("{other:?}"),
    }
}

#[test]
fn account_map_keeps_one_account_per_address() {
    let mut map = AccountMap::new();
    assert_eq!(map.get(&address(1)), None::<&u8>);
    map.insert(address(1), 10u8);
    map.insert(address(2), 20);
    map.insert(address(1), 11);
    assert_eq!(map.get(&address(1)), Some(&11));
    assert_eq!(map.get(&address(2)), Some(&20));
    let mut entries = map.into_entries();
    entries.sort_by_key(|entry| entry.1);
    assert_eq!(entries, vec![(address(1), 11), (address(2), 20)]);
}
