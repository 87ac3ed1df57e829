use helios_rpc::transactions::{
    get_transaction, get_transaction_by_location, BlockTransactions, GetTransaction, Transaction,
};
use helios_rpc::types::{BlockId, BlockRead, ProviderError, B256};

fn word(byte: u8) -> B256 {
    B256([byte; 32])
}

fn tx(hash: u8, body: &'static str) -> Transaction<&'static str> {
    Transaction { hash: word(hash), block_hash: Some(word(0xb)), body }
}

fn full(transactions: Vec<Transaction<&'static str>>) -> BlockTransactions<&'static str> {
    BlockTransactions::Full(transactions)
}

#[test]
fn transaction_is_taken_from_its_verified_block() {
    assert_eq!(get_transaction(word(2)).hash, word(2));
    let claimed = tx(2, "from the upstream");
    let step = match get_transaction(word(2)).next(Ok::<_, &str>(Some(claimed))) {
        GetTransaction::ReadBlock(step) => step,
        other => panic!("{other:?}"),
    };
    assert_eq!(
        step.read,
        BlockRead { block_id: BlockId::from_hash(word(0xb)), full_tx: true }
    );
    let block = full(vec![tx(1, "a"), tx(2, "from the block"), tx(2, "again"), tx(3, "c")]);
    assert_eq!(step.next(Ok::<_, &str>(Some(block))), Ok(Some(tx(2, "from the block"))));
}

#[test]
fn transaction_that_its_block_lacks_is_not_found() {
    let step = || match get_transaction(word(2)).next(Ok::<_, &str>(Some(tx(2, "claimed")))) {
        GetTransaction::ReadBlock(step) => step,
        other => panic!("{other:?}"),
    };
    assert_eq!(step().next(Ok::<_, &str>(Some(full(vec![tx(1, "a")])))), Ok(None));
    assert_eq!(step().next(Ok::<_, &str>(Some(full(vec![])))), Ok(None));
    // A block that brings only hashes has no transactions to find.
    let hashes: BlockTransactions<&str> = BlockTransactions::Hashes(vec![word(2)]);
    assert_eq!(step().next(Ok::<_, &str>(Some(hashes))), Ok(None));
    let uncle: BlockTransactions<&str> = BlockTransactions::Uncle;
    assert_eq!(step().next(Ok::<_, &str>(Some(uncle))), Ok(None));
}

#[test]
fn transaction_errors() {
    assert_eq!(
        get_transaction(word(1)).next::<&str, &str>(Ok(None)),
        GetTransaction::Done(Ok(None))
    );
    assert_eq!(
        get_transaction(word(1)).next::<&str, &str>(Err("down")),
        GetTransaction::Done(Err(ProviderError::Upstream("down")))
    );
    let pending = Transaction { hash: word(1), block_hash: None, body: "pending" };
    assert_eq!(
        get_transaction(word(1)).next::<&str, &str>(Ok(Some(pending))),
        GetTransaction::Done(Err(ProviderError::BlockNotFound))
    );
    let step = || match get_transaction(word(2)).next(Ok::<_, &str>(Some(tx(2, "claimed")))) {
        GetTransaction::ReadBlock(step) => step,
        other => panic!("{other:?}"),
    };
    assert_eq!(step().next::<&str, &str>(Ok(None)), Err(ProviderError::BlockNotFound));
    assert_eq!(step().next::<&str, &str>(Err("cache")), Err(ProviderError::Upstream("cache")));
}

#[test]
fn transaction_by_location() {
    let at = |index: u64| get_transaction_by_location(BlockId::from_number(4), index);
    assert_eq!(
        at(1).read,
        BlockRead { block_id: BlockId::from_number(4), full_tx: true }
    );
    let block = || Ok::<_, &str>(Some(full(vec![tx(1, "a"), tx(2, "b"), tx(3, "c")])));
    assert_eq!(at(0).next(block()), Ok(Some(tx(1, "a"))));
    assert_eq!(at(2).next(block()), Ok(Some(tx(3, "c"))));
    assert_eq!(at(3).next(block()), Ok(None));
    assert_eq!(at(u64::MAX).next(block()), Ok(None));
    assert_eq!(
        at(0).next::<&str, &str>(Ok(None)),
        Err(ProviderError::BlockNotFound)
    );
    assert_eq!(
        at(0).next::<&str, &str>(Err("down")),
        Err(ProviderError::Upstream("down"))
    );
}
