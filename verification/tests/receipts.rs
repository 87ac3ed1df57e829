use helios_rpc::receipts::{
    get_block_receipts, get_receipt, CheckSiblings, GetBlockReceipts, GetReceipt, ReadReceiptBlock,
    ReadSiblings, Receipt,
};
use helios_rpc::types::{Address, BlockHeader, BlockId, BlockRead, ProviderError, B256};

type Step = GetReceipt<&'static str, &'static str>;
type BlockStep = GetBlockReceipts<&'static str, &'static str>;

fn word(byte: u8) -> B256 {
    B256([byte; 32])
}

fn header() -> BlockHeader {
    BlockHeader { hash: word(0xb), number: 4, state_root: word(0xc), beneficiary: Address([0; 20]) }
}

fn receipt(hash: u8, body: &'static str) -> Receipt<&'static str> {
    Receipt { transaction_hash: word(hash), block_hash: Some(word(0xb)), body }
}

fn read_block() -> ReadReceiptBlock {
    match get_receipt(word(2)).next(Ok(Some(receipt(2, "claimed")))) {
        Step::ReadBlock(step) => step,
        other => panic!("{other:?}"),
    }
}

fn read_receipts() -> ReadSiblings {
    match read_block().next(Ok(Some(header()))) {
        Step::ReadReceipts(step) => step,
        other => panic!("{other:?}"),
    }
}

fn check_receipts(receipts: Vec<Receipt<&'static str>>) -> CheckSiblings<&'static str> {
    match read_receipts().next(Ok(Some(receipts))) {
        Step::CheckReceipts(step) => step,
        other => panic!("{other:?}"),
    }
}

#[test]
fn receipt_is_taken_from_the_checked_receipts_of_its_block() {
    assert_eq!(get_receipt(word(2)).hash, word(2));
    assert_eq!(
        read_block().read,
        BlockRead { block_id: BlockId::from_hash(word(0xb)), full_tx: false }
    );
    assert_eq!(read_receipts().at, BlockId::from_hash(word(0xb)));
    let step = check_receipts(vec![receipt(1, "a"), receipt(2, "checked"), receipt(2, "again")]);
    assert_eq!(step.header, header());
    assert_eq!(step.next::<&str>(Ok(())), Ok(Some(receipt(2, "checked"))));
}

#[test]
fn receipt_that_its_block_lacks_is_not_found() {
    assert_eq!(check_receipts(vec![receipt(1, "a")]).next::<&str>(Ok(())), Ok(None));
    assert_eq!(check_receipts(vec![]).next::<&str>(Ok(())), Ok(None));
}

#[test]
fn receipt_errors() {
    let done = |e| Step::Done(Err(e));
    assert_eq!(get_receipt(word(2)).next(Ok(None)), done(ProviderError::ReceiptNotFound));
    assert_eq!(get_receipt(word(2)).next(Err("down")), done(ProviderError::Upstream("down")));
    let pending = Receipt { transaction_hash: word(2), block_hash: None, body: "pending" };
    assert_eq!(get_receipt(word(2)).next(Ok(Some(pending))), done(ProviderError::BlockNotFound));
    assert_eq!(read_block().next(Ok(None)), done(ProviderError::BlockNotFound));
    assert_eq!(read_block().next(Err("cache")), done(ProviderError::Upstream("cache")));
    assert_eq!(read_receipts().next(Ok(None)), done(ProviderError::BlockNotFound));
    assert_eq!(read_receipts().next(Err("down")), done(ProviderError::Upstream("down")));
    assert_eq!(
        check_receipts(vec![receipt(2, "forged")]).next(Err("root")),
        Err(ProviderError::Upstream("root"))
    );
    let not_found: ProviderError<()> = ProviderError::ReceiptNotFound;
    assert_eq!(not_found.message(), Some("receipt not found"));
}

#[test]
fn block_receipts_come_out_checked() {
    assert_eq!(
        get_block_receipts(BlockId::from_number(4)).read,
        BlockRead { block_id: BlockId::from_number(4), full_tx: false }
    );
    let step = match get_block_receipts(BlockId::from_number(4)).next(Ok(Some(header()))) {
        BlockStep::ReadReceipts(step) => step,
        other => panic!("{other:?}"),
    };
    assert_eq!(step.at, BlockId::from_hash(header().hash));
    let all = || vec![receipt(1, "a"), receipt(2, "b")];
    let step = match step.next(Ok(Some(all()))) {
        BlockStep::CheckReceipts(step) => step,
        other => panic!("{other:?}"),
    };
    assert_eq!(step.header, header());
    assert_eq!(step.next::<&str>(Ok(())), Ok(Some(all())));
}

#[test]
fn block_receipts_errors() {
    let done = |e| BlockStep::Done(Err(e));
    assert_eq!(get_block_receipts(BlockId::from_number(4)).next(Ok(None)), BlockStep::Done(Ok(None)));
    assert_eq!(get_block_receipts(BlockId::from_number(4)).next(Err("cache")), done(ProviderError::Upstream("cache")));
    let step = || match get_block_receipts(BlockId::from_number(4)).next(Ok(Some(header()))) {
        BlockStep::ReadReceipts(step) => step,
        other => panic!("{other:?}"),
    };
    assert_eq!(step().next(Ok(None)), done(ProviderError::ReceiptFetchFailed));
    assert_eq!(step().next(Err("down")), done(ProviderError::Upstream("down")));
    match step().next(Ok(Some(vec![receipt(1, "forged")]))) {
        BlockStep::CheckReceipts(step) => {
            assert_eq!(step.next(Err("root")), Err(ProviderError::Upstream("root")))
        }
        other => panic!("{other:?}"),
    }
    let failed: ProviderError<()> = ProviderError::ReceiptFetchFailed;
    assert_eq!(failed.message(), Some("receipt fetch failed"));
}
