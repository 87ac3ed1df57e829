use helios_rpc::blocks::{
    require_header, resolve_block_number, should_use_historical_provider, untrusted_block_detail,
    GetBlock, Resolution, TransactionDetail,
};
use helios_rpc::provider::{upstream_retry_policy, RpcExecutionProvider};
use helios_rpc::types::{
    Address, BlockHeader, BlockId, BlockNumberOrTag, BlockRead, ProviderError, B256,
};

type Provider<H> = RpcExecutionProvider<&'static str, u8, H>;

const TAGS: [BlockNumberOrTag; 5] = [
    BlockNumberOrTag::Latest,
    BlockNumberOrTag::Finalized,
    BlockNumberOrTag::Safe,
    BlockNumberOrTag::Earliest,
    BlockNumberOrTag::Pending,
];

#[test]
fn historical_blocks_are_numbers_and_hashes() {
    assert!(should_use_historical_provider(&BlockId::from_number(0)));
    assert!(should_use_historical_provider(&BlockId::from_hash(B256([1; 32]))));
    assert!(should_use_historical_provider(&BlockId::Hash {
        block_hash: B256([1; 32]),
        require_canonical: Some(true),
    }));
    for tag in TAGS {
        assert!(!should_use_historical_provider(&BlockId::Number(tag)), "{tag:?}");
    }
}

#[test]
fn cache_answers_first() {
    let provider: Provider<u32> = RpcExecutionProvider::with_historical_provider("rpc", 1, 2);
    let fixed = BlockRead { block_id: BlockId::from_number(5), full_tx: true };
    assert_eq!(
        provider.get_block(&fixed, Ok::<_, ()>(Some("block"))),
        GetBlock::Done(Ok(Some("block")))
    );
    assert_eq!(
        provider.get_block(&fixed, Err::<Option<u8>, _>("cache")),
        GetBlock::Done(Err("cache"))
    );
}

#[test]
fn historical_provider_is_asked_for_fixed_blocks_that_are_missed() {
    let provider: Provider<u32> = RpcExecutionProvider::with_historical_provider("rpc", 1, 2);
    let missed = Ok::<Option<u8>, ()>(None);
    for full_tx in [false, true] {
        for block_id in [BlockId::from_number(5), BlockId::from_hash(B256([3; 32]))] {
            let read = BlockRead { block_id, full_tx };
            assert_eq!(provider.get_block(&read, missed), GetBlock::AskHistorical(read));
        }
    }
    for tag in TAGS {
        let read = BlockRead { block_id: BlockId::Number(tag), full_tx: false };
        assert_eq!(provider.get_block(&read, missed), GetBlock::Done(Ok(None)));
    }
}

#[test]
fn without_historical_provider_a_miss_is_the_answer() {
    let provider = Provider::<()>::new("rpc", 1);
    let read = BlockRead { block_id: BlockId::from_number(5), full_tx: false };
    assert_eq!(
        provider.get_block(&read, Ok::<Option<u8>, ()>(None)),
        GetBlock::Done(Ok(None))
    );
}

#[test]
fn providers_hold_what_they_are_made_of() {
    let plain = Provider::<()>::new("rpc", 1);
    assert_eq!((plain.provider, plain.block_provider), ("rpc", 1));
    assert!(plain.historical_provider.is_none());
    let full: Provider<u32> = RpcExecutionProvider::with_historical_provider("rpc", 1, 2);
    assert_eq!((full.provider, full.block_provider, full.historical_provider), ("rpc", 1, Some(2)));
}

#[test]
fn retry_policy_of_the_upstream_client() {
    let policy = upstream_retry_policy();
    assert_eq!(policy.max_rate_limit_retries, 100);
    assert_eq!(policy.initial_backoff_ms, 50);
    assert_eq!(policy.compute_units_per_second, 300);
}

#[test]
fn range_bounds_resolve() {
    let latest = Resolution::OfBlock(BlockNumberOrTag::Latest);
    assert_eq!(resolve_block_number(None), latest);
    assert_eq!(resolve_block_number(Some(BlockNumberOrTag::Latest)), latest);
    assert_eq!(
        resolve_block_number(Some(BlockNumberOrTag::Finalized)),
        Resolution::OfBlock(BlockNumberOrTag::Finalized)
    );
    assert_eq!(
        resolve_block_number(Some(BlockNumberOrTag::Number(u64::MAX))),
        Resolution::Known(u64::MAX)
    );
    for tag in [BlockNumberOrTag::Safe, BlockNumberOrTag::Earliest, BlockNumberOrTag::Pending] {
        assert_eq!(resolve_block_number(Some(tag)), Resolution::NotFound, "{tag:?}");
    }
}

#[test]
fn headers_that_have_to_be_there() {
    let header = BlockHeader {
        hash: B256([1; 32]),
        number: 9,
        state_root: B256([2; 32]),
        beneficiary: Address([3; 20]),
    };
    assert_eq!(require_header(Ok::<_, ()>(Some(header))), Ok(header));
    assert_eq!(require_header(Ok::<_, ()>(None)), Err(ProviderError::BlockNotFound));
    assert_eq!(require_header(Err("down")), Err(ProviderError::Upstream("down")));
}

#[test]
fn untrusted_blocks_bring_what_is_asked_for() {
    assert_eq!(untrusted_block_detail(true), TransactionDetail::Full);
    assert_eq!(untrusted_block_detail(false), TransactionDetail::Hashes);
}

#[test]
fn words_and_addresses_compare_by_their_bytes() {
    assert_eq!(B256::zero(), B256([0; 32]));
    assert_eq!(Address::zero(), Address([0; 20]));
    let mut last = [0u8; 32];
    last[31] = 1;
    assert_ne!(B256(last), B256::zero());
    let mut first = [0u8; 20];
    first[0] = 1;
    assert_ne!(Address(first), Address::zero());
}
