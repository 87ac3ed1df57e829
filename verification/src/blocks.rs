//! Finding blocks: which source answers for a block, and which number a tag stands for.

use crate::types::{BlockHeader, BlockId, BlockNumberOrTag, BlockRead, ProviderError, B256};
use vstd::prelude::*;

verus! {

/// Whether a reference names one block for good, by number or by hash, and not by a tag that moves.
pub open spec fn names_fixed_block(block_id: BlockId) -> bool {
    match block_id {
        BlockId::Hash { .. } => true,
        BlockId::Number(BlockNumberOrTag::Number(_)) => true,
        BlockId::Number(_) => false,
    }
}

/// Whether a historical provider is asked for a block: only for numbers and hashes, not for tags.
pub fn should_use_historical_provider(block_id: &BlockId) -> (res: bool)
    ensures
        res == names_fixed_block(*block_id),
        *block_id is Hash ==> res,
        *block_id matches BlockId::Number(tag) ==> res == (tag is Number),
{
    match block_id {
        BlockId::Hash { .. } => true,
        BlockId::Number(BlockNumberOrTag::Number(_)) => true,
        BlockId::Number(_) => false,
    }
}

/// Where finding a block stands once the cache has answered.
#[derive(Debug, PartialEq, Eq)]
pub enum GetBlock<T, E> {
    /// The historical provider is asked for the same block, in the same way; its answer is the
    /// outcome. The block is not put in the cache.
    AskHistorical(BlockRead),
    Done(Result<Option<T>, E>),
}

/// What follows the answer of the cache. A block or an error from the cache is the outcome; a miss is
/// the outcome too, unless there is a historical provider and the reference names a fixed block.
pub open spec fn after_cache<T, E>(
    read: BlockRead,
    has_historical: bool,
    cached: Result<Option<T>, E>,
) -> GetBlock<T, E> {
    if cached is Ok && cached->Ok_0 is None && has_historical && names_fixed_block(read.block_id) {
        GetBlock::AskHistorical(read)
    } else {
        GetBlock::Done(cached)
    }
}

/// What is found in the end, given the answers of the cache and of the historical provider.
pub open spec fn block_found<T, E>(
    read: BlockRead,
    has_historical: bool,
    cached: Result<Option<T>, E>,
    historical: Result<Option<T>, E>,
) -> Result<Option<T>, E> {
    match after_cache(read, has_historical, cached) {
        GetBlock::AskHistorical(_) => historical,
        GetBlock::Done(outcome) => outcome,
    }
}

/// How a resolution of a range bound goes on.
#[derive(Clone, Copy, Debug, PartialEq, Eq)]
pub enum Resolution {
    /// The number is that of this block.
    OfBlock(BlockNumberOrTag),
    /// The number is known.
    Known(u64),
    /// No number can be given for the tag.
    NotFound,
}

/// The number that a range bound stands for: a missing bound is the latest block, the latest and the
/// finalized block are looked up, and the other tags stand for none.
pub open spec fn resolution(block: Option<BlockNumberOrTag>) -> Resolution {
    match block {
        None => Resolution::OfBlock(BlockNumberOrTag::Latest),
        Some(BlockNumberOrTag::Latest) => Resolution::OfBlock(BlockNumberOrTag::Latest),
        Some(BlockNumberOrTag::Finalized) => Resolution::OfBlock(BlockNumberOrTag::Finalized),
        Some(BlockNumberOrTag::Number(number)) => Resolution::Known(number),
        Some(_) => Resolution::NotFound,
    }
}

/// Starts to resolve a range bound to a block number.
pub fn resolve_block_number(block: Option<BlockNumberOrTag>) -> (res: Resolution)
    ensures
        res == resolution(block),
        block matches Some(BlockNumberOrTag::Number(number)) ==> res == Resolution::Known(number),
        block is None || block == Some(BlockNumberOrTag::Latest) ==> res == Resolution::OfBlock(
            BlockNumberOrTag::Latest,
        ),
        block == Some(BlockNumberOrTag::Finalized) ==> res == Resolution::OfBlock(
            BlockNumberOrTag::Finalized,
        ),
        block == Some(BlockNumberOrTag::Safe) || block == Some(BlockNumberOrTag::Earliest) || block
            == Some(BlockNumberOrTag::Pending) ==> res is NotFound,
{
    match block {
        Some(BlockNumberOrTag::Latest) | None => Resolution::OfBlock(BlockNumberOrTag::Latest),
        Some(BlockNumberOrTag::Finalized) => Resolution::OfBlock(BlockNumberOrTag::Finalized),
        Some(BlockNumberOrTag::Number(number)) => Resolution::Known(number),
        _ => Resolution::NotFound,
    }
}

/// The number that a range bound stands for, given the header of the block that it may ask for.
pub open spec fn resolved_number<E>(
    block: Option<BlockNumberOrTag>,
    header: Result<Option<BlockHeader>, E>,
) -> Result<u64, ProviderError<E>> {
    match resolution(block) {
        Resolution::OfBlock(_) => match required_header(header) {
            Ok(header) => Ok(header.number),
            Err(e) => Err(e),
        },
        Resolution::Known(number) => Ok(number),
        Resolution::NotFound => Err(ProviderError::BlockNotFound),
    }
}

/// The header of a block that has to be there.
pub open spec fn required_header<E>(block: Result<Option<BlockHeader>, E>) -> Result<
    BlockHeader,
    ProviderError<E>,
> {
    match block {
        Err(e) => Err(ProviderError::Upstream(e)),
        Ok(None) => Err(ProviderError::BlockNotFound),
        Ok(Some(header)) => Ok(header),
    }
}

/// Insists on the header of a block.
pub fn require_header<E>(block: Result<Option<BlockHeader>, E>) -> (res: Result<
    BlockHeader,
    ProviderError<E>,
>)
    ensures
        res == required_header(block),
        block matches Ok(Some(header)) ==> res == Ok::<BlockHeader, ProviderError<E>>(header),
        block matches Ok(None) ==> res == Err::<BlockHeader, ProviderError<E>>(
            ProviderError::BlockNotFound,
        ),
        block matches Err(e) ==> res == Err::<BlockHeader, ProviderError<E>>(
            ProviderError::Upstream(e),
        ),
{
    match block {
        Err(e) => Err(ProviderError::Upstream(e)),
        Ok(None) => Err(ProviderError::BlockNotFound),
        Ok(Some(header)) => Ok(header),
    }
}

/// What a block read from the upstream unverified brings of its transactions.
#[derive(Clone, Copy, Debug, PartialEq, Eq)]
pub enum TransactionDetail {
    Full,
    Hashes,
}

/// How a block is asked for when it is read from the upstream unverified.
pub fn untrusted_block_detail(full_tx: bool) -> (res: TransactionDetail)
    ensures
        res is Full <==> full_tx,
{
    if full_tx {
        TransactionDetail::Full
    } else {
        TransactionDetail::Hashes
    }
}

/// A block in the cache is found whatever the historical provider would answer.
pub proof fn cached_block_wins<T, E>(
    read: BlockRead,
    has_historical: bool,
    block: T,
    historical: Result<Option<T>, E>,
)
    ensures
        block_found(read, has_historical, Ok(Some(block)), historical) == Ok::<Option<T>, E>(
            Some(block),
        ),
{
}

/// A tag is answered by the cache alone, and so is every block without a historical provider.
pub proof fn tags_are_never_historical<T, E>(
    read: BlockRead,
    has_historical: bool,
    cached: Result<Option<T>, E>,
    historical: Result<Option<T>, E>,
)
    requires
        !names_fixed_block(read.block_id) || !has_historical,
    ensures
        block_found(read, has_historical, cached, historical) == cached,
{
}

/// A fixed block that the cache misses is found exactly where the historical provider finds it.
pub proof fn missed_block_is_historical<T, E>(
    read: BlockRead,
    historical: Result<Option<T>, E>,
)
    requires
        names_fixed_block(read.block_id),
    ensures
        block_found(read, true, Ok(None), historical) == historical,
{
}

/// A reference names a fixed block exactly where it is a hash or a number: no tag does.
pub proof fn fixed_blocks_are_hashes_and_numbers(hash: B256, canonical: Option<bool>, number: u64)
    ensures
        names_fixed_block(BlockId::Hash { block_hash: hash, require_canonical: canonical }),
        names_fixed_block(BlockId::Number(BlockNumberOrTag::Number(number))),
        !names_fixed_block(BlockId::Number(BlockNumberOrTag::Latest)),
        !names_fixed_block(BlockId::Number(BlockNumberOrTag::Finalized)),
        !names_fixed_block(BlockId::Number(BlockNumberOrTag::Safe)),
        !names_fixed_block(BlockId::Number(BlockNumberOrTag::Earliest)),
        !names_fixed_block(BlockId::Number(BlockNumberOrTag::Pending)),
{
}

/// An error of the cache is the outcome, whatever the historical provider would answer.
pub proof fn error_of_the_cache_is_final<T, E>(
    read: BlockRead,
    has_historical: bool,
    error: E,
    historical: Result<Option<T>, E>,
)
    ensures
        block_found(read, has_historical, Err(error), historical) == Err::<Option<T>, E>(error),
{
}

/// The historical provider is asked exactly where there is one, the cache has missed the block, and
/// the reference is a hash or a number; and it is asked for the block that was asked for, in the same
/// way.
pub proof fn historical_provider_is_asked_for_the_same_block<T, E>(
    read: BlockRead,
    has_historical: bool,
    cached: Result<Option<T>, E>,
)
    ensures
        after_cache(read, has_historical, cached) matches GetBlock::AskHistorical(asked)
            ==> asked.block_id == read.block_id && asked.full_tx == read.full_tx,
        after_cache(read, has_historical, cached) is AskHistorical <==> {
            &&& has_historical
            &&& cached matches Ok(None)
            &&& read.block_id matches BlockId::Number(tag) ==> tag is Number
        },
        after_cache(read, has_historical, cached) matches GetBlock::Done(outcome) ==> outcome
            == cached,
{
}

/// A number resolves to itself, whatever block is at hand.
pub proof fn number_resolves_to_itself<E>(number: u64, header: Result<Option<BlockHeader>, E>)
    ensures
        resolution(Some(BlockNumberOrTag::Number(number))) == Resolution::Known(number),
        resolved_number(Some(BlockNumberOrTag::Number(number)), header) == Ok::<
            u64,
            ProviderError<E>,
        >(number),
{
}

/// A missing bound and the tag of the latest block resolve alike, to the number of the latest block;
/// the tag of the finalized block to that of the finalized block; and no other tag resolves.
pub proof fn tags_resolve_to_their_block<E>(header: BlockHeader, error: E)
    ensures
        forall|block: Option<BlockNumberOrTag>|
            block is None || block == Some(BlockNumberOrTag::Latest) || block == Some(
                BlockNumberOrTag::Finalized,
            ) ==> {
                &&& #[trigger] resolution(block) == Resolution::OfBlock(
                    if block == Some(BlockNumberOrTag::Finalized) {
                        BlockNumberOrTag::Finalized
                    } else {
                        BlockNumberOrTag::Latest
                    },
                )
                &&& resolved_number::<E>(block, Ok(Some(header))) == Ok::<u64, ProviderError<E>>(
                    header.number,
                )
                &&& resolved_number::<E>(block, Ok(None)) == Err::<u64, ProviderError<E>>(
                    ProviderError::BlockNotFound,
                )
                &&& resolved_number::<E>(block, Err(error)) == Err::<u64, ProviderError<E>>(
                    ProviderError::Upstream(error),
                )
            },
        forall|block: Option<BlockNumberOrTag>|
            block == Some(BlockNumberOrTag::Safe) || block == Some(BlockNumberOrTag::Earliest)
                || block == Some(BlockNumberOrTag::Pending) ==> {
                &&& #[trigger] resolution(block) is NotFound
                &&& forall|reply: Result<Option<BlockHeader>, E>| #[trigger]
                    resolved_number::<E>(block, reply) == Err::<u64, ProviderError<E>>(
                        ProviderError::BlockNotFound,
                    )
            },
{
}

/// A header that has to be there is the one that was read; a block that is not known and an error are
/// told apart, and the error is handed on.
pub proof fn required_header_is_the_one_read<E>(header: BlockHeader, error: E)
    ensures
        required_header::<E>(Ok(Some(header))) == Ok::<BlockHeader, ProviderError<E>>(header),
        required_header::<E>(Ok(None)) == Err::<BlockHeader, ProviderError<E>>(
            ProviderError::BlockNotFound,
        ),
        required_header::<E>(Err(error)) == Err::<BlockHeader, ProviderError<E>>(
            ProviderError::Upstream(error),
        ),
{
}

} // verus!
