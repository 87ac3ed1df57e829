//! The execution provider: an upstream client, the verified blocks, and an optional source of
//! historical blocks.

use crate::blocks::{after_cache, should_use_historical_provider, GetBlock};
use crate::types::{BlockId, BlockRead};
use vstd::prelude::*;

verus! {

/// How often and how fast a request that the upstream turns away for its rate is sent again.
#[derive(Clone, Copy, Debug, PartialEq, Eq)]
pub struct RetryPolicy {
    pub max_rate_limit_retries: u32,
    pub initial_backoff_ms: u64,
    pub compute_units_per_second: u64,
}

/// The retry policy of the upstream client.
pub fn upstream_retry_policy() -> (res: RetryPolicy)
    ensures
        res.max_rate_limit_retries == 100,
        res.initial_backoff_ms == 50,
        res.compute_units_per_second == 300,
{
    RetryPolicy {
        max_rate_limit_retries: 100,
        initial_backoff_ms: 50,
        compute_units_per_second: 300,
    }
}

/// An execution provider on top of an upstream client `P`, verified blocks `B` and a source of
/// historical blocks `H`.
#[derive(Debug)]
pub struct RpcExecutionProvider<P, B, H> {
    pub provider: P,
    pub block_provider: B,
    pub historical_provider: Option<H>,
}

impl<P, B, H> RpcExecutionProvider<P, B, H> {
    /// A provider without historical blocks.
    pub fn new(provider: P, block_provider: B) -> (res: RpcExecutionProvider<P, B, ()>)
        ensures
            res.provider == provider,
            res.block_provider == block_provider,
            res.historical_provider is None,
    {
        RpcExecutionProvider { provider, block_provider, historical_provider: None }
    }

    /// A provider that falls back on a source of historical blocks.
    pub fn with_historical_provider(
        provider: P,
        block_provider: B,
        historical_provider: H,
    ) -> (res: Self)
        ensures
            res.provider == provider,
            res.block_provider == block_provider,
            res.historical_provider == Some(historical_provider),
    {
        RpcExecutionProvider {
            provider,
            block_provider,
            historical_provider: Some(historical_provider),
        }
    }

    /// Finds a block, given what the verified blocks answered for it.
    pub fn get_block<T, E>(
        &self,
        read: &BlockRead,
        cached: Result<Option<T>, E>,
    ) -> (res: GetBlock<T, E>)
        ensures
            res == after_cache(*read, self.historical_provider is Some, cached),
            cached matches Ok(Some(block)) ==> res == GetBlock::Done(Ok::<Option<T>, E>(Some(block))),
            cached matches Err(e) ==> res == GetBlock::Done(Err::<Option<T>, E>(e)),
            cached matches Ok(None) ==> {
                let tagged = read.block_id matches BlockId::Number(tag) && !(tag is Number);
                if self.historical_provider is Some && !tagged {
                    res == GetBlock::<T, E>::AskHistorical(*read)
                } else {
                    res == GetBlock::Done(Ok::<Option<T>, E>(None))
                }
            },
    {
        match cached {
            Ok(None) => if self.historical_provider.is_some() && should_use_historical_provider(
                &read.block_id,
            ) {
                GetBlock::AskHistorical(*read)
            } else {
                GetBlock::Done(Ok(None))
            },
            cached => GetBlock::Done(cached),
        }
    }
}

} // verus!
