//! Querying logs by a filter.

use crate::blocks::{
    require_header, required_header, resolution, resolve_block_number, resolved_number, Resolution,
};
use crate::logs::{
    all_receipts, block_needed, blocks_to_verify, checkable, listed_forms, log_outcome,
    names_needed_blocks, needed_blocks_are_those_of_the_logs, stands_in_receipt, verified_log_is_in_a_needed_block, verify_logs, Log,
    ReceiptLogs,
};
use crate::types::{BlockHeader, BlockId, BlockNumberOrTag, BlockRead, ProviderError, B256};
use vstd::prelude::*;

verus! {

/// The blocks that a filter covers.
#[derive(Clone, Copy, Debug, PartialEq, Eq)]
pub enum FilterBlockOption {
    Range { from_block: Option<BlockNumberOrTag>, to_block: Option<BlockNumberOrTag> },
    AtBlockHash(B256),
}

/// A filter: the blocks that it covers, and everything else unread.
#[derive(Debug, PartialEq, Eq)]
pub struct Filter<F> {
    pub block_option: FilterBlockOption,
    pub rest: F,
}

/// The block is read whose number is the lower bound.
#[derive(Debug, PartialEq, Eq)]
pub struct ReadFrom<F> {
    pub read: BlockRead,
    pub to_block: Option<BlockNumberOrTag>,
    pub rest: F,
}

/// The block is read whose number is the upper bound.
#[derive(Debug, PartialEq, Eq)]
pub struct ReadTo<F> {
    pub read: BlockRead,
    pub from: u64,
    pub rest: F,
}

/// The logs that match the filter are read from the upstream.
#[derive(Debug, PartialEq, Eq)]
pub struct ReadLogs<F> {
    pub filter: Filter<F>,
}

/// The logs are verified against proven receipts: first the latest block is read.
#[derive(Debug, PartialEq, Eq)]
pub struct VerifyLogs<F> {
    pub read: BlockRead,
    pub filter: Filter<F>,
    pub logs: Vec<Log>,
}

/// The proven receipts of the blocks `numbers` are read, block by block.
#[derive(Debug, PartialEq, Eq)]
pub struct ReadReceipts<F> {
    pub filter: Filter<F>,
    pub logs: Vec<Log>,
    pub numbers: Vec<u64>,
}

/// The logs are held against the filter.
#[derive(Debug, PartialEq, Eq)]
pub struct MatchFilter<F> {
    pub filter: Filter<F>,
    pub logs: Vec<Log>,
}

/// Where a log query stands: what to do next, or the outcome.
#[derive(Debug, PartialEq, Eq)]
pub enum GetLogs<F, E> {
    ReadFrom(ReadFrom<F>),
    ReadTo(ReadTo<F>),
    ReadLogs(ReadLogs<F>),
    VerifyLogs(VerifyLogs<F>),
    ReadReceipts(ReadReceipts<F>),
    MatchFilter(MatchFilter<F>),
    Done(Result<Vec<Log>, ProviderError<E>>),
}

/// The read of the block that a tag stands for.
pub open spec fn read_of_tag(tag: BlockNumberOrTag) -> BlockRead {
    BlockRead::of_header(BlockId::Number(tag))
}

fn tag_read(tag: BlockNumberOrTag) -> (res: BlockRead)
    ensures
        res == read_of_tag(tag),
{
    BlockRead::header(BlockId::Number(tag))
}

/// A range between two block numbers.
pub open spec fn numbered_range(from: u64, to: u64) -> FilterBlockOption {
    FilterBlockOption::Range {
        from_block: Some(BlockNumberOrTag::Number(from)),
        to_block: Some(BlockNumberOrTag::Number(to)),
    }
}

/// What follows both bounds: the logs are read between the two numbers.
pub open spec fn with_bounds<F, E>(from: u64, to: u64, rest: F) -> GetLogs<F, E> {
    GetLogs::ReadLogs(ReadLogs { filter: Filter { block_option: numbered_range(from, to), rest } })
}

/// What follows the lower bound: the upper bound is resolved.
pub open spec fn with_lower_bound<F, E>(
    from: u64,
    to_block: Option<BlockNumberOrTag>,
    rest: F,
) -> GetLogs<F, E> {
    match resolution(to_block) {
        Resolution::OfBlock(tag) => GetLogs::ReadTo(ReadTo { read: read_of_tag(tag), from, rest }),
        Resolution::Known(to) => with_bounds(from, to, rest),
        Resolution::NotFound => GetLogs::Done(Err(ProviderError::BlockNotFound)),
    }
}

/// The first step of a log query: the lower bound of a range is resolved; a filter for one block by
/// its hash is used as it is.
pub open spec fn first_step<F, E>(filter: Filter<F>) -> GetLogs<F, E> {
    match filter.block_option {
        FilterBlockOption::AtBlockHash(_) => GetLogs::ReadLogs(ReadLogs { filter }),
        FilterBlockOption::Range { from_block, to_block } => match resolution(from_block) {
            Resolution::OfBlock(tag) => GetLogs::ReadFrom(
                ReadFrom { read: read_of_tag(tag), to_block, rest: filter.rest },
            ),
            Resolution::Known(from) => with_lower_bound(from, to_block, filter.rest),
            Resolution::NotFound => GetLogs::Done(Err(ProviderError::BlockNotFound)),
        },
    }
}

fn go_on_with_bounds<F, E>(from: u64, to: u64, rest: F) -> (res: GetLogs<F, E>)
    ensures
        res == with_bounds::<F, E>(from, to, rest),
{
    GetLogs::ReadLogs(
        ReadLogs {
            filter: Filter {
                block_option: FilterBlockOption::Range {
                    from_block: Some(BlockNumberOrTag::Number(from)),
                    to_block: Some(BlockNumberOrTag::Number(to)),
                },
                rest,
            },
        },
    )
}

fn go_on_with_lower_bound<F, E>(from: u64, to_block: Option<BlockNumberOrTag>, rest: F) -> (res:
    GetLogs<F, E>)
    ensures
        res == with_lower_bound::<F, E>(from, to_block, rest),
{
    match resolve_block_number(to_block) {
        Resolution::OfBlock(tag) => GetLogs::ReadTo(ReadTo { read: tag_read(tag), from, rest }),
        Resolution::Known(to) => go_on_with_bounds(from, to, rest),
        Resolution::NotFound => GetLogs::Done(Err(ProviderError::BlockNotFound)),
    }
}

/// Starts a log query.
pub fn get_logs<F, E>(filter: Filter<F>) -> (res: GetLogs<F, E>)
    ensures
        res == first_step::<F, E>(filter),
{
    match filter.block_option {
        FilterBlockOption::AtBlockHash(_) => GetLogs::ReadLogs(ReadLogs { filter }),
        FilterBlockOption::Range { from_block, to_block } => match resolve_block_number(
            from_block,
        ) {
            Resolution::OfBlock(tag) => GetLogs::ReadFrom(
                ReadFrom { read: tag_read(tag), to_block, rest: filter.rest },
            ),
            Resolution::Known(from) => go_on_with_lower_bound(from, to_block, filter.rest),
            Resolution::NotFound => GetLogs::Done(Err(ProviderError::BlockNotFound)),
        },
    }
}

impl<F> ReadFrom<F> {
    /// What follows the header: its number is the lower bound.
    pub open spec fn after<E>(self, block: Result<Option<BlockHeader>, E>) -> GetLogs<F, E> {
        match required_header(block) {
            Err(e) => GetLogs::Done(Err(e)),
            Ok(header) => with_lower_bound(header.number, self.to_block, self.rest),
        }
    }

    /// Goes on with the header that was read.
    pub fn next<E>(self, block: Result<Option<BlockHeader>, E>) -> (res: GetLogs<F, E>)
        ensures
            res == self.after(block),
    {
        match require_header(block) {
            Err(e) => GetLogs::Done(Err(e)),
            Ok(header) => go_on_with_lower_bound(header.number, self.to_block, self.rest),
        }
    }
}

impl<F> ReadTo<F> {
    /// What follows the header: its number is the upper bound.
    pub open spec fn after<E>(self, block: Result<Option<BlockHeader>, E>) -> GetLogs<F, E> {
        match required_header(block) {
            Err(e) => GetLogs::Done(Err(e)),
            Ok(header) => with_bounds(self.from, header.number, self.rest),
        }
    }

    /// Goes on with the header that was read.
    pub fn next<E>(self, block: Result<Option<BlockHeader>, E>) -> (res: GetLogs<F, E>)
        ensures
            res == self.after(block),
    {
        match require_header(block) {
            Err(e) => GetLogs::Done(Err(e)),
            Ok(header) => go_on_with_bounds(self.from, header.number, self.rest),
        }
    }
}

impl<F> ReadLogs<F> {
    /// What follows the logs: they are verified.
    pub open spec fn after<E>(self, logs: Result<Vec<Log>, E>) -> GetLogs<F, E> {
        match logs {
            Err(e) => GetLogs::Done(Err(ProviderError::Upstream(e))),
            Ok(logs) => GetLogs::VerifyLogs(
                VerifyLogs { read: read_of_tag(BlockNumberOrTag::Latest), filter: self.filter, logs },
            ),
        }
    }

    /// Goes on with the logs that were read.
    pub fn next<E>(self, logs: Result<Vec<Log>, E>) -> (res: GetLogs<F, E>)
        ensures
            res == self.after(logs),
    {
        match logs {
            Err(e) => GetLogs::Done(Err(ProviderError::Upstream(e))),
            Ok(logs) => GetLogs::VerifyLogs(
                VerifyLogs { read: tag_read(BlockNumberOrTag::Latest), filter: self.filter, logs },
            ),
        }
    }
}

impl<F> VerifyLogs<F> {
    /// What follows the latest block, which has to be known: the receipts of the blocks that the logs
    /// are said to stand in are read.
    pub open spec fn leads_to<E>(
        self,
        latest: Result<Option<BlockHeader>, E>,
        next: GetLogs<F, E>,
    ) -> bool {
        match required_header(latest) {
            Err(e) => next == GetLogs::<F, E>::Done(Err(e)),
            Ok(header) => {
                &&& next matches GetLogs::ReadReceipts(step)
                &&& step.filter == self.filter
                &&& step.logs == self.logs
                &&& names_needed_blocks(step.numbers@, self.logs@, header.number)
            },
        }
    }

    /// Goes on with the header of the latest block.
    pub fn next<E>(self, latest: Result<Option<BlockHeader>, E>) -> (res: GetLogs<F, E>)
        ensures
            self.leads_to(latest, res),
    {
        match blocks_to_verify(&self.logs, latest) {
            Err(e) => GetLogs::Done(Err(e)),
            Ok(numbers) => GetLogs::ReadReceipts(
                ReadReceipts { filter: self.filter, logs: self.logs, numbers },
            ),
        }
    }
}

impl<F> ReadReceipts<F> {
    /// What follows the receipts: the logs are checked against them, and then held against the filter
    /// that was sent.
    pub open spec fn after<E>(
        self,
        replies: Result<Vec<Option<Vec<ReceiptLogs>>>, ProviderError<E>>,
    ) -> GetLogs<F, E> {
        match replies {
            Err(e) => GetLogs::Done(Err(e)),
            Ok(receipts) => match log_outcome::<E>(
                self.logs@,
                listed_forms(all_receipts(receipts@)),
            ) {
                Err(e) => GetLogs::Done(Err(e)),
                Ok(_) => GetLogs::MatchFilter(MatchFilter { filter: self.filter, logs: self.logs }),
            },
        }
    }

    /// Whether the query goes on as `next` says: there is an answer exactly where the logs can be
    /// checked against the receipts, and the query goes on with logs only where each of them stands in
    /// a receipt.
    pub open spec fn leads_to<E>(
        self,
        replies: Result<Vec<Option<Vec<ReceiptLogs>>>, ProviderError<E>>,
        next: Option<GetLogs<F, E>>,
    ) -> bool {
        &&& next is Some <==> (replies matches Ok(receipts) ==> checkable(self.logs@, receipts@))
        &&& next matches Some(step) ==> step == self.after(replies)
        &&& next matches Some(GetLogs::MatchFilter(_)) ==> {
            &&& replies matches Ok(receipts)
            &&& forall|i: int|
                0 <= i < self.logs@.len() ==> stands_in_receipt(
                    #[trigger] self.logs@[i],
                    all_receipts(receipts@),
                )
        }
    }

    /// Goes on with the receipts that were read, or the error of reading them. There is no answer
    /// where the logs cannot be checked against the receipts.
    pub fn next<E>(
        self,
        replies: Result<Vec<Option<Vec<ReceiptLogs>>>, ProviderError<E>>,
    ) -> (res: Option<GetLogs<F, E>>)
        ensures
            self.leads_to(replies, res),
            replies is Err ==> res is Some,
            replies matches Ok(receipts) ==> (res is Some <==> checkable(self.logs@, receipts@)),
    {
        match verify_logs(&self.logs, replies) {
            None => None,
            Some(Err(e)) => Some(GetLogs::Done(Err(e))),
            Some(Ok(_)) => Some(
                GetLogs::MatchFilter(MatchFilter { filter: self.filter, logs: self.logs }),
            ),
        }
    }
}

impl<F> MatchFilter<F> {
    /// The outcome: the logs, all of them and unchanged, where they match the filter.
    pub open spec fn outcome<E>(self, matched: Result<(), E>) -> Result<
        Vec<Log>,
        ProviderError<E>,
    > {
        match matched {
            Err(e) => Err(ProviderError::Upstream(e)),
            Ok(_) => Ok(self.logs),
        }
    }

    /// Goes on with the outcome of the comparison.
    pub fn next<E>(self, matched: Result<(), E>) -> (res: Result<Vec<Log>, ProviderError<E>>)
        ensures
            res == self.outcome(matched),
    {
        match matched {
            Err(e) => Err(ProviderError::Upstream(e)),
            Ok(_) => Ok(self.logs),
        }
    }
}

// ---------- Laws ----------

/// Everything that comes back during a log query, in any order of success and failure, and the steps
/// that it leads to.
pub struct LogRun<F, E> {
    pub filter: Filter<F>,
    pub from_block: Result<Option<BlockHeader>, E>,
    pub to_block: Result<Option<BlockHeader>, E>,
    pub logs: Result<Vec<Log>, E>,
    pub latest: Result<Option<BlockHeader>, E>,
    pub after_latest: GetLogs<F, E>,
    pub receipts: Result<Vec<Option<Vec<ReceiptLogs>>>, ProviderError<E>>,
    pub after_receipts: GetLogs<F, E>,
    pub matched: Result<(), E>,
}

impl<F, E> LogRun<F, E> {
    /// The step after the lower bound.
    pub open spec fn after_from(self) -> GetLogs<F, E> {
        match first_step::<F, E>(self.filter) {
            GetLogs::ReadFrom(step) => step.after(self.from_block),
            step => step,
        }
    }

    /// The step after both bounds.
    pub open spec fn after_bounds(self) -> GetLogs<F, E> {
        match self.after_from() {
            GetLogs::ReadTo(step) => step.after(self.to_block),
            step => step,
        }
    }

    /// The step after the logs were read.
    pub open spec fn after_logs(self) -> GetLogs<F, E> {
        match self.after_bounds() {
            GetLogs::ReadLogs(step) => step.after(self.logs),
            step => step,
        }
    }

    /// Whether the steps in between follow from what came back for them: the blocks to read receipts
    /// of are listed in some order, one reply comes back for each of them, and there is an answer. A
    /// run that is done stays as it is.
    pub open spec fn valid(self) -> bool {
        &&& match self.after_logs() {
            GetLogs::VerifyLogs(step) => step.leads_to(self.latest, self.after_latest),
            done => self.after_latest == done,
        }
        &&& match self.after_latest {
            GetLogs::ReadReceipts(step) => {
                &&& step.leads_to(self.receipts, Some(self.after_receipts))
                &&& self.receipts matches Ok(receipts) ==> receipts@.len() == step.numbers@.len()
            },
            done => self.after_receipts == done,
        }
    }

    /// The last step.
    pub open spec fn end(self) -> GetLogs<F, E> {
        match self.after_receipts {
            GetLogs::MatchFilter(step) => GetLogs::Done(step.outcome(self.matched)),
            step => step,
        }
    }
}

/// The blocks that the filter sent upstream covers: both bounds of a range as numbers, and one block
/// by its hash as it is.
pub open spec fn sent_option<F, E>(run: LogRun<F, E>) -> Result<FilterBlockOption, ProviderError<E>> {
    match run.filter.block_option {
        FilterBlockOption::AtBlockHash(_) => Ok(run.filter.block_option),
        FilterBlockOption::Range { from_block, to_block } => match resolved_number(
            from_block,
            run.from_block,
        ) {
            Err(e) => Err(e),
            Ok(from) => match resolved_number(to_block, run.to_block) {
                Err(e) => Err(e),
                Ok(to) => Ok(numbered_range(from, to)),
            },
        },
    }
}

/// No tag reaches the upstream: a query goes on to read logs exactly where its bounds resolve, with
/// the resolved bounds and the rest of the filter as it was; else it ends with the error of the first
/// bound that does not resolve.
pub proof fn sent_filter_is_resolved<F, E>(run: LogRun<F, E>)
    ensures
        match sent_option(run) {
            Err(e) => run.after_bounds() == GetLogs::<F, E>::Done(Err(e)),
            Ok(block_option) => run.after_bounds() == GetLogs::<F, E>::ReadLogs(
                ReadLogs { filter: Filter { block_option, rest: run.filter.rest } },
            ),
        },
{
}

/// A query always ends, and logs come out exactly where the bounds resolve, the logs were read, the
/// latest block is known, the receipts were read and list every log, and the logs match the filter
/// that was sent. They are then the logs that were read.
pub proof fn returned_logs_are_verified<F, E>(run: LogRun<F, E>)
    requires
        run.valid(),
    ensures
        run.end() matches GetLogs::Done(outcome) && {
            &&& outcome is Ok <==> {
                &&& sent_option(run) is Ok
                &&& run.logs matches Ok(logs)
                &&& run.latest matches Ok(Some(_))
                &&& run.receipts matches Ok(receipts)
                &&& log_outcome::<E>(logs@, listed_forms(all_receipts(receipts@))) is Ok
                &&& run.matched is Ok
            }
            &&& outcome matches Ok(logs) ==> {
                &&& run.logs == Ok::<Vec<Log>, E>(logs)
                &&& run.after_receipts == GetLogs::<F, E>::MatchFilter(
                    MatchFilter {
                        filter: Filter {
                            block_option: sent_option(run)->Ok_0,
                            rest: run.filter.rest,
                        },
                        logs,
                    },
                )
            }
        },
{
    sent_filter_is_resolved(run);
}

/// Every log that comes out stands in a proven receipt of its transaction, and that receipt came back
/// for a block that some log is said to stand in and that is not newer than the latest block.
pub proof fn returned_logs_are_listed<F, E>(run: LogRun<F, E>, logs: Vec<Log>, i: int)
    requires
        run.valid(),
        run.end() == GetLogs::<F, E>::Done(Ok(logs)),
        0 <= i < logs@.len(),
    ensures
        run.latest matches Ok(Some(header)) && run.receipts matches Ok(receipts)
            && run.after_latest matches GetLogs::ReadReceipts(step) && exists|n: int|
            0 <= n < receipts@.len() && block_needed(
                logs@,
                header.number,
                #[trigger] step.numbers@[n],
            ) && receipts@[n] is Some && stands_in_receipt(logs@[i], receipts@[n]->0@),
{
    returned_logs_are_verified(run);
    let header = run.latest->Ok_0->0;
    let receipts = run.receipts->Ok_0;
    let step = run.after_latest->ReadReceipts_0;
    assert(stands_in_receipt(step.logs@[i], all_receipts(receipts@)));
    verified_log_is_in_a_needed_block(
        logs@[i],
        logs@,
        header.number,
        step.numbers@,
        receipts@,
    );
}

/// A range is sent between the numbers that its bounds resolve to, the lower bound first, with the rest
/// of the filter as it was.
pub proof fn range_is_sent_between_its_bounds<F, E>(
    run: LogRun<F, E>,
    from_block: Option<BlockNumberOrTag>,
    to_block: Option<BlockNumberOrTag>,
    from: u64,
    to: u64,
)
    requires
        run.filter.block_option == (FilterBlockOption::Range { from_block, to_block }),
        resolved_number(from_block, run.from_block) == Ok::<u64, ProviderError<E>>(from),
        resolved_number(to_block, run.to_block) == Ok::<u64, ProviderError<E>>(to),
    ensures
        run.after_bounds() matches GetLogs::ReadLogs(step) && {
            &&& step.filter.rest == run.filter.rest
            &&& step.filter.block_option matches FilterBlockOption::Range {
                from_block: lower,
                to_block: upper,
            }
            &&& lower == Some(BlockNumberOrTag::Number(from))
            &&& upper == Some(BlockNumberOrTag::Number(to))
        },
{
}

/// A query whose lower bound does not resolve ends with its error, and else one whose upper bound does
/// not resolve with that of the upper bound.
pub proof fn bound_that_does_not_resolve_ends_the_query<F, E>(
    run: LogRun<F, E>,
    from_block: Option<BlockNumberOrTag>,
    to_block: Option<BlockNumberOrTag>,
)
    requires
        run.filter.block_option == (FilterBlockOption::Range { from_block, to_block }),
    ensures
        match resolved_number(from_block, run.from_block) {
            Err(e) => run.after_bounds() == GetLogs::<F, E>::Done(Err(e)),
            Ok(_) => match resolved_number(to_block, run.to_block) {
                Err(e) => run.after_bounds() == GetLogs::<F, E>::Done(Err(e)),
                Ok(_) => run.after_bounds() is ReadLogs,
            },
        },
{
}

/// A filter for one block by its hash is sent as it is, whatever else comes back.
pub proof fn block_hash_is_sent_as_it_is<F, E>(run: LogRun<F, E>, hash: B256)
    requires
        run.filter.block_option == FilterBlockOption::AtBlockHash(hash),
    ensures
        run.after_bounds() matches GetLogs::ReadLogs(step) && {
            &&& step.filter.rest == run.filter.rest
            &&& step.filter.block_option == FilterBlockOption::AtBlockHash(hash)
        },
{
}

/// For a bound that is a tag the block of that tag is read, and for a missing bound the latest block,
/// without transactions; for a bound that is a number none is read.
pub proof fn bounds_are_read_by_their_tags<F, E>(
    run: LogRun<F, E>,
    from_block: Option<BlockNumberOrTag>,
    to_block: Option<BlockNumberOrTag>,
)
    requires
        run.filter.block_option == (FilterBlockOption::Range { from_block, to_block }),
    ensures
        first_step::<F, E>(run.filter) matches GetLogs::ReadFrom(step) ==> {
            &&& !step.read.full_tx
            &&& step.read.block_id == BlockId::Number(
                if from_block == Some(BlockNumberOrTag::Finalized) {
                    BlockNumberOrTag::Finalized
                } else {
                    BlockNumberOrTag::Latest
                },
            )
        },
        first_step::<F, E>(run.filter) is ReadFrom <==> from_block is None || from_block == Some(
            BlockNumberOrTag::Latest,
        ) || from_block == Some(BlockNumberOrTag::Finalized),
        run.after_from() matches GetLogs::ReadTo(step) ==> {
            &&& !step.read.full_tx
            &&& step.read.block_id == BlockId::Number(
                if to_block == Some(BlockNumberOrTag::Finalized) {
                    BlockNumberOrTag::Finalized
                } else {
                    BlockNumberOrTag::Latest
                },
            )
        },
        resolved_number(from_block, run.from_block) is Ok ==> (run.after_from() is ReadTo <==> (
        to_block is None || to_block == Some(BlockNumberOrTag::Latest) || to_block == Some(
            BlockNumberOrTag::Finalized,
        ))),
{
}

/// Between the bounds and the outcome every step carries the filter that was sent and the logs that
/// were read, all of them; the latest block is read by its tag, without transactions.
pub proof fn log_steps_carry_what_was_read<F, E>(run: LogRun<F, E>, sent: ReadLogs<F>)
    requires
        run.valid(),
        run.after_bounds() == GetLogs::<F, E>::ReadLogs(sent),
    ensures
        run.logs matches Ok(logs) ==> {
            &&& run.after_logs() matches GetLogs::VerifyLogs(step)
            &&& step.filter == sent.filter
            &&& step.logs == logs
            &&& !step.read.full_tx
            &&& step.read.block_id == BlockId::Number(BlockNumberOrTag::Latest)
        },
        run.logs matches Ok(logs) ==> (run.latest matches Ok(Some(header)) ==> {
            &&& run.after_latest matches GetLogs::ReadReceipts(step)
            &&& step.filter == sent.filter
            &&& step.logs == logs
            &&& forall|i: int, number: u64|
                0 <= i < logs@.len() && (#[trigger] logs@[i]).block_number == Some(number) && number
                    <= header.number ==> #[trigger] step.numbers@.contains(number)
            &&& forall|n: int|
                0 <= n < step.numbers@.len() ==> #[trigger] step.numbers@[n] <= header.number
        }),
        run.after_receipts matches GetLogs::MatchFilter(step) ==> {
            &&& step.filter == sent.filter
            &&& run.logs == Ok::<Vec<Log>, E>(step.logs)
        },
{
    if let Ok(logs) = run.logs {
        if let Ok(Some(header)) = run.latest {
            let step = run.after_latest->ReadReceipts_0;
            needed_blocks_are_those_of_the_logs(step.numbers@, logs@, header.number);
        }
    }
}

/// The outcome of a query whose filter was sent, for everything that can come back: the first error is
/// handed on unchanged, and without one the outcome are the logs that were read, all of them.
pub proof fn first_log_error_is_handed_on<F, E>(run: LogRun<F, E>)
    requires
        run.valid(),
        run.after_bounds() is ReadLogs,
    ensures
        match run.logs {
            Err(e) => run.end() == GetLogs::<F, E>::Done(Err(ProviderError::Upstream(e))),
            Ok(logs) => match run.latest {
                Err(e) => run.end() == GetLogs::<F, E>::Done(Err(ProviderError::Upstream(e))),
                Ok(None) => run.end() == GetLogs::<F, E>::Done(Err(ProviderError::BlockNotFound)),
                Ok(Some(_)) => match run.receipts {
                    Err(e) => run.end() == GetLogs::<F, E>::Done(Err(e)),
                    Ok(receipts) => match log_outcome::<E>(
                        logs@,
                        listed_forms(all_receipts(receipts@)),
                    ) {
                        Err(e) => run.end() == GetLogs::<F, E>::Done(Err(e)),
                        Ok(_) => match run.matched {
                            Err(e) => run.end() == GetLogs::<F, E>::Done(
                                Err(ProviderError::Upstream(e)),
                            ),
                            Ok(_) => run.end() == GetLogs::<F, E>::Done(Ok(logs)),
                        },
                    },
                },
            },
        },
{
}

/// An error of reading the receipts is always handed on, and receipts always give an answer where all
/// logs can be checked against them, however many there are: the query ends with the error of the
/// check, or goes on with all logs and the filter that was sent.
pub proof fn receipts_always_give_an_answer<F, E>(
    step: ReadReceipts<F>,
    replies: Result<Vec<Option<Vec<ReceiptLogs>>>, ProviderError<E>>,
    next: Option<GetLogs<F, E>>,
)
    requires
        step.leads_to(replies, next),
    ensures
        match replies {
            Err(e) => next == Some(GetLogs::<F, E>::Done(Err(e))),
            Ok(receipts) => {
                &&& next is Some <==> checkable(step.logs@, receipts@)
                &&& next matches Some(given) ==> (match log_outcome::<E>(
                    step.logs@,
                    listed_forms(all_receipts(receipts@)),
                ) {
                    Err(e) => given == GetLogs::<F, E>::Done(Err(e)),
                    Ok(_) => {
                        &&& given matches GetLogs::MatchFilter(last)
                        &&& last.filter == step.filter
                        &&& last.logs == step.logs
                    },
                })
            },
        },
{
}

} // verus!
