//! Reading receipts and holding them against verified blocks.

use crate::types::{BlockHeader, BlockId, BlockRead, ProviderError, B256};
use vstd::prelude::*;

verus! {

/// A receipt: the transaction that it is for, the block it is said to be in, and everything else
/// unread.
#[derive(Debug, PartialEq, Eq)]
pub struct Receipt<T> {
    pub transaction_hash: B256,
    pub block_hash: Option<B256>,
    pub body: T,
}

/// The first of some receipts that is for the given transaction.
pub open spec fn first_receipt_for<T>(receipts: Seq<Receipt<T>>, hash: B256) -> Option<Receipt<T>>
    decreases receipts.len(),
{
    if receipts.len() == 0 {
        None
    } else if receipts[0].transaction_hash == hash {
        Some(receipts[0])
    } else {
        first_receipt_for(receipts.drop_first(), hash)
    }
}

/// Finds the first of some receipts that is for the given transaction.
fn find_receipt<T>(list: Vec<Receipt<T>>, hash: &B256) -> (res: Option<Receipt<T>>)
    ensures
        res == first_receipt_for(list@, *hash),
{
    let ghost all = list@;
    let mut receipts = list;
    let mut i: usize = 0;
    proof {
        assert(all.skip(0) =~= all);
    }
    while i < receipts.len()
        invariant
            i <= receipts.len(),
            receipts@ == all,
            all == list@,
            first_receipt_for(all, *hash) == first_receipt_for(all.skip(i as int), *hash),
        decreases receipts.len() - i,
    {
        proof {
            assert(all.skip(i as int)[0] == all[i as int]);
            assert(all.skip(i as int).drop_first() =~= all.skip(i + 1));
        }
        if receipts[i].transaction_hash == *hash {
            return Some(receipts.swap_remove(i));
        }
        i += 1;
    }
    None
}

// ---------- One receipt ----------

/// The receipt of the transaction `hash` is read from the upstream.
#[derive(Debug, PartialEq, Eq)]
pub struct ReadReceipt {
    pub hash: B256,
}

/// The block is read, for its header.
#[derive(Debug, PartialEq, Eq)]
pub struct ReadReceiptBlock {
    pub hash: B256,
    pub read: BlockRead,
}

/// The receipts of the block `at` are read from the upstream.
#[derive(Debug, PartialEq, Eq)]
pub struct ReadSiblings {
    pub hash: B256,
    pub at: BlockId,
    pub header: BlockHeader,
}

/// The receipts are checked against the receipts root of the block with this header.
#[derive(Debug, PartialEq, Eq)]
pub struct CheckSiblings<T> {
    pub hash: B256,
    pub header: BlockHeader,
    pub receipts: Vec<Receipt<T>>,
}

/// Where reading a receipt stands: what to do next, or the outcome.
#[derive(Debug, PartialEq, Eq)]
pub enum GetReceipt<T, E> {
    ReadBlock(ReadReceiptBlock),
    ReadReceipts(ReadSiblings),
    CheckReceipts(CheckSiblings<T>),
    Done(Result<Option<Receipt<T>>, ProviderError<E>>),
}

/// What follows the receipt that the upstream returned: only the block that it is said to be in is
/// taken from it.
pub open spec fn after_receipt<T, E>(hash: B256, reply: Result<Option<Receipt<T>>, E>) -> GetReceipt<
    T,
    E,
> {
    match reply {
        Err(e) => GetReceipt::Done(Err(ProviderError::Upstream(e))),
        Ok(None) => GetReceipt::Done(Err(ProviderError::ReceiptNotFound)),
        Ok(Some(receipt)) => match receipt.block_hash {
            None => GetReceipt::Done(Err(ProviderError::BlockNotFound)),
            Some(block_hash) => GetReceipt::ReadBlock(
                ReadReceiptBlock { hash, read: BlockRead::of_header(BlockId::at_hash(block_hash)) },
            ),
        },
    }
}

/// Starts to read the receipt of a transaction.
pub fn get_receipt(hash: B256) -> (res: ReadReceipt)
    ensures
        res.hash == hash,
{
    ReadReceipt { hash }
}

impl ReadReceipt {
    /// Goes on with what the upstream returned.
    pub fn next<T, E>(self, reply: Result<Option<Receipt<T>>, E>) -> (res: GetReceipt<T, E>)
        ensures
            res == after_receipt(self.hash, reply),
    {
        match reply {
            Err(e) => GetReceipt::Done(Err(ProviderError::Upstream(e))),
            Ok(None) => GetReceipt::Done(Err(ProviderError::ReceiptNotFound)),
            Ok(Some(receipt)) => match receipt.block_hash {
                None => GetReceipt::Done(Err(ProviderError::BlockNotFound)),
                Some(block_hash) => GetReceipt::ReadBlock(
                    ReadReceiptBlock {
                        hash: self.hash,
                        read: BlockRead::header(BlockId::from_hash(block_hash)),
                    },
                ),
            },
        }
    }
}

impl ReadReceiptBlock {
    /// What follows the block: its receipts are read under the same reference.
    pub open spec fn after<T, E>(self, block: Result<Option<BlockHeader>, E>) -> GetReceipt<T, E> {
        match block {
            Err(e) => GetReceipt::Done(Err(ProviderError::Upstream(e))),
            Ok(None) => GetReceipt::Done(Err(ProviderError::BlockNotFound)),
            Ok(Some(header)) => GetReceipt::ReadReceipts(
                ReadSiblings { hash: self.hash, at: self.read.block_id, header },
            ),
        }
    }

    /// Goes on with the block that was read.
    pub fn next<T, E>(self, block: Result<Option<BlockHeader>, E>) -> (res: GetReceipt<T, E>)
        ensures
            res == self.after::<T, E>(block),
    {
        match block {
            Err(e) => GetReceipt::Done(Err(ProviderError::Upstream(e))),
            Ok(None) => GetReceipt::Done(Err(ProviderError::BlockNotFound)),
            Ok(Some(header)) => GetReceipt::ReadReceipts(
                ReadSiblings { hash: self.hash, at: self.read.block_id, header },
            ),
        }
    }
}

impl ReadSiblings {
    /// What follows the receipts of the block: they are checked against it.
    pub open spec fn after<T, E>(self, receipts: Result<Option<Vec<Receipt<T>>>, E>) -> GetReceipt<
        T,
        E,
    > {
        match receipts {
            Err(e) => GetReceipt::Done(Err(ProviderError::Upstream(e))),
            Ok(None) => GetReceipt::Done(Err(ProviderError::BlockNotFound)),
            Ok(Some(receipts)) => GetReceipt::CheckReceipts(
                CheckSiblings { hash: self.hash, header: self.header, receipts },
            ),
        }
    }

    /// Goes on with the receipts that were read.
    pub fn next<T, E>(self, receipts: Result<Option<Vec<Receipt<T>>>, E>) -> (res: GetReceipt<T, E>)
        ensures
            res == self.after(receipts),
    {
        match receipts {
            Err(e) => GetReceipt::Done(Err(ProviderError::Upstream(e))),
            Ok(None) => GetReceipt::Done(Err(ProviderError::BlockNotFound)),
            Ok(Some(receipts)) => GetReceipt::CheckReceipts(
                CheckSiblings { hash: self.hash, header: self.header, receipts },
            ),
        }
    }
}

impl<T> CheckSiblings<T> {
    /// The outcome, given the check: the first of the checked receipts that is for the transaction.
    pub open spec fn outcome<E>(self, check: Result<(), E>) -> Result<
        Option<Receipt<T>>,
        ProviderError<E>,
    > {
        match check {
            Err(e) => Err(ProviderError::Upstream(e)),
            Ok(_) => Ok(first_receipt_for(self.receipts@, self.hash)),
        }
    }

    /// Goes on with the outcome of the check.
    pub fn next<E>(self, check: Result<(), E>) -> (res: Result<Option<Receipt<T>>, ProviderError<E>>)
        ensures
            res == self.outcome(check),
    {
        match check {
            Err(e) => Err(ProviderError::Upstream(e)),
            Ok(_) => Ok(find_receipt(self.receipts, &self.hash)),
        }
    }
}

// ---------- The receipts of a block ----------

/// The block is read, for its header.
#[derive(Debug, PartialEq, Eq)]
pub struct ReadReceiptsBlock {
    pub read: BlockRead,
}

/// The receipts of the block `at` are read from the upstream.
#[derive(Debug, PartialEq, Eq)]
pub struct ReadBlockReceipts {
    pub at: BlockId,
    pub header: BlockHeader,
}

/// The receipts are checked against the receipts root of the block with this header.
#[derive(Debug, PartialEq, Eq)]
pub struct CheckBlockReceipts<T> {
    pub header: BlockHeader,
    pub receipts: Vec<Receipt<T>>,
}

/// Where reading the receipts of a block stands: what to do next, or the outcome.
#[derive(Debug, PartialEq, Eq)]
pub enum GetBlockReceipts<T, E> {
    ReadReceipts(ReadBlockReceipts),
    CheckReceipts(CheckBlockReceipts<T>),
    Done(Result<Option<Vec<Receipt<T>>>, ProviderError<E>>),
}

/// What follows the block: its receipts are read by its hash. A block that is not known has none.
pub open spec fn after_receipts_block<T, E>(
    block: Result<Option<BlockHeader>, E>,
) -> GetBlockReceipts<T, E> {
    match block {
        Err(e) => GetBlockReceipts::Done(Err(ProviderError::Upstream(e))),
        Ok(None) => GetBlockReceipts::Done(Ok(None)),
        Ok(Some(header)) => GetBlockReceipts::ReadReceipts(
            ReadBlockReceipts { at: BlockId::at_hash(header.hash), header },
        ),
    }
}

/// Starts to read the receipts of a block.
pub fn get_block_receipts(block_id: BlockId) -> (res: ReadReceiptsBlock)
    ensures
        res.read == BlockRead::of_header(block_id),
        res.read.block_id == block_id,
        !res.read.full_tx,
{
    ReadReceiptsBlock { read: BlockRead::header(block_id) }
}

impl ReadReceiptsBlock {
    /// Goes on with the block that was read.
    pub fn next<T, E>(self, block: Result<Option<BlockHeader>, E>) -> (res: GetBlockReceipts<T, E>)
        ensures
            res == after_receipts_block::<T, E>(block),
    {
        match block {
            Err(e) => GetBlockReceipts::Done(Err(ProviderError::Upstream(e))),
            Ok(None) => GetBlockReceipts::Done(Ok(None)),
            Ok(Some(header)) => GetBlockReceipts::ReadReceipts(
                ReadBlockReceipts { at: BlockId::from_hash(header.hash), header },
            ),
        }
    }
}

impl ReadBlockReceipts {
    /// What follows the receipts: they are checked against the block.
    pub open spec fn after<T, E>(
        self,
        receipts: Result<Option<Vec<Receipt<T>>>, E>,
    ) -> GetBlockReceipts<T, E> {
        match receipts {
            Err(e) => GetBlockReceipts::Done(Err(ProviderError::Upstream(e))),
            Ok(None) => GetBlockReceipts::Done(Err(ProviderError::ReceiptFetchFailed)),
            Ok(Some(receipts)) => GetBlockReceipts::CheckReceipts(
                CheckBlockReceipts { header: self.header, receipts },
            ),
        }
    }

    /// Goes on with the receipts that were read.
    pub fn next<T, E>(self, receipts: Result<Option<Vec<Receipt<T>>>, E>) -> (res: GetBlockReceipts<
        T,
        E,
    >)
        ensures
            res == self.after(receipts),
    {
        match receipts {
            Err(e) => GetBlockReceipts::Done(Err(ProviderError::Upstream(e))),
            Ok(None) => GetBlockReceipts::Done(Err(ProviderError::ReceiptFetchFailed)),
            Ok(Some(receipts)) => GetBlockReceipts::CheckReceipts(
                CheckBlockReceipts { header: self.header, receipts },
            ),
        }
    }
}

impl<T> CheckBlockReceipts<T> {
    /// The outcome, given the check: the checked receipts, all of them and unchanged.
    pub open spec fn outcome<E>(self, check: Result<(), E>) -> Result<
        Option<Vec<Receipt<T>>>,
        ProviderError<E>,
    > {
        match check {
            Err(e) => Err(ProviderError::Upstream(e)),
            Ok(_) => Ok(Some(self.receipts)),
        }
    }

    /// Goes on with the outcome of the check.
    pub fn next<E>(self, check: Result<(), E>) -> (res: Result<
        Option<Vec<Receipt<T>>>,
        ProviderError<E>,
    >)
        ensures
            res == self.outcome(check),
    {
        match check {
            Err(e) => Err(ProviderError::Upstream(e)),
            Ok(_) => Ok(Some(self.receipts)),
        }
    }
}

// ---------- Laws ----------

/// The first receipt for a transaction is one of the receipts, is for it, and none before it is; and
/// there is one exactly where some receipt is for the transaction.
pub proof fn first_receipt_is_found<T>(receipts: Seq<Receipt<T>>, hash: B256)
    ensures
        first_receipt_for(receipts, hash) is None <==> forall|i: int|
            0 <= i < receipts.len() ==> (#[trigger] receipts[i]).transaction_hash != hash,
        first_receipt_for(receipts, hash) matches Some(found) ==> found.transaction_hash == hash
            && exists|i: int|
            0 <= i < receipts.len() && #[trigger] receipts[i] == found && forall|j: int|
                0 <= j < i ==> (#[trigger] receipts[j]).transaction_hash != hash,
    decreases receipts.len(),
{
    if receipts.len() > 0 {
        let rest = receipts.drop_first();
        first_receipt_is_found(rest, hash);
        if receipts[0].transaction_hash == hash {
            assert(receipts[0] == first_receipt_for(receipts, hash)->0);
        } else {
            match first_receipt_for(rest, hash) {
                None => {
                    assert forall|i: int| 0 <= i < receipts.len() implies (
                    #[trigger] receipts[i]).transaction_hash != hash by {
                        assert(i > 0 ==> rest[i - 1].transaction_hash != hash);
                    }
                },
                Some(found) => {
                    let i = choose|i: int|
                        0 <= i < rest.len() && #[trigger] rest[i] == found && forall|j: int|
                            0 <= j < i ==> (#[trigger] rest[j]).transaction_hash != hash;
                    assert(receipts[i + 1] == found);
                    assert forall|j: int| 0 <= j < i + 1 implies (
                    #[trigger] receipts[j]).transaction_hash != hash by {
                        assert(j > 0 ==> rest[j - 1].transaction_hash != hash);
                    }
                },
            }
        }
    }
}

/// Everything that comes back while a receipt is read, in any order of success and failure, and the
/// steps in between.
pub struct ReceiptRun<T, E> {
    pub hash: B256,
    pub reply: Result<Option<Receipt<T>>, E>,
    pub block: Result<Option<BlockHeader>, E>,
    pub receipts: Result<Option<Vec<Receipt<T>>>, E>,
    pub check: Result<(), E>,
}

impl<T, E> ReceiptRun<T, E> {
    /// The step after the upstream returned the receipt.
    pub open spec fn after_reply(self) -> GetReceipt<T, E> {
        after_receipt(self.hash, self.reply)
    }

    /// The step after the block was read.
    pub open spec fn after_block(self) -> GetReceipt<T, E> {
        match self.after_reply() {
            GetReceipt::ReadBlock(step) => step.after(self.block),
            done => done,
        }
    }

    /// The step after the receipts of the block were read.
    pub open spec fn after_receipts(self) -> GetReceipt<T, E> {
        match self.after_block() {
            GetReceipt::ReadReceipts(step) => step.after(self.receipts),
            done => done,
        }
    }

    /// The last step.
    pub open spec fn end(self) -> GetReceipt<T, E> {
        match self.after_receipts() {
            GetReceipt::CheckReceipts(step) => GetReceipt::Done(step.outcome(self.check)),
            done => done,
        }
    }
}

/// A receipt that comes out is for the transaction that was asked for, and it is one of the receipts
/// that were read for the block that the upstream named and that passed the check against the header
/// of that block. What the upstream returned as the receipt itself is never handed out unchecked.
pub proof fn receipt_is_checked<T, E>(run: ReceiptRun<T, E>)
    ensures
        run.end() is Done,
        run.end() matches GetReceipt::Done(Ok(Some(found))) ==> {
            &&& found.transaction_hash == run.hash
            &&& run.reply matches Ok(Some(claimed))
            &&& claimed.block_hash matches Some(block_hash)
            &&& run.block matches Ok(Some(header))
            &&& run.receipts matches Ok(Some(receipts))
            &&& receipts@.contains(found)
            &&& run.check is Ok
            &&& run.after_block() == GetReceipt::<T, E>::ReadReceipts(
                ReadSiblings { hash: run.hash, at: BlockId::at_hash(block_hash), header },
            )
            &&& run.after_receipts() == GetReceipt::<T, E>::CheckReceipts(
                CheckSiblings { hash: run.hash, header, receipts },
            )
        },
{
    if let Ok(Some(receipts)) = run.receipts {
        first_receipt_is_found(receipts@, run.hash);
    }
}

/// Receipts of a block come out only where the block is known, and then they are the ones that were
/// read by the hash of its header and passed the check against that same header.
pub proof fn block_receipts_are_checked<T, E>(
    block: Result<Option<BlockHeader>, E>,
    receipts: Result<Option<Vec<Receipt<T>>>, E>,
    check: Result<(), E>,
)
    ensures
        after_receipts_block::<T, E>(block) matches GetBlockReceipts::Done(Ok(outcome)) ==> outcome
            is None && block == Ok::<Option<BlockHeader>, E>(None),
        after_receipts_block::<T, E>(block) matches GetBlockReceipts::ReadReceipts(step) ==> {
            &&& block matches Ok(Some(header))
            &&& step.at == BlockId::at_hash(header.hash)
            &&& !(step.after(receipts) matches GetBlockReceipts::Done(Ok(_)))
            &&& step.after(receipts) matches GetBlockReceipts::CheckReceipts(last) ==> {
                &&& last.header == header
                &&& receipts == Ok::<Option<Vec<Receipt<T>>>, E>(Some(last.receipts))
                &&& last.outcome(check) matches Ok(outcome) ==> check is Ok && outcome == Some(
                    last.receipts,
                )
            }
        },
{
}

/// The outcome of reading a receipt, for everything that can come back: the first error is handed on,
/// and without one the outcome is the first receipt for the transaction among all that were read for
/// its block, or none exactly where none of them is for it.
pub proof fn receipt_is_the_first_of_its_block<T, E>(run: ReceiptRun<T, E>)
    ensures
        match run.reply {
            Err(e) => run.end() == GetReceipt::<T, E>::Done(Err(ProviderError::Upstream(e))),
            Ok(None) => run.end() == GetReceipt::<T, E>::Done(Err(ProviderError::ReceiptNotFound)),
            Ok(Some(claimed)) => if claimed.block_hash is None {
                run.end() == GetReceipt::<T, E>::Done(Err(ProviderError::BlockNotFound))
            } else {
                match run.block {
                    Err(e) => run.end() == GetReceipt::<T, E>::Done(
                        Err(ProviderError::Upstream(e)),
                    ),
                    Ok(None) => run.end() == GetReceipt::<T, E>::Done(
                        Err(ProviderError::BlockNotFound),
                    ),
                    Ok(Some(_)) => match run.receipts {
                        Err(e) => run.end() == GetReceipt::<T, E>::Done(
                            Err(ProviderError::Upstream(e)),
                        ),
                        Ok(None) => run.end() == GetReceipt::<T, E>::Done(
                            Err(ProviderError::BlockNotFound),
                        ),
                        Ok(Some(receipts)) => match run.check {
                            Err(e) => run.end() == GetReceipt::<T, E>::Done(
                                Err(ProviderError::Upstream(e)),
                            ),
                            Ok(_) => {
                                ||| run.end() matches GetReceipt::Done(Ok(Some(found)))
                                    && found.transaction_hash == run.hash && exists|i: int|
                                    0 <= i < receipts@.len() && #[trigger] receipts@[i] == found
                                        && forall|j: int|
                                        0 <= j < i ==> (#[trigger] receipts@[j]).transaction_hash
                                            != run.hash
                                ||| run.end() == GetReceipt::<T, E>::Done(Ok(None)) && forall|
                                    i: int,
                                |
                                    0 <= i < receipts@.len() ==> (
                                    #[trigger] receipts@[i]).transaction_hash != run.hash
                            },
                        },
                    },
                }
            },
        },
{
    if let Ok(Some(receipts)) = run.receipts {
        first_receipt_is_found(receipts@, run.hash);
    }
}

/// Every step of reading a receipt carries the hash that was asked for, and the block that the
/// upstream named, by its hash; the receipts that were read for it are checked against its header.
pub proof fn receipt_steps_carry_what_was_read<T, E>(run: ReceiptRun<T, E>)
    ensures
        run.after_reply() matches GetReceipt::ReadBlock(step) ==> {
            &&& run.reply matches Ok(Some(claimed))
            &&& step.hash == run.hash
            &&& !step.read.full_tx
            &&& step.read.block_id matches BlockId::Hash { block_hash, require_canonical }
            &&& claimed.block_hash == Some(block_hash)
            &&& require_canonical is None
        },
        run.after_block() matches GetReceipt::ReadReceipts(step) ==> {
            &&& run.reply matches Ok(Some(claimed))
            &&& run.block matches Ok(Some(header))
            &&& step.hash == run.hash
            &&& step.header == header
            &&& step.at matches BlockId::Hash { block_hash, require_canonical }
            &&& claimed.block_hash == Some(block_hash)
            &&& require_canonical is None
        },
        run.after_receipts() matches GetReceipt::CheckReceipts(step) ==> {
            &&& run.block matches Ok(Some(header))
            &&& run.receipts matches Ok(Some(receipts))
            &&& step.hash == run.hash
            &&& step.header == header
            &&& step.receipts == receipts
        },
        run.reply matches Ok(Some(claimed)) && claimed.block_hash is Some ==> {
            &&& run.after_reply() is ReadBlock
            &&& run.block matches Ok(Some(_)) ==> {
                &&& run.after_block() is ReadReceipts
                &&& run.receipts matches Ok(Some(_)) ==> run.after_receipts() is CheckReceipts
            }
        },
{
}

/// The outcome of reading the receipts of a block, for everything that can come back: all receipts
/// that were read by the hash of its header, in order and unchanged, where they pass the check against
/// that header; none where the block is not known; and else the first error.
pub proof fn block_receipts_are_all_that_were_read<T, E>(
    header: BlockHeader,
    receipts: Vec<Receipt<T>>,
    error: E,
)
    ensures
        after_receipts_block::<T, E>(Ok(None)) == GetBlockReceipts::<T, E>::Done(Ok(None)),
        after_receipts_block::<T, E>(Err(error)) == GetBlockReceipts::<T, E>::Done(
            Err(ProviderError::Upstream(error)),
        ),
        after_receipts_block::<T, E>(Ok(Some(header))) matches GetBlockReceipts::ReadReceipts(step)
            && {
            &&& step.header == header
            &&& step.at matches BlockId::Hash { block_hash, require_canonical }
            &&& block_hash == header.hash
            &&& require_canonical is None
            &&& step.after::<T, E>(Ok(None)) == GetBlockReceipts::<T, E>::Done(
                Err(ProviderError::ReceiptFetchFailed),
            )
            &&& step.after::<T, E>(Err(error)) == GetBlockReceipts::<T, E>::Done(
                Err(ProviderError::Upstream(error)),
            )
            &&& step.after::<T, E>(Ok(Some(receipts))) matches GetBlockReceipts::CheckReceipts(last)
            &&& last.header == header
            &&& last.receipts == receipts
            &&& last.outcome::<E>(Ok(())) matches Ok(Some(all))
            &&& all@ == receipts@
            &&& last.outcome::<E>(Err(error)) == Err::<Option<Vec<Receipt<T>>>, ProviderError<E>>(
                ProviderError::Upstream(error),
            )
        },
{
}

} // verus!
