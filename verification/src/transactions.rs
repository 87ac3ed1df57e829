//! Finding transactions in verified blocks.

use crate::types::{BlockId, BlockRead, ProviderError, B256};
use vstd::prelude::*;

verus! {

/// A transaction: its hash, the block it is said to be in, and everything else unread.
#[derive(Debug, PartialEq, Eq)]
pub struct Transaction<T> {
    pub hash: B256,
    pub block_hash: Option<B256>,
    pub body: T,
}

/// The transactions of a block, as far as they were asked for.
#[derive(Debug, PartialEq, Eq)]
pub enum BlockTransactions<T> {
    Full(Vec<Transaction<T>>),
    Hashes(Vec<B256>),
    Uncle,
}

impl<T> BlockTransactions<T> {
    /// The full transactions of the block; none where only hashes were asked for.
    pub open spec fn transactions(self) -> Seq<Transaction<T>> {
        match self {
            BlockTransactions::Full(transactions) => transactions@,
            _ => Seq::empty(),
        }
    }

    /// The full transactions of the block.
    pub fn into_transactions_vec(self) -> (res: Vec<Transaction<T>>)
        ensures
            res@ == self.transactions(),
            self matches BlockTransactions::Full(transactions) ==> res@ == transactions@,
            !(self is Full) ==> res@.len() == 0,
    {
        match self {
            BlockTransactions::Full(transactions) => transactions,
            _ => Vec::new(),
        }
    }
}

/// The first of some transactions that has the given hash.
pub open spec fn first_with_hash<T>(transactions: Seq<Transaction<T>>, hash: B256) -> Option<
    Transaction<T>,
>
    decreases transactions.len(),
{
    if transactions.len() == 0 {
        None
    } else if transactions[0].hash == hash {
        Some(transactions[0])
    } else {
        first_with_hash(transactions.drop_first(), hash)
    }
}

/// Finds the first of some transactions that has the given hash.
fn find_transaction<T>(list: Vec<Transaction<T>>, hash: &B256) -> (res: Option<Transaction<T>>)
    ensures
        res == first_with_hash(list@, *hash),
{
    let ghost all = list@;
    let mut transactions = list;
    let mut i: usize = 0;
    proof {
        assert(all.skip(0) =~= all);
    }
    while i < transactions.len()
        invariant
            i <= transactions.len(),
            transactions@ == all,
            all == list@,
            first_with_hash(all, *hash) == first_with_hash(all.skip(i as int), *hash),
        decreases transactions.len() - i,
    {
        proof {
            assert(all.skip(i as int)[0] == all[i as int]);
            assert(all.skip(i as int).drop_first() =~= all.skip(i + 1));
        }
        if transactions[i].hash == *hash {
            return Some(transactions.swap_remove(i));
        }
        i += 1;
    }
    None
}

/// The transaction `hash` is read from the upstream.
#[derive(Debug, PartialEq, Eq)]
pub struct ReadTransaction {
    pub hash: B256,
}

/// The block is read to find the transaction `hash` in it.
#[derive(Debug, PartialEq, Eq)]
pub struct ReadTransactionBlock {
    pub hash: B256,
    pub read: BlockRead,
}

/// The block is read to find the transaction at the place `index` in it.
#[derive(Debug, PartialEq, Eq)]
pub struct ReadLocationBlock {
    pub index: u64,
    pub read: BlockRead,
}

/// Where finding a transaction by hash stands once the upstream has answered for it.
#[derive(Debug, PartialEq, Eq)]
pub enum GetTransaction<T, E> {
    ReadBlock(ReadTransactionBlock),
    Done(Result<Option<Transaction<T>>, ProviderError<E>>),
}

/// What follows the transaction that the upstream returned: where there is one, the block that it is
/// said to be in is read, and it is looked for there under its own hash.
pub open spec fn after_transaction<T, E>(reply: Result<Option<Transaction<T>>, E>) -> GetTransaction<
    T,
    E,
> {
    match reply {
        Err(e) => GetTransaction::Done(Err(ProviderError::Upstream(e))),
        Ok(None) => GetTransaction::Done(Ok(None)),
        Ok(Some(transaction)) => match transaction.block_hash {
            None => GetTransaction::Done(Err(ProviderError::BlockNotFound)),
            Some(block_hash) => GetTransaction::ReadBlock(
                ReadTransactionBlock {
                    hash: transaction.hash,
                    read: BlockRead::of_transactions(BlockId::at_hash(block_hash)),
                },
            ),
        },
    }
}

/// Starts to find a transaction by hash.
pub fn get_transaction(hash: B256) -> (res: ReadTransaction)
    ensures
        res.hash == hash,
{
    ReadTransaction { hash }
}

impl ReadTransaction {
    /// Goes on with what the upstream returned.
    pub fn next<T, E>(self, reply: Result<Option<Transaction<T>>, E>) -> (res: GetTransaction<T, E>)
        ensures
            res == after_transaction(reply),
    {
        match reply {
            Err(e) => GetTransaction::Done(Err(ProviderError::Upstream(e))),
            Ok(None) => GetTransaction::Done(Ok(None)),
            Ok(Some(transaction)) => match transaction.block_hash {
                None => GetTransaction::Done(Err(ProviderError::BlockNotFound)),
                Some(block_hash) => GetTransaction::ReadBlock(
                    ReadTransactionBlock {
                        hash: transaction.hash,
                        read: BlockRead::transactions(BlockId::from_hash(block_hash)),
                    },
                ),
            },
        }
    }
}

impl ReadTransactionBlock {
    /// The outcome, given the block: the first of its transactions with the hash, if any.
    pub open spec fn outcome<T, E>(self, block: Result<Option<BlockTransactions<T>>, E>) -> Result<
        Option<Transaction<T>>,
        ProviderError<E>,
    > {
        match block {
            Err(e) => Err(ProviderError::Upstream(e)),
            Ok(None) => Err(ProviderError::BlockNotFound),
            Ok(Some(block)) => Ok(first_with_hash(block.transactions(), self.hash)),
        }
    }

    /// Finds the transaction in the block that was read.
    pub fn next<T, E>(self, block: Result<Option<BlockTransactions<T>>, E>) -> (res: Result<
        Option<Transaction<T>>,
        ProviderError<E>,
    >)
        ensures
            res == self.outcome(block),
    {
        match block {
            Err(e) => Err(ProviderError::Upstream(e)),
            Ok(None) => Err(ProviderError::BlockNotFound),
            Ok(Some(block)) => Ok(find_transaction(block.into_transactions_vec(), &self.hash)),
        }
    }
}

/// The transaction at a place in a block, given the block with full transactions; nothing past the
/// end. The place is taken as the machine's index.
pub open spec fn transaction_at<T, E>(
    block: Result<Option<BlockTransactions<T>>, E>,
    index: u64,
) -> Result<Option<Transaction<T>>, ProviderError<E>> {
    match block {
        Err(e) => Err(ProviderError::Upstream(e)),
        Ok(None) => Err(ProviderError::BlockNotFound),
        Ok(Some(block)) => if (index as usize) < block.transactions().len() {
            Ok(Some(block.transactions()[index as usize as int]))
        } else {
            Ok(None)
        },
    }
}

/// Starts to find the transaction at a place in a block.
pub fn get_transaction_by_location(block_id: BlockId, index: u64) -> (res: ReadLocationBlock)
    ensures
        res.index == index,
        res.read == BlockRead::of_transactions(block_id),
        res.read.block_id == block_id,
        res.read.full_tx,
{
    ReadLocationBlock { index, read: BlockRead::transactions(block_id) }
}

impl ReadLocationBlock {
    /// Finds the transaction in the block that was read.
    pub fn next<T, E>(self, block: Result<Option<BlockTransactions<T>>, E>) -> (res: Result<
        Option<Transaction<T>>,
        ProviderError<E>,
    >)
        ensures
            res == transaction_at(block, self.index),
            block matches Ok(Some(BlockTransactions::Full(transactions))) ==> {
                &&& self.index < transactions@.len() ==> res == Ok::<
                    Option<Transaction<T>>,
                    ProviderError<E>,
                >(Some(transactions@[self.index as int]))
                &&& transactions@.len() <= self.index <= usize::MAX ==> res == Ok::<
                    Option<Transaction<T>>,
                    ProviderError<E>,
                >(None)
            },
            block matches Ok(Some(found)) && !(found is Full) ==> res == Ok::<
                Option<Transaction<T>>,
                ProviderError<E>,
            >(None),
            block matches Ok(None) ==> res == Err::<Option<Transaction<T>>, ProviderError<E>>(
                ProviderError::BlockNotFound,
            ),
            block matches Err(e) ==> res == Err::<Option<Transaction<T>>, ProviderError<E>>(
                ProviderError::Upstream(e),
            ),
    {
        match block {
            Err(e) => Err(ProviderError::Upstream(e)),
            Ok(None) => Err(ProviderError::BlockNotFound),
            Ok(Some(block)) => {
                let mut transactions = block.into_transactions_vec();
                let place: usize = self.index as usize;
                if place < transactions.len() {
                    Ok(Some(transactions.swap_remove(place)))
                } else {
                    Ok(None)
                }
            },
        }
    }
}

/// A transaction found by hash stands in the verified block that the upstream named, and has the hash
/// of the transaction that the upstream returned.
pub proof fn found_transaction_is_in_its_block<T, E>(
    reply: Result<Option<Transaction<T>>, E>,
    block: Result<Option<BlockTransactions<T>>, E>,
)
    ensures
        after_transaction(reply) matches GetTransaction::ReadBlock(step) ==> {
            &&& reply matches Ok(Some(claimed))
            &&& claimed.block_hash matches Some(block_hash)
            &&& step.read == BlockRead::of_transactions(BlockId::at_hash(block_hash))
            &&& step.outcome(block) matches Ok(Some(found)) ==> {
                &&& found.hash == claimed.hash
                &&& block matches Ok(Some(transactions))
                &&& transactions.transactions().contains(found)
            }
        },
{
    if let GetTransaction::ReadBlock(step) = after_transaction(reply) {
        if let Ok(Some(transactions)) = block {
            first_with_hash_is_found(transactions.transactions(), step.hash);
        }
    }
}

/// The first transaction with a hash is one of the transactions, has the hash, and none before it does;
/// and there is one exactly where some transaction has the hash.
pub proof fn first_with_hash_is_found<T>(transactions: Seq<Transaction<T>>, hash: B256)
    ensures
        first_with_hash(transactions, hash) is None <==> forall|i: int|
            0 <= i < transactions.len() ==> (#[trigger] transactions[i]).hash != hash,
        first_with_hash(transactions, hash) matches Some(found) ==> found.hash == hash && exists|
            i: int,
        |
            0 <= i < transactions.len() && #[trigger] transactions[i] == found && forall|j: int|
                0 <= j < i ==> (#[trigger] transactions[j]).hash != hash,
    decreases transactions.len(),
{
    if transactions.len() > 0 {
        let rest = transactions.drop_first();
        first_with_hash_is_found(rest, hash);
        if transactions[0].hash == hash {
            assert(transactions[0] == first_with_hash(transactions, hash)->0);
        } else {
            match first_with_hash(rest, hash) {
                None => {
                    assert forall|i: int| 0 <= i < transactions.len() implies (
                    #[trigger] transactions[i]).hash != hash by {
                        assert(i > 0 ==> rest[i - 1].hash != hash);
                    }
                },
                Some(found) => {
                    let i = choose|i: int|
                        0 <= i < rest.len() && #[trigger] rest[i] == found && forall|j: int|
                            0 <= j < i ==> (#[trigger] rest[j]).hash != hash;
                    assert(transactions[i + 1] == found);
                    assert forall|j: int| 0 <= j < i + 1 implies (#[trigger] transactions[j]).hash
                        != hash by {
                        assert(j > 0 ==> rest[j - 1].hash != hash);
                    }
                },
            }
        }
    }
}

/// The transaction at a place is the one that stands there in the block: for every place within the
/// block that one and no other, and none for a place behind it that the machine can index.
pub proof fn place_in_the_block_decides<T, E>(transactions: Vec<Transaction<T>>, index: u64)
    ensures
        index < transactions@.len() ==> transaction_at::<T, E>(
            Ok(Some(BlockTransactions::Full(transactions))),
            index,
        ) == Ok::<Option<Transaction<T>>, ProviderError<E>>(Some(transactions@[index as int])),
        transactions@.len() <= index <= usize::MAX ==> transaction_at::<T, E>(
            Ok(Some(BlockTransactions::Full(transactions))),
            index,
        ) == Ok::<Option<Transaction<T>>, ProviderError<E>>(None),
{
    assert(transactions@.len() == transactions.len());
}

/// A block without full transactions has none at any place; a block that is not known, and an error of
/// reading it, are the outcome at every place.
pub proof fn no_transactions_at_any_place<T, E>(hashes: Vec<B256>, error: E, index: u64)
    ensures
        transaction_at::<T, E>(Ok(Some(BlockTransactions::Hashes(hashes))), index) == Ok::<
            Option<Transaction<T>>,
            ProviderError<E>,
        >(None),
        transaction_at::<T, E>(Ok(Some(BlockTransactions::Uncle)), index) == Ok::<
            Option<Transaction<T>>,
            ProviderError<E>,
        >(None),
        transaction_at::<T, E>(Ok(None), index) == Err::<Option<Transaction<T>>, ProviderError<E>>(
            ProviderError::BlockNotFound,
        ),
        transaction_at::<T, E>(Err(error), index) == Err::<
            Option<Transaction<T>>,
            ProviderError<E>,
        >(ProviderError::Upstream(error)),
{
}

/// A block holds all the full transactions that came with it, in order, and none where only hashes
/// came.
pub proof fn block_holds_all_its_transactions<T>(
    transactions: Vec<Transaction<T>>,
    hashes: Vec<B256>,
)
    ensures
        BlockTransactions::Full(transactions).transactions() == transactions@,
        BlockTransactions::<T>::Hashes(hashes).transactions().len() == 0,
        BlockTransactions::<T>::Uncle.transactions().len() == 0,
{
}

/// What the upstream returned decides only where to look: under its own hash, in the block that it
/// names, by the hash of the block and with full transactions. Without a block there is an error, and
/// without a transaction there is none.
pub proof fn returned_transaction_says_where_to_look<T, E>(claimed: Transaction<T>, error: E)
    ensures
        claimed.block_hash matches Some(named) ==> {
            &&& after_transaction::<T, E>(Ok(Some(claimed))) matches GetTransaction::ReadBlock(step)
            &&& step.hash == claimed.hash
            &&& step.read.full_tx
            &&& step.read.block_id matches BlockId::Hash { block_hash, require_canonical }
            &&& block_hash == named
            &&& require_canonical is None
        },
        claimed.block_hash is None ==> after_transaction::<T, E>(Ok(Some(claimed)))
            == GetTransaction::<T, E>::Done(Err(ProviderError::BlockNotFound)),
        after_transaction::<T, E>(Ok(None)) == GetTransaction::<T, E>::Done(Ok(None)),
        after_transaction::<T, E>(Err(error)) == GetTransaction::<T, E>::Done(
            Err(ProviderError::Upstream(error)),
        ),
{
}

/// The transaction found in a block with full transactions is the first one there with the hash; none
/// is found exactly where no transaction there has it.
pub proof fn transaction_is_looked_for_in_the_whole_block<T, E>(
    step: ReadTransactionBlock,
    transactions: Vec<Transaction<T>>,
    error: E,
)
    ensures
        match step.outcome::<T, E>(Ok(Some(BlockTransactions::Full(transactions)))) {
            Ok(Some(found)) => exists|i: int|
                0 <= i < transactions@.len() && #[trigger] transactions@[i] == found && found.hash
                    == step.hash && forall|j: int|
                    0 <= j < i ==> (#[trigger] transactions@[j]).hash != step.hash,
            Ok(None) => forall|i: int|
                0 <= i < transactions@.len() ==> (#[trigger] transactions@[i]).hash != step.hash,
            Err(_) => false,
        },
        step.outcome::<T, E>(Ok(Some(BlockTransactions::Uncle))) == Ok::<
            Option<Transaction<T>>,
            ProviderError<E>,
        >(None),
        forall|hashes: Vec<B256>| #[trigger]
            step.outcome::<T, E>(Ok(Some(BlockTransactions::Hashes(hashes)))) == Ok::<
                Option<Transaction<T>>,
                ProviderError<E>,
            >(None),
        step.outcome::<T, E>(Ok(None)) == Err::<Option<Transaction<T>>, ProviderError<E>>(
            ProviderError::BlockNotFound,
        ),
        step.outcome::<T, E>(Err(error)) == Err::<Option<Transaction<T>>, ProviderError<E>>(
            ProviderError::Upstream(error),
        ),
{
    first_with_hash_is_found(transactions@, step.hash);
}

} // verus!
