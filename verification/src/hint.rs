//! Collecting the accounts that a transaction is expected to touch.

use crate::account::AccountQuery;
use crate::blocks::{require_header, required_header};
use crate::types::{
    all_zero_bytes_are_the_zero_address, zero_address, Address, BlockHeader, BlockId, BlockRead,
    ProviderError, B256,
};
use vstd::prelude::*;

verus! {

/// An account in an access list, with the storage slots that are read from it.
#[derive(Debug, PartialEq, Eq)]
pub struct AccessListItem {
    pub address: Address,
    pub storage_keys: Vec<B256>,
}

// ---------- A map of accounts ----------

/// A map from addresses to accounts.
#[derive(Debug)]
pub struct AccountMap<A> {
    entries: Vec<(Address, A)>,
}

impl<A> View for AccountMap<A> {
    type V = Map<Address, A>;

    closed spec fn view(&self) -> Map<Address, A> {
        entry_map(self.entries@)
    }
}

/// Whether no address occurs twice in a list of entries.
spec fn no_address_twice<A>(entries: Seq<(Address, A)>) -> bool {
    forall|i: int, j: int|
        0 <= i < j < entries.len() ==> (#[trigger] entries[i]).0 != (#[trigger] entries[j]).0
}

/// What a list of entries holds under each address.
spec fn entry_map<A>(entries: Seq<(Address, A)>) -> Map<Address, A> {
    Map::new(
        |address: Address| exists|i: int|
            0 <= i < entries.len() && (#[trigger] entries[i]).0 == address,
        |address: Address| entries[choose|i: int|
            0 <= i < entries.len() && (#[trigger] entries[i]).0 == address].1,
    )
}

impl<A> AccountMap<A> {
    /// No address occurs twice.
    #[verifier::type_invariant]
    spec fn distinct(self) -> bool {
        no_address_twice(self.entries@)
    }

    /// An empty map.
    pub fn new() -> (res: Self)
        ensures
            res@ == Map::<Address, A>::empty(),
    {
        let res = AccountMap { entries: Vec::new() };
        proof {
            assert(res@ =~= Map::<Address, A>::empty());
        }
        res
    }

    /// Puts an account under an address, in place of the one that is there.
    pub fn insert(&mut self, address: Address, account: A)
        ensures
            final(self)@ == old(self)@.insert(address, account),
    {
        proof {
            use_type_invariant(&*self);
        }
        let mut entries: Vec<(Address, A)> = Vec::new();
        std::mem::swap(&mut entries, &mut self.entries);
        let ghost before = entries@;
        let mut i: usize = 0;
        while i < entries.len() && entries[i].0 != address
            invariant
                i <= entries.len(),
                entries@ == before,
                forall|j: int| 0 <= j < i ==> (#[trigger] before[j]).0 != address,
            decreases entries.len() - i,
        {
            i += 1;
        }
        if i < entries.len() {
            entries[i] = (address, account);
        } else {
            entries.push((address, account));
        }
        proof {
            let after = entries@;
            assert(after[i as int] == (address, account));
            assert(forall|j: int| 0 <= j < before.len() && j != i ==> after[j] == before[j]);
            lemma_entry_map_insert(before, after, i as int, address, account);
        }
        self.entries = entries;
    }

    /// The account under an address.
    pub fn get(&self, address: &Address) -> (res: Option<&A>)
        ensures
            res is Some <==> self@.contains_key(*address),
            res matches Some(account) ==> *account == self@[*address],
    {
        proof {
            use_type_invariant(self);
        }
        let mut i: usize = 0;
        while i < self.entries.len()
            invariant
                i <= self.entries.len(),
                no_address_twice(self.entries@),
                forall|j: int| 0 <= j < i ==> (#[trigger] self.entries@[j]).0 != *address,
            decreases self.entries.len() - i,
        {
            if self.entries[i].0 == *address {
                proof {
                    let k = choose|k: int|
                        0 <= k < self.entries@.len() && (#[trigger] self.entries@[k]).0 == *address;
                    assert(self.entries@[i as int].0 == *address);
                    assert(k == i);
                }
                return Some(&self.entries[i].1);
            }
            i += 1;
        }
        None
    }

    /// The entries of the map, each address once.
    pub fn into_entries(self) -> (res: Vec<(Address, A)>)
        ensures
            forall|i: int, j: int|
                0 <= i < j < res@.len() ==> (#[trigger] res@[i]).0 != (#[trigger] res@[j]).0,
            forall|address: Address| #[trigger]
                self@.contains_key(address) <==> exists|i: int|
                    0 <= i < res@.len() && (#[trigger] res@[i]).0 == address,
            forall|i: int|
                0 <= i < res@.len() ==> self@[(#[trigger] res@[i]).0] == res@[i].1,
    {
        proof {
            use_type_invariant(&self);
            assert forall|i: int| 0 <= i < self.entries@.len() implies self@[(
            #[trigger] self.entries@[i]).0] == self.entries@[i].1 by {
                let address = self.entries@[i].0;
                let k = choose|k: int|
                    0 <= k < self.entries@.len() && (#[trigger] self.entries@[k]).0 == address;
                assert(k == i);
            }
        }
        self.entries
    }
}

/// An entry put in the place of the one with its address, or at the end where there is none.
proof fn lemma_entry_map_insert<A>(
    before: Seq<(Address, A)>,
    after: Seq<(Address, A)>,
    i: int,
    address: Address,
    account: A,
)
    requires
        no_address_twice(before),
        0 <= i <= before.len(),
        i < before.len() ==> before[i].0 == address && after.len() == before.len(),
        i == before.len() ==> after.len() == before.len() + 1 && forall|j: int|
            0 <= j < i ==> (#[trigger] before[j]).0 != address,
        after[i] == (address, account),
        forall|j: int| 0 <= j < before.len() && j != i ==> #[trigger] after[j] == before[j],
    ensures
        no_address_twice(after),
        entry_map(after) == entry_map(before).insert(address, account),
{
    let old_map = entry_map(before);
    let new_map = entry_map(after);
    assert forall|j: int| 0 <= j < after.len() && j != i implies (#[trigger] after[j]).0 != address by {
        assert(after[j] == before[j]);
    }
    assert forall|j: int, k: int| 0 <= j < k < after.len() implies (#[trigger] after[j]).0 != (
    #[trigger] after[k]).0 by {
        if j != i && k != i {
            assert(before[j].0 != before[k].0);
        }
    }
    assert forall|a: Address| #[trigger]
        new_map.contains_key(a) <==> a == address || old_map.contains_key(a) by {
        if new_map.contains_key(a) && a != address {
            let j = choose|j: int| 0 <= j < after.len() && (#[trigger] after[j]).0 == a;
            assert(before[j].0 == a);
        }
        if old_map.contains_key(a) && a != address {
            let j = choose|j: int| 0 <= j < before.len() && (#[trigger] before[j]).0 == a;
            assert(after[j].0 == a);
        }
    }
    assert forall|a: Address| #[trigger] new_map.contains_key(a) implies new_map[a]
        == old_map.insert(address, account)[a] by {
        let j = choose|j: int| 0 <= j < after.len() && (#[trigger] after[j]).0 == a;
        if a != address {
            let k = choose|k: int| 0 <= k < before.len() && (#[trigger] before[k]).0 == a;
            assert(before[j].0 == a);
            assert(k == j);
        }
    }
    assert(new_map =~= old_map.insert(address, account));
}

// ---------- The list of accounts ----------

/// The addresses and slots of an access list.
pub open spec fn items(list: Seq<AccessListItem>) -> Seq<(Address, Seq<B256>)> {
    Seq::new(list.len(), |i: int| (list[i].address, list[i].storage_keys@))
}

/// Whether an address occurs in a list.
pub open spec fn lists(list: Seq<(Address, Seq<B256>)>, address: Address) -> bool {
    exists|i: int| 0 <= i < list.len() && (#[trigger] list[i]).0 == address
}

/// The list with an address in it: at the end and without slots, unless the address occurs already.
pub open spec fn with_address(list: Seq<(Address, Seq<B256>)>, address: Address) -> Seq<
    (Address, Seq<B256>),
> {
    if lists(list, address) {
        list
    } else {
        list.push((address, Seq::empty()))
    }
}

/// An address, or the zero address where there is none.
pub open spec fn or_zero(address: Option<Address>) -> Address {
    match address {
        Some(address) => address,
        None => zero_address(),
    }
}

/// The accounts to read for a transaction: those of its access list, then its sender, its receiver
/// and the producer of the block, as far as they are not listed already.
pub open spec fn accounts_to_read(
    list: Seq<(Address, Seq<B256>)>,
    from: Option<Address>,
    to: Option<Address>,
    producer: Address,
) -> Seq<(Address, Seq<B256>)> {
    with_address(with_address(with_address(list, or_zero(from)), or_zero(to)), producer)
}

fn add_address(list: &mut Vec<AccessListItem>, address: Address)
    ensures
        final(list)@.len() > 0,
        items(final(list)@) == with_address(items(old(list)@), address),
{
    let mut i: usize = 0;
    while i < list.len()
        invariant
            i <= list.len(),
            list@ == old(list)@,
            forall|j: int| 0 <= j < i ==> (#[trigger] items(list@)[j]).0 != address,
        decreases list.len() - i,
    {
        if list[i].address == address {
            proof {
                assert(items(list@)[i as int].0 == address);
            }
            return ;
        }
        i += 1;
    }
    let keys: Vec<B256> = Vec::new();
    proof {
        assert(keys@ =~= Seq::<B256>::empty());
    }
    list.push(AccessListItem { address, storage_keys: keys });
    proof {
        assert(items(list@) =~= items(old(list)@).push((address, Seq::empty())));
    }
}

// ---------- The query ----------

/// Which accounts to collect: those of a transaction from `from` to `to`, at a block, in batches.
#[derive(Clone, Copy, Debug, PartialEq, Eq)]
pub struct HintQuery {
    pub from: Option<Address>,
    pub to: Option<Address>,
    pub block_id: BlockId,
    pub batch_size: usize,
}

/// The block is read, for its header.
#[derive(Debug, PartialEq, Eq)]
pub struct ReadHintBlock {
    pub query: HintQuery,
    pub read: BlockRead,
}

/// The access list of the transaction is read from the upstream at the block `query.block_id`.
#[derive(Debug, PartialEq, Eq)]
pub struct ReadAccessList {
    pub query: HintQuery,
    pub producer: Address,
}

/// The accounts of the next batch are read, each as [`ReadAccounts::query_for`] says. All accounts
/// before `next` have been read.
#[derive(Debug)]
pub struct ReadAccounts<A> {
    pub query: HintQuery,
    pub list: Vec<AccessListItem>,
    pub next: usize,
    pub accounts: AccountMap<A>,
}

/// Where collecting accounts stands: what to do next, or the outcome.
#[derive(Debug)]
pub enum GetExecutionHint<A, E> {
    ReadAccessList(ReadAccessList),
    ReadAccounts(ReadAccounts<A>),
    Done(Result<AccountMap<A>, ProviderError<E>>),
}

/// The map with the accounts that came back for some addresses put in, one after the other, or the
/// first error among them.
pub open spec fn add_accounts<A, E>(
    accounts: Map<Address, A>,
    addresses: Seq<Address>,
    replies: Seq<Result<A, ProviderError<E>>>,
) -> Result<Map<Address, A>, ProviderError<E>>
    decreases replies.len(),
{
    if replies.len() == 0 {
        Ok(accounts)
    } else {
        match replies[0] {
            Err(e) => Err(e),
            Ok(account) => add_accounts(
                accounts.insert(addresses[0], account),
                addresses.drop_first(),
                replies.drop_first(),
            ),
        }
    }
}

/// The addresses of an access list.
pub open spec fn addresses(list: Seq<AccessListItem>) -> Seq<Address> {
    Seq::new(list.len(), |i: int| list[i].address)
}

/// The step after the block: the access list is read.
pub open spec fn after_hint_block<A, E>(
    query: HintQuery,
    block: Result<Option<BlockHeader>, E>,
) -> GetExecutionHint<A, E> {
    match required_header(block) {
        Err(e) => GetExecutionHint::Done(Err(e)),
        Ok(header) => GetExecutionHint::ReadAccessList(
            ReadAccessList { query, producer: header.beneficiary },
        ),
    }
}

/// Starts to collect the accounts of a transaction: the block `query.block_id` is read.
pub fn get_execution_hint(query: HintQuery) -> (res: ReadHintBlock)
    ensures
        res.query == query,
        res.read == BlockRead::of_header(query.block_id),
        res.read.block_id == query.block_id,
        !res.read.full_tx,
{
    ReadHintBlock { query, read: BlockRead::header(query.block_id) }
}

impl ReadHintBlock {
    /// Goes on with the block that was read.
    pub fn next<A, E>(self, block: Result<Option<BlockHeader>, E>) -> (res: GetExecutionHint<A, E>)
        ensures
            res == after_hint_block::<A, E>(self.query, block),
    {
        match require_header(block) {
            Err(e) => GetExecutionHint::Done(Err(e)),
            Ok(header) => GetExecutionHint::ReadAccessList(
                ReadAccessList { query: self.query, producer: header.beneficiary },
            ),
        }
    }
}

impl ReadAccessList {
    /// What follows the access list: the accounts to read, none of which has been read.
    pub open spec fn leads_to<A, E>(
        self,
        list: Result<Vec<AccessListItem>, E>,
        next: GetExecutionHint<A, E>,
    ) -> bool {
        match list {
            Err(e) => next == GetExecutionHint::<A, E>::Done(Err(ProviderError::Upstream(e))),
            Ok(list) => {
                &&& next matches GetExecutionHint::ReadAccounts(step)
                &&& step.well_formed()
                &&& step.query == self.query
                &&& items(step.list@) == accounts_to_read(
                    items(list@),
                    self.query.from,
                    self.query.to,
                    self.producer,
                )
                &&& step.next == 0
                &&& step.accounts@ == Map::<Address, A>::empty()
            },
        }
    }

    /// Goes on with the access list that was read. A batch has to hold at least one account.
    pub fn next<A, E>(self, list: Result<Vec<AccessListItem>, E>) -> (res: GetExecutionHint<A, E>)
        requires
            self.query.batch_size > 0,
        ensures
            self.leads_to(list, res),
    {
        match list {
            Err(e) => GetExecutionHint::Done(Err(ProviderError::Upstream(e))),
            Ok(list) => {
                let mut list = list;
                let from = match self.query.from {
                    Some(address) => address,
                    None => Address::zero(),
                };
                let to = match self.query.to {
                    Some(address) => address,
                    None => Address::zero(),
                };
                add_address(&mut list, from);
                add_address(&mut list, to);
                add_address(&mut list, self.producer);
                GetExecutionHint::ReadAccounts(
                    ReadAccounts {
                        query: self.query,
                        list,
                        next: 0,
                        accounts: AccountMap::new(),
                    },
                )
            },
        }
    }
}

/// Whether a query asks for an item of an access list: with its slots and its code, at a block.
pub open spec fn asks_for(query: AccountQuery, item: (Address, Seq<B256>), block_id: BlockId) -> bool {
    &&& query.address == item.0
    &&& query.slots@ == item.1
    &&& query.with_code
    &&& query.block_id == block_id
}

impl<A> ReadAccounts<A> {
    /// Whether there is a batch to read.
    pub open spec fn well_formed(self) -> bool {
        &&& self.query.batch_size > 0
        &&& self.next < self.list@.len()
    }

    /// Where the batch ends: after `batch_size` accounts, or with the list.
    pub open spec fn end(self) -> int {
        if self.next + self.query.batch_size < self.list@.len() {
            self.next + self.query.batch_size
        } else {
            self.list@.len() as int
        }
    }

    /// Where the batch ends.
    pub fn batch_end(&self) -> (res: usize)
        requires
            self.well_formed(),
        ensures
            res == self.end(),
            self.next < res <= self.list@.len(),
            res - self.next <= self.query.batch_size,
            res == self.list@.len() || res - self.next == self.query.batch_size,
    {
        if self.query.batch_size < self.list.len() - self.next {
            self.next + self.query.batch_size
        } else {
            self.list.len()
        }
    }

    /// How an account of the list is read: with its slots and its code, at the block of the query.
    pub fn query_for(&self, i: usize) -> (res: AccountQuery)
        requires
            i < self.list@.len(),
        ensures
            asks_for(res, items(self.list@)[i as int], self.query.block_id),
            res.address == self.list@[i as int].address,
            res.slots@ == self.list@[i as int].storage_keys@,
            res.with_code,
            res.block_id == self.query.block_id,
    {
        let slots = self.list[i].storage_keys.clone();
        proof {
            assert(slots@ =~= self.list@[i as int].storage_keys@);
        }
        AccountQuery {
            address: self.list[i].address,
            slots,
            with_code: true,
            block_id: self.query.block_id,
        }
    }

    /// What follows the accounts of the batch: the first error among them, or the next batch, or, at
    /// the end of the list, the accounts.
    pub open spec fn leads_to<E>(
        self,
        replies: Seq<Result<A, ProviderError<E>>>,
        next: GetExecutionHint<A, E>,
    ) -> bool {
        match add_accounts(
            self.accounts@,
            addresses(self.list@.subrange(self.next as int, self.end())),
            replies,
        ) {
            Err(e) => next == GetExecutionHint::<A, E>::Done(Err(e)),
            Ok(accounts) => if self.end() == self.list@.len() {
                &&& next matches GetExecutionHint::Done(Ok(map))
                &&& map@ == accounts
            } else {
                &&& next matches GetExecutionHint::ReadAccounts(step)
                &&& step.well_formed()
                &&& step.query == self.query
                &&& step.list == self.list
                &&& step.next == self.end()
                &&& step.accounts@ == accounts
            },
        }
    }

    /// Goes on with what came back for the accounts of the batch, in the order of the list.
    pub fn next<E>(self, replies: Vec<Result<A, ProviderError<E>>>) -> (res: GetExecutionHint<A, E>)
        requires
            self.well_formed(),
            replies@.len() == self.end() - self.next,
        ensures
            self.leads_to(replies@, res),
    {
        let end = self.batch_end();
        let ghost batch = addresses(self.list@.subrange(self.next as int, end as int));
        let query = self.query;
        let list = self.list;
        let start = self.next;
        let mut accounts = self.accounts;
        let mut i: usize = 0;
        proof {
            assert(replies@.skip(0) =~= replies@);
            assert(batch.skip(0) =~= batch);
        }
        for reply in iter: replies
            invariant
                iter.seq() == replies@,
                i == iter.index(),
                start == self.next,
                end == self.end(),
                start < end <= list@.len(),
                list == self.list,
                replies@.len() == end - start,
                batch == addresses(list@.subrange(start as int, end as int)),
                add_accounts(self.accounts@, batch, replies@) == add_accounts(
                    accounts@,
                    batch.skip(i as int),
                    replies@.skip(i as int),
                ),
        {
            proof {
                assert(reply == replies@[i as int]);
                assert(replies@.skip(i as int)[0] == replies@[i as int]);
                assert(replies@.skip(i as int).drop_first() =~= replies@.skip(i + 1));
                assert(batch.skip(i as int)[0] == list@[start + i].address);
                assert(batch.skip(i as int).drop_first() =~= batch.skip(i + 1));
            }
            match reply {
                Err(e) => {
                    return GetExecutionHint::Done(Err(e));
                },
                Ok(account) => {
                    accounts.insert(list[start + i].address, account);
                },
            }
            i += 1;
        }
        if end == list.len() {
            GetExecutionHint::Done(Ok(accounts))
        } else {
            GetExecutionHint::ReadAccounts(ReadAccounts { query, list, next: end, accounts })
        }
    }
}

// ---------- Laws ----------

/// The accounts to read begin with the access list as it came, and hold the sender, the receiver and
/// the producer of the block (or, for one that is missing, the zero address), and no other address.
/// What stands behind the access list has no slots, and an address that the list does not name.
pub proof fn accounts_to_read_extend_the_list(
    list: Seq<(Address, Seq<B256>)>,
    from: Option<Address>,
    to: Option<Address>,
    producer: Address,
)
    ensures
        list.is_prefix_of(accounts_to_read(list, from, to, producer)),
        forall|address: Address| #[trigger]
            lists(accounts_to_read(list, from, to, producer), address) <==> lists(list, address)
                || address == or_zero(from) || address == or_zero(to) || address == producer,
        forall|i: int|
            list.len() <= i < accounts_to_read(list, from, to, producer).len() ==> {
                &&& (#[trigger] accounts_to_read(list, from, to, producer)[i]).1.len() == 0
                &&& !lists(list, accounts_to_read(list, from, to, producer)[i].0)
            },
{
    let one = with_address(list, or_zero(from));
    let two = with_address(one, or_zero(to));
    with_address_adds_one(list, or_zero(from), or_zero(to));
    with_address_adds_one(list, or_zero(from), producer);
    with_address_adds_one(one, or_zero(to), producer);
    assert forall|address: Address| #[trigger]
        lists(accounts_to_read(list, from, to, producer), address) <==> lists(list, address)
            || address == or_zero(from) || address == or_zero(to) || address == producer by {
        with_address_adds_one(list, or_zero(from), address);
        with_address_adds_one(one, or_zero(to), address);
        with_address_adds_one(two, producer, address);
    }
}

proof fn with_address_adds_one(list: Seq<(Address, Seq<B256>)>, added: Address, address: Address)
    ensures
        lists(with_address(list, added), address) <==> lists(list, address) || address == added,
{
    let longer = list.push((added, Seq::empty()));
    if lists(list, address) {
        let i = choose|i: int| 0 <= i < list.len() && (#[trigger] list[i]).0 == address;
        assert(longer[i].0 == address);
    }
    if lists(longer, address) {
        let i = choose|i: int| 0 <= i < longer.len() && (#[trigger] longer[i]).0 == address;
        assert(i < list.len() ==> list[i].0 == address);
    }
    assert(longer[list.len() as int].0 == added);
}

/// No account is read twice for the sender, the receiver or the producer: where the access list names
/// no address twice, neither do the accounts to read.
pub proof fn accounts_to_read_are_distinct(
    list: Seq<(Address, Seq<B256>)>,
    from: Option<Address>,
    to: Option<Address>,
    producer: Address,
)
    requires
        forall|i: int, j: int|
            0 <= i < j < list.len() ==> (#[trigger] list[i]).0 != (#[trigger] list[j]).0,
    ensures
        forall|i: int, j: int|
            0 <= i < j < accounts_to_read(list, from, to, producer).len() ==> (
            #[trigger] accounts_to_read(list, from, to, producer)[i]).0 != (
            #[trigger] accounts_to_read(list, from, to, producer)[j]).0,
{
    let one = with_address(list, or_zero(from));
    assert(forall|i: int, j: int|
        0 <= i < j < one.len() ==> (#[trigger] one[i]).0 != (#[trigger] one[j]).0);
    let two = with_address(one, or_zero(to));
    assert(forall|i: int, j: int|
        0 <= i < j < two.len() ==> (#[trigger] two[i]).0 != (#[trigger] two[j]).0);
}

/// Two batches give what one batch of both gives: where the first holds an error, that error, and
/// otherwise what the second adds to the accounts of the first.
pub proof fn batches_add_up<A, E>(
    accounts: Map<Address, A>,
    first: Seq<Address>,
    second: Seq<Address>,
    first_replies: Seq<Result<A, ProviderError<E>>>,
    second_replies: Seq<Result<A, ProviderError<E>>>,
)
    requires
        first.len() == first_replies.len(),
    ensures
        add_accounts(accounts, first + second, first_replies + second_replies) == (
        match add_accounts(accounts, first, first_replies) {
            Err(e) => Err(e),
            Ok(between) => add_accounts(between, second, second_replies),
        }),
    decreases first_replies.len(),
{
    let replies = first_replies + second_replies;
    if first_replies.len() == 0 {
        assert(first + second =~= second);
        assert(replies =~= second_replies);
    } else {
        assert(replies[0] == first_replies[0]);
        assert((first + second)[0] == first[0]);
        assert((first + second).drop_first() =~= first.drop_first() + second);
        assert(replies.drop_first() =~= first_replies.drop_first() + second_replies);
        if let Ok(account) = first_replies[0] {
            batches_add_up(
                accounts.insert(first[0], account),
                first.drop_first(),
                second,
                first_replies.drop_first(),
                second_replies,
            );
        }
    }
}

/// The accounts are collected exactly if none of the replies is an error; each address of the list
/// then has an account, which is the last reply for it, and no other address has one. Otherwise the
/// outcome is the first error.
pub proof fn accounts_are_collected<A, E>(
    addresses: Seq<Address>,
    replies: Seq<Result<A, ProviderError<E>>>,
)
    requires
        addresses.len() == replies.len(),
    ensures
        match add_accounts(Map::<Address, A>::empty(), addresses, replies) {
            Ok(accounts) => {
                &&& forall|i: int| 0 <= i < replies.len() ==> #[trigger] replies[i] is Ok
                &&& forall|address: Address| #[trigger]
                    accounts.contains_key(address) <==> addresses.contains(address)
                &&& forall|i: int|
                    0 <= i < addresses.len() && (forall|j: int|
                        i < j < addresses.len() ==> addresses[j] != addresses[i])
                        ==> #[trigger] replies[i] == Ok::<A, ProviderError<E>>(
                        accounts[addresses[i]],
                    )
            },
            Err(e) => exists|i: int|
                0 <= i < replies.len() && #[trigger] replies[i] == Err::<A, ProviderError<E>>(e)
                    && forall|j: int| 0 <= j < i ==> #[trigger] replies[j] is Ok,
        },
{
    let start = Map::<Address, A>::empty();
    adding_accounts(start, addresses, replies);
    if let Ok(accounts) = add_accounts(start, addresses, replies) {
        assert forall|i: int|
            0 <= i < addresses.len() && (forall|j: int|
                i < j < addresses.len() ==> addresses[j] != addresses[i]) implies #[trigger] replies[i]
            == Ok::<A, ProviderError<E>>(accounts[addresses[i]]) by {
            let a1 = addresses.take(i);
            let a2 = addresses.skip(i + 1);
            let r1 = replies.take(i);
            let r2 = replies.skip(i + 1);
            assert(addresses =~= (a1 + seq![addresses[i]]) + a2);
            assert(replies =~= (r1 + seq![replies[i]]) + r2);
            batches_add_up(start, a1 + seq![addresses[i]], a2, r1 + seq![replies[i]], r2);
            batches_add_up(start, a1, seq![addresses[i]], r1, seq![replies[i]]);
            let between = add_accounts(start, a1, r1)->Ok_0;
            assert(seq![addresses[i]].drop_first() =~= Seq::<Address>::empty());
            assert(seq![replies[i]].drop_first() =~= Seq::<Result<A, ProviderError<E>>>::empty());
            reveal_with_fuel(add_accounts, 3);
            let account = replies[i]->Ok_0;
            let with = between.insert(addresses[i], account);
            assert(add_accounts(between, seq![addresses[i]], seq![replies[i]]) == Ok::<
                Map<Address, A>,
                ProviderError<E>,
            >(with));
            adding_accounts(with, a2, r2);
            assert(!a2.contains(addresses[i]));
        }
    }
}

proof fn adding_accounts<A, E>(
    start: Map<Address, A>,
    addresses: Seq<Address>,
    replies: Seq<Result<A, ProviderError<E>>>,
)
    requires
        addresses.len() == replies.len(),
    ensures
        match add_accounts(start, addresses, replies) {
            Ok(accounts) => {
                &&& forall|i: int| 0 <= i < replies.len() ==> #[trigger] replies[i] is Ok
                &&& forall|address: Address| #[trigger]
                    accounts.contains_key(address) <==> start.contains_key(address)
                        || addresses.contains(address)
                &&& forall|address: Address| !addresses.contains(address)
                    ==> #[trigger] accounts[address] == start[address]
            },
            Err(e) => exists|i: int|
                0 <= i < replies.len() && #[trigger] replies[i] == Err::<A, ProviderError<E>>(e)
                    && forall|j: int| 0 <= j < i ==> #[trigger] replies[j] is Ok,
        },
    decreases replies.len(),
{
    if replies.len() > 0 {
        if let Ok(account) = replies[0] {
            let next = start.insert(addresses[0], account);
            let rest = addresses.drop_first();
            let later = replies.drop_first();
            adding_accounts(next, rest, later);
            assert(addresses =~= seq![addresses[0]] + rest);
            assert forall|address: Address| #[trigger]
                addresses.contains(address) <==> address == addresses[0] || rest.contains(address) by {
                if addresses.contains(address) {
                    let i = choose|i: int| 0 <= i < addresses.len() && addresses[i] == address;
                    assert(i > 0 ==> rest[i - 1] == address);
                }
                if rest.contains(address) {
                    let i = choose|i: int| 0 <= i < rest.len() && rest[i] == address;
                    assert(addresses[i + 1] == address);
                }
            }
            match add_accounts(next, rest, later) {
                Ok(accounts) => {
                    assert forall|i: int| 0 <= i < replies.len() implies #[trigger] replies[i] is Ok by {
                        assert(i > 0 ==> later[i - 1] is Ok);
                    }
                    assert forall|address: Address|
                        !addresses.contains(address) implies #[trigger] accounts[address]
                        == start[address] by {
                        assert(!rest.contains(address));
                        assert(address != addresses[0]);
                    }
                },
                Err(e) => {
                    let i = choose|i: int|
                        0 <= i < later.len() && #[trigger] later[i] == Err::<A, ProviderError<E>>(e)
                            && forall|j: int| 0 <= j < i ==> #[trigger] later[j] is Ok;
                    assert(replies[i + 1] == Err::<A, ProviderError<E>>(e));
                    assert forall|j: int| 0 <= j < i + 1 implies #[trigger] replies[j] is Ok by {
                        assert(j > 0 ==> later[j - 1] is Ok);
                    }
                },
            }
        } else {
            assert(replies[0] == Err::<A, ProviderError<E>>(replies[0]->Err_0));
        }
    }
}

/// What came back for the batch of a step, among the replies for the whole list.
pub open spec fn batch_replies<A, E>(
    step: ReadAccounts<A>,
    replies: Seq<Result<A, ProviderError<E>>>,
) -> Seq<Result<A, ProviderError<E>>> {
    replies.subrange(step.next as int, step.end())
}

/// The size of the batches does not show in the outcome: batch by batch the accounts are collected, or
/// the first error found, as in one pass over the whole list.
pub proof fn batch_size_does_not_matter<A, E>(
    steps: Seq<ReadAccounts<A>>,
    replies: Seq<Result<A, ProviderError<E>>>,
    outcome: Result<AccountMap<A>, ProviderError<E>>,
)
    requires
        steps.len() > 0,
        steps[0].well_formed(),
        steps[0].next == 0,
        steps[0].accounts@ == Map::<Address, A>::empty(),
        replies.len() == steps[0].list@.len(),
        forall|i: int|
            0 <= i < steps.len() - 1 ==> (#[trigger] steps[i]).leads_to(
                batch_replies(steps[i], replies),
                GetExecutionHint::ReadAccounts(steps[i + 1]),
            ),
        steps.last().leads_to(
            batch_replies(steps.last(), replies),
            GetExecutionHint::Done(outcome),
        ),
    ensures
        match add_accounts(Map::<Address, A>::empty(), addresses(steps[0].list@), replies) {
            Err(e) => outcome == Err::<AccountMap<A>, ProviderError<E>>(e),
            Ok(accounts) => outcome matches Ok(map) && map@ == accounts,
        },
{
    let step = steps.last();
    let all = addresses(steps[0].list@);
    let end = step.end();
    batches_so_far(steps, replies, steps.len() - 1);
    batch_joins(step, replies);
    assert(all.len() == replies.len());
    if end == replies.len() {
        assert(all.take(end) =~= all);
        assert(replies.take(end) =~= replies);
    } else {
        error_stays(all, replies, end);
    }
}

/// The accounts up to the end of a batch are those before it and those of the batch.
#[verifier::spinoff_prover]
proof fn batch_joins<A, E>(step: ReadAccounts<A>, replies: Seq<Result<A, ProviderError<E>>>)
    requires
        step.well_formed(),
        replies.len() == step.list@.len(),
        add_accounts(
            Map::<Address, A>::empty(),
            addresses(step.list@).take(step.next as int),
            replies.take(step.next as int),
        ) == Ok::<Map<Address, A>, ProviderError<E>>(step.accounts@),
    ensures
        add_accounts(
            Map::<Address, A>::empty(),
            addresses(step.list@).take(step.end()),
            replies.take(step.end()),
        ) == add_accounts(
            step.accounts@,
            addresses(step.list@.subrange(step.next as int, step.end())),
            batch_replies(step, replies),
        ),
{
    let all = addresses(step.list@);
    let batch = addresses(step.list@.subrange(step.next as int, step.end()));
    let before = step.next as int;
    assert(all.take(step.end()) =~= all.take(before) + batch);
    assert(replies.take(step.end()) =~= replies.take(before) + batch_replies(step, replies));
    batches_add_up(
        Map::<Address, A>::empty(),
        all.take(before),
        batch,
        replies.take(before),
        batch_replies(step, replies),
    );
}

/// What comes behind an error does not matter.
proof fn error_stays<A, E>(
    all: Seq<Address>,
    replies: Seq<Result<A, ProviderError<E>>>,
    n: int,
)
    requires
        all.len() == replies.len(),
        0 <= n <= replies.len(),
        add_accounts(Map::<Address, A>::empty(), all.take(n), replies.take(n)) is Err,
    ensures
        add_accounts(Map::<Address, A>::empty(), all, replies) == add_accounts(
            Map::<Address, A>::empty(),
            all.take(n),
            replies.take(n),
        ),
{
    assert(all =~= all.take(n) + all.skip(n));
    assert(replies =~= replies.take(n) + replies.skip(n));
    batches_add_up(
        Map::<Address, A>::empty(),
        all.take(n),
        all.skip(n),
        replies.take(n),
        replies.skip(n),
    );
}

proof fn batches_so_far<A, E>(
    steps: Seq<ReadAccounts<A>>,
    replies: Seq<Result<A, ProviderError<E>>>,
    n: int,
)
    requires
        0 <= n < steps.len(),
        steps[0].well_formed(),
        steps[0].next == 0,
        steps[0].accounts@ == Map::<Address, A>::empty(),
        replies.len() == steps[0].list@.len(),
        forall|i: int|
            0 <= i < steps.len() - 1 ==> (#[trigger] steps[i]).leads_to(
                batch_replies(steps[i], replies),
                GetExecutionHint::ReadAccounts(steps[i + 1]),
            ),
    ensures
        steps[n].well_formed(),
        steps[n].list == steps[0].list,
        add_accounts(
            Map::<Address, A>::empty(),
            addresses(steps[0].list@).take(steps[n].next as int),
            replies.take(steps[n].next as int),
        ) == Ok::<Map<Address, A>, ProviderError<E>>(steps[n].accounts@),
    decreases n,
{
    if n > 0 {
        batches_so_far(steps, replies, n - 1);
        let step = steps[n - 1];
        assert(step.leads_to(
            batch_replies(step, replies),
            GetExecutionHint::ReadAccounts(steps[n - 1 + 1]),
        ));
        batch_joins(step, replies);
    }
}

/// Everything that comes back while the accounts of a transaction are collected, in any order of
/// success and failure, and the steps that it leads to. There is a reply for each account to read; the
/// ones behind a batch that fails have no part in it.
pub struct HintRun<A, E> {
    pub query: HintQuery,
    pub block: Result<Option<BlockHeader>, E>,
    pub list: Result<Vec<AccessListItem>, E>,
    pub after_list: GetExecutionHint<A, E>,
    pub steps: Seq<ReadAccounts<A>>,
    pub replies: Seq<Result<A, ProviderError<E>>>,
    pub outcome: Result<AccountMap<A>, ProviderError<E>>,
}

impl<A, E> HintRun<A, E> {
    /// Whether each step follows from the one before and from what came back for it. A run that is
    /// done stays as it is.
    pub open spec fn valid(self) -> bool {
        &&& match after_hint_block::<A, E>(self.query, self.block) {
            GetExecutionHint::ReadAccessList(step) => step.leads_to(self.list, self.after_list),
            done => self.after_list == done,
        }
        &&& match self.after_list {
            GetExecutionHint::ReadAccounts(first) => {
                &&& self.steps.len() > 0
                &&& self.steps[0] == first
                &&& self.replies.len() == first.list@.len()
                &&& forall|i: int|
                    0 <= i < self.steps.len() - 1 ==> (#[trigger] self.steps[i]).leads_to(
                        batch_replies(self.steps[i], self.replies),
                        GetExecutionHint::ReadAccounts(self.steps[i + 1]),
                    )
                &&& self.steps.last().leads_to(
                    batch_replies(self.steps.last(), self.replies),
                    GetExecutionHint::Done(self.outcome),
                )
            },
            done => done == GetExecutionHint::<A, E>::Done(self.outcome),
        }
    }

    /// The accounts to read, where the block is known and the access list was read.
    pub open spec fn items(self) -> Seq<(Address, Seq<B256>)> {
        accounts_to_read(
            items(self.list->Ok_0@),
            self.query.from,
            self.query.to,
            self.block->Ok_0->0.beneficiary,
        )
    }
}

/// Accounts come out exactly where the block is known, the access list was read, and no reply for an
/// account to read is an error. An error that comes out is the first one that was met.
pub proof fn hint_is_complete<A, E>(run: HintRun<A, E>)
    requires
        run.valid(),
    ensures
        match run.block {
            Err(e) => run.outcome == Err::<AccountMap<A>, ProviderError<E>>(
                ProviderError::Upstream(e),
            ),
            Ok(None) => run.outcome == Err::<AccountMap<A>, ProviderError<E>>(
                ProviderError::BlockNotFound,
            ),
            Ok(Some(_)) => match run.list {
                Err(e) => run.outcome == Err::<AccountMap<A>, ProviderError<E>>(
                    ProviderError::Upstream(e),
                ),
                Ok(_) => {
                    &&& run.replies.len() == run.items().len()
                    &&& run.outcome is Ok <==> forall|i: int|
                        0 <= i < run.replies.len() ==> #[trigger] run.replies[i] is Ok
                    &&& run.outcome matches Err(e) ==> exists|i: int|
                        0 <= i < run.replies.len() && #[trigger] run.replies[i] == Err::<
                            A,
                            ProviderError<E>,
                        >(e) && forall|j: int| 0 <= j < i ==> #[trigger] run.replies[j] is Ok
                },
            },
        },
{
    if run.block matches Ok(Some(_)) && run.list is Ok {
        batch_size_does_not_matter(run.steps, run.replies, run.outcome);
        let all = addresses(run.steps[0].list@);
        assert(run.items() == items(run.steps[0].list@));
        accounts_are_collected(all, run.replies);
    }
}

/// Where accounts come out, they are under the addresses to read and no others. Each is the reply for
/// one of the accounts to read: the last with its address, which is an entry of the access list where
/// the list names the address, and else an entry without slots.
pub proof fn hint_holds_the_last_replies<A, E>(
    run: HintRun<A, E>,
    accounts: AccountMap<A>,
    address: Address,
)
    requires
        run.valid(),
        run.outcome == Ok::<AccountMap<A>, ProviderError<E>>(accounts),
    ensures
        run.block matches Ok(Some(_)) && run.list matches Ok(list) && {
            &&& accounts@.contains_key(address) <==> lists(run.items(), address)
            &&& accounts@.contains_key(address) ==> exists|i: int|
                {
                    &&& 0 <= i < run.items().len()
                    &&& (#[trigger] run.items()[i]).0 == address
                    &&& run.replies[i] == Ok::<A, ProviderError<E>>(accounts@[address])
                    &&& forall|j: int|
                        i < j < run.items().len() ==> (#[trigger] run.items()[j]).0 != address
                    &&& if lists(items(list@), address) {
                        i < list@.len()
                    } else {
                        run.items()[i].1.len() == 0
                    }
                }
        },
{
    hint_is_complete(run);
    let first = run.steps[0];
    let all = addresses(first.list@);
    let listed = items(run.list->Ok_0@);
    let read = run.items();
    batch_size_does_not_matter(run.steps, run.replies, run.outcome);
    accounts_are_collected(all, run.replies);
    accounts_to_read_extend_the_list(
        listed,
        run.query.from,
        run.query.to,
        run.block->Ok_0->0.beneficiary,
    );
    assert(read == items(first.list@));
    assert(all.len() == read.len());
    assert forall|i: int| 0 <= i < all.len() implies #[trigger] all[i] == read[i].0 by {}
    if lists(read, address) {
        let k = choose|k: int| 0 <= k < read.len() && (#[trigger] read[k]).0 == address;
        assert(all[k] == address);
        let i = last_of(all, address, k);
        assert(read[i].0 == address);
        assert(run.replies[i] == Ok::<A, ProviderError<E>>(accounts@[all[i]]));
        assert forall|j: int| i < j < read.len() implies (#[trigger] read[j]).0 != address by {
            assert(all[j] != address);
        }
        if lists(listed, address) {
            assert(i >= listed.len() ==> !lists(listed, read[i].0));
        } else if i < listed.len() {
            assert(listed[i] == read[i]);
            assert(listed[i].0 == address);
        }
    } else if all.contains(address) {
        let k = choose|k: int| 0 <= k < all.len() && all[k] == address;
        assert(read[k].0 == address);
    }
}

/// The last place of an address that occurs in a list.
proof fn last_of(list: Seq<Address>, address: Address, k: int) -> (i: int)
    requires
        0 <= k < list.len(),
        list[k] == address,
    ensures
        k <= i < list.len(),
        list[i] == address,
        forall|j: int| i < j < list.len() ==> #[trigger] list[j] != address,
    decreases list.len() - k,
{
    if exists|j: int| k < j < list.len() && #[trigger] list[j] == address {
        let j = choose|j: int| k < j < list.len() && #[trigger] list[j] == address;
        last_of(list, address, j)
    } else {
        k
    }
}

/// Each account of a step is asked for by its own address and slots, always with its code, and at the
/// block of the query.
pub proof fn accounts_are_asked_for_with_their_code<A>(
    step: ReadAccounts<A>,
    i: int,
    query: AccountQuery,
)
    requires
        0 <= i < step.list@.len(),
        asks_for(query, items(step.list@)[i], step.query.block_id),
    ensures
        query.address == step.list@[i].address,
        query.slots@ == step.list@[i].storage_keys@,
        query.with_code,
        query.block_id == step.query.block_id,
{
}

/// A batch is not empty, stays within the list, and is as large as a batch may be unless it is the
/// last one.
pub proof fn batch_is_full_or_the_last<A>(step: ReadAccounts<A>)
    requires
        step.query.batch_size > 0,
        step.next < step.list@.len(),
    ensures
        step.well_formed(),
        step.next < step.end() <= step.list@.len(),
        step.end() - step.next <= step.query.batch_size,
        step.end() == step.list@.len() || step.end() - step.next == step.query.batch_size,
{
}

/// The access list is read for the query that was asked, and the producer is the beneficiary of the
/// block that was read.
pub proof fn producer_is_the_beneficiary_of_the_block<A, E>(
    query: HintQuery,
    header: BlockHeader,
    error: E,
)
    ensures
        after_hint_block::<A, E>(query, Ok(Some(header))) matches GetExecutionHint::ReadAccessList(
            step,
        ) && step.query == query && step.producer == header.beneficiary,
        after_hint_block::<A, E>(query, Ok(None)) == GetExecutionHint::<A, E>::Done(
            Err(ProviderError::BlockNotFound),
        ),
        after_hint_block::<A, E>(query, Err(error)) == GetExecutionHint::<A, E>::Done(
            Err(ProviderError::Upstream(error)),
        ),
{
}

/// The accounts that are read, where the block is known and the access list was read: first the
/// entries of the list, all of them, in order and with their slots. Then, without slots, the sender, the
/// receiver and the producer of the block, in this order and each only where its address has not
/// occurred. A sender or receiver that is missing is the address that is zero in every byte.
pub proof fn sender_receiver_and_producer_are_read<A, E>(
    run: HintRun<A, E>,
    list: Vec<AccessListItem>,
    producer: Address,
    from: Address,
    to: Address,
)
    requires
        run.valid(),
        run.list == Ok::<Vec<AccessListItem>, E>(list),
        run.block matches Ok(Some(header)) && header.beneficiary == producer,
        run.query.from matches Some(address) ==> address == from,
        run.query.from is None ==> forall|b: int| 0 <= b < 20 ==> #[trigger] from.0[b] == 0,
        run.query.to matches Some(address) ==> address == to,
        run.query.to is None ==> forall|b: int| 0 <= b < 20 ==> #[trigger] to.0[b] == 0,
    ensures
        run.after_list matches GetExecutionHint::ReadAccounts(step) && {
            &&& step.query == run.query
            &&& step.next == 0
            &&& list@.len() <= step.list@.len()
            &&& forall|i: int|
                0 <= i < list@.len() ==> (#[trigger] step.list@[i]).address == list@[i].address
                    && step.list@[i].storage_keys@ == list@[i].storage_keys@
            &&& forall|i: int|
                list@.len() <= i < step.list@.len() ==> (
                #[trigger] step.list@[i]).storage_keys@.len() == 0 && (step.list@[i].address == from
                    || step.list@[i].address == to || step.list@[i].address == producer)
            &&& forall|i: int, j: int|
                0 <= j < i && list@.len() <= i < step.list@.len() ==> (
                #[trigger] step.list@[i]).address != (#[trigger] step.list@[j]).address
            &&& forall|i: int, j: int|
                list@.len() <= i < j < step.list@.len() ==> ((#[trigger] step.list@[i]).address
                    == from || step.list@[i].address == to) && ((#[trigger] step.list@[j]).address
                    == to || step.list@[j].address == producer)
            &&& exists|i: int|
                0 <= i < step.list@.len() && (#[trigger] step.list@[i]).address == from
            &&& exists|i: int| 0 <= i < step.list@.len() && (#[trigger] step.list@[i]).address == to
            &&& exists|i: int|
                0 <= i < step.list@.len() && (#[trigger] step.list@[i]).address == producer
        },
{
    if run.query.from is None {
        all_zero_bytes_are_the_zero_address(from);
    }
    if run.query.to is None {
        all_zero_bytes_are_the_zero_address(to);
    }
    let step = run.after_list->ReadAccounts_0;
    let listed = items(list@);
    let read = items(step.list@);
    assert(step.list@.len() == read.len());
    assert(list@.len() == listed.len());
    assert(forall|i: int|
        0 <= i < read.len() ==> (#[trigger] step.list@[i]).address == read[i].0
            && step.list@[i].storage_keys@ == read[i].1);
    assert(forall|i: int|
        0 <= i < listed.len() ==> (#[trigger] listed[i]).0 == list@[i].address && listed[i].1
            == list@[i].storage_keys@);
    assert(read == accounts_to_read(listed, run.query.from, run.query.to, producer));
    lemma_three_more(listed, from, to, producer);
    assert forall|i: int| 0 <= i < list@.len() implies (#[trigger] step.list@[i]).address
        == list@[i].address && step.list@[i].storage_keys@ == list@[i].storage_keys@ by {
        assert(read[i] == listed[i]);
    }
    let a = choose|i: int| 0 <= i < read.len() && (#[trigger] read[i]).0 == from;
    assert(step.list@[a].address == from);
    let b = choose|i: int| 0 <= i < read.len() && (#[trigger] read[i]).0 == to;
    assert(step.list@[b].address == to);
    let c = choose|i: int| 0 <= i < read.len() && (#[trigger] read[i]).0 == producer;
    assert(step.list@[c].address == producer);
}

/// A list to which three addresses are added.
proof fn lemma_three_more(
    list: Seq<(Address, Seq<B256>)>,
    from: Address,
    to: Address,
    producer: Address,
)
    ensures
        ({
            let all = with_address(with_address(with_address(list, from), to), producer);
            &&& list.is_prefix_of(all)
            &&& forall|i: int| 0 <= i < list.len() ==> #[trigger] all[i] == list[i]
            &&& forall|i: int|
                list.len() <= i < all.len() ==> (#[trigger] all[i]).1.len() == 0 && (all[i].0 == from
                    || all[i].0 == to || all[i].0 == producer)
            &&& forall|i: int, j: int|
                0 <= j < i && list.len() <= i < all.len() ==> (#[trigger] all[i]).0 != (
                #[trigger] all[j]).0
            &&& forall|i: int, j: int|
                list.len() <= i < j < all.len() ==> ((#[trigger] all[i]).0 == from || all[i].0 == to)
                    && ((#[trigger] all[j]).0 == to || all[j].0 == producer)
            &&& lists(all, from)
            &&& lists(all, to)
            &&& lists(all, producer)
        }),
{
    let one = with_address(list, from);
    let two = with_address(one, to);
    with_address_adds_one(list, from, from);
    with_address_adds_one(one, to, from);
    with_address_adds_one(one, to, to);
    with_address_adds_one(two, producer, from);
    with_address_adds_one(two, producer, to);
    with_address_adds_one(two, producer, producer);
}

/// Where accounts come out, each address that was read has one and no other address has: it is the
/// reply for the last account that was read under that address.
pub proof fn each_address_has_the_account_read_for_it<A, E>(
    run: HintRun<A, E>,
    accounts: AccountMap<A>,
    address: Address,
)
    requires
        run.valid(),
        run.outcome == Ok::<AccountMap<A>, ProviderError<E>>(accounts),
    ensures
        run.after_list matches GetExecutionHint::ReadAccounts(first) && {
            &&& run.replies.len() == first.list@.len()
            &&& accounts@.contains_key(address) <==> exists|i: int|
                0 <= i < first.list@.len() && (#[trigger] first.list@[i]).address == address
            &&& accounts@.contains_key(address) ==> exists|i: int|
                {
                    &&& 0 <= i < first.list@.len()
                    &&& (#[trigger] first.list@[i]).address == address
                    &&& run.replies[i] == Ok::<A, ProviderError<E>>(accounts@[address])
                    &&& forall|j: int|
                        i < j < first.list@.len() ==> (#[trigger] first.list@[j]).address != address
                }
        },
{
    hint_is_complete(run);
    let first = run.steps[0];
    let all = addresses(first.list@);
    batch_size_does_not_matter(run.steps, run.replies, run.outcome);
    accounts_are_collected(all, run.replies);
    assert(forall|i: int|
        0 <= i < first.list@.len() ==> (#[trigger] first.list@[i]).address == all[i]);
    if accounts@.contains_key(address) {
        let k = choose|k: int| 0 <= k < all.len() && all[k] == address;
        let i = last_of(all, address, k);
        assert(first.list@[i].address == address);
        assert(run.replies[i] == Ok::<A, ProviderError<E>>(accounts@[all[i]]));
    }
    if exists|i: int|
        0 <= i < first.list@.len() && (#[trigger] first.list@[i]).address == address {
        let i = choose|i: int|
            0 <= i < first.list@.len() && (#[trigger] first.list@[i]).address == address;
        assert(all[i] == address);
    }
}

/// The addresses of an access list are those of its entries at the same place.
pub proof fn addresses_keep_their_place(list: Seq<AccessListItem>)
    ensures
        addresses(list).len() == list.len(),
        forall|i: int| 0 <= i < list.len() ==> #[trigger] addresses(list)[i] == list[i].address,
        items(list).len() == list.len(),
        forall|i: int|
            0 <= i < list.len() ==> (#[trigger] items(list)[i]).0 == list[i].address
                && items(list)[i].1 == list[i].storage_keys@,
{
}

} // verus!
