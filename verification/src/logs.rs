//! Verifying logs from the upstream against proven receipts.

use crate::blocks::{require_header, required_header};
use crate::crypto::{encode_log, rlp_decoded_log, rlp_log, word_bytes};
use crate::types::{Address, BlockHeader, ProviderError, B256};
use std::collections::HashSet;
use vstd::prelude::*;

verus! {

/// A log: what it says, and where it is said to stand.
#[derive(Debug, PartialEq, Eq)]
pub struct Log {
    pub address: Address,
    pub topics: Vec<B256>,
    pub data: Vec<u8>,
    pub block_number: Option<u64>,
    pub transaction_hash: Option<B256>,
    pub log_index: Option<u64>,
}

/// The logs of a proven receipt.
#[derive(Debug, PartialEq, Eq)]
pub struct ReceiptLogs {
    pub logs: Vec<Log>,
}

impl Log {
    /// The RLP form of what the log says; where it stands is not part of it.
    pub open spec fn form(self) -> Seq<u8> {
        rlp_log(self.address.0@, word_bytes(self.topics@), self.data@)
    }

    /// Whether two logs say the same: address, topics and data.
    pub open spec fn says_same(self, other: Log) -> bool {
        &&& self.address == other.address
        &&& self.topics@ == other.topics@
        &&& self.data@ == other.data@
    }

    /// Whether what the log says can be read back from its form.
    spec fn readable(self) -> bool {
        rlp_decoded_log(self.form()) == (
            self.address.0@,
            word_bytes(self.topics@),
            self.data@,
        )
    }

    fn encode(&self) -> (res: Vec<u8>)
        ensures
            res@ == self.form(),
            self.readable(),
    {
        encode_log(&self.address, &self.topics, &self.data)
    }
}

// ---------- The blocks to read receipts of ----------

/// Whether the receipts of a block are needed: some log is said to stand in it, and it is not newer
/// than the latest block.
pub open spec fn block_needed(logs: Seq<Log>, latest: u64, number: u64) -> bool {
    number <= latest && exists|i: int|
        0 <= i < logs.len() && (#[trigger] logs[i]).block_number == Some(number)
}

/// Whether a list names every block that is needed, no other, and none twice. The order is open.
pub open spec fn names_needed_blocks(numbers: Seq<u64>, logs: Seq<Log>, latest: u64) -> bool {
    &&& numbers.no_duplicates()
    &&& forall|number: u64| #[trigger]
        numbers.contains(number) <==> block_needed(logs, latest, number)
}

fn needed_blocks(logs: &Vec<Log>, latest: u64) -> (res: Vec<u64>)
    ensures
        names_needed_blocks(res@, logs@, latest),
{
    let mut numbers: Vec<u64> = Vec::new();
    let mut listed: HashSet<u64> = HashSet::new();
    let mut i: usize = 0;
    proof {
        assert(names_needed_blocks(numbers@, logs@.take(0), latest));
    }
    while i < logs.len()
        invariant
            i <= logs.len(),
            names_needed_blocks(numbers@, logs@.take(i as int), latest),
            forall|number: u64| #[trigger]
                listed@.contains(number) <==> numbers@.contains(number),
        decreases logs.len() - i,
    {
        let ghost before = numbers@;
        let ghost seen = logs@.take(i as int);
        let ghost more = logs@.take(i + 1);
        proof {
            assert(forall|j: int| 0 <= j < i ==> more[j] == seen[j]);
            assert(more[i as int] == logs[i as int]);
        }
        if let Some(number) = logs[i].block_number {
            if number <= latest && listed.insert(number) {
                numbers.push(number);
            }
        }
        proof {
            assert forall|number: u64| #[trigger]
                listed@.contains(number) <==> numbers@.contains(number) by {
                assert(before.contains(number) ==> numbers@.contains(number)) by {
                    if before.contains(number) {
                        let j = choose|j: int| 0 <= j < before.len() && before[j] == number;
                        assert(numbers@[j] == number);
                    }
                }
                if numbers@.len() > before.len() {
                    assert(numbers@[before.len() as int] == numbers@.last());
                }
            }
            assert forall|number: u64| #[trigger]
                numbers@.contains(number) <==> block_needed(more, latest, number) by {
                if before.contains(number) {
                    let j = choose|j: int| 0 <= j < before.len() && before[j] == number;
                    assert(numbers@[j] == number);
                    assert(block_needed(seen, latest, number));
                    let k = choose|k: int|
                        0 <= k < seen.len() && (#[trigger] seen[k]).block_number == Some(number);
                    assert(more[k].block_number == Some(number));
                } else if numbers@.contains(number) {
                    assert(numbers@.last() == number);
                    assert(more[i as int].block_number == Some(number));
                } else if block_needed(more, latest, number) {
                    let k = choose|k: int|
                        0 <= k < more.len() && (#[trigger] more[k]).block_number == Some(number);
                    if k < i {
                        assert(seen[k].block_number == Some(number));
                        assert(block_needed(seen, latest, number));
                    } else {
                        assert(numbers@.last() == number);
                    }
                }
            }
        }
        i += 1;
    }
    proof {
        assert(logs@.take(logs.len() as int) =~= logs@);
    }
    numbers
}

/// The blocks whose receipts are needed to verify some logs, given the latest block, which has to be
/// known.
pub fn blocks_to_verify<E>(logs: &Vec<Log>, latest: Result<Option<BlockHeader>, E>) -> (res: Result<
    Vec<u64>,
    ProviderError<E>,
>)
    ensures
        match required_header(latest) {
            Err(e) => res == Err::<Vec<u64>, ProviderError<E>>(e),
            Ok(header) => res matches Ok(numbers) && names_needed_blocks(
                numbers@,
                logs@,
                header.number,
            ),
        },
{
    match require_header(latest) {
        Err(e) => Err(e),
        Ok(header) => Ok(needed_blocks(logs, header.number)),
    }
}

// ---------- The forms that the receipts list ----------

/// The receipts that came back for a list of blocks, in order. A block that is not known brings none.
pub open spec fn all_receipts(replies: Seq<Option<Vec<ReceiptLogs>>>) -> Seq<ReceiptLogs>
    decreases replies.len(),
{
    if replies.len() == 0 {
        Seq::empty()
    } else {
        all_receipts(replies.drop_last()) + match replies.last() {
            Some(receipts) => receipts@,
            None => Seq::empty(),
        }
    }
}

/// The forms of some logs.
pub open spec fn forms(logs: Seq<Log>) -> Seq<Seq<u8>> {
    Seq::new(logs.len(), |i: int| logs[i].form())
}

/// Whether every receipt that has logs says of which transaction it is: its first log names it.
pub open spec fn receipts_attributed(receipts: Seq<ReceiptLogs>) -> bool {
    forall|i: int|
        0 <= i < receipts.len() && (#[trigger] receipts[i]).logs@.len() > 0
            ==> receipts[i].logs@[0].transaction_hash is Some
}

/// The forms of the logs of each transaction, by its hash. Receipts without logs are left out; of
/// two receipts for one transaction the later counts.
pub open spec fn listed_forms(receipts: Seq<ReceiptLogs>) -> Map<B256, Seq<Seq<u8>>>
    decreases receipts.len(),
{
    if receipts.len() == 0 {
        Map::empty()
    } else {
        let before = listed_forms(receipts.drop_last());
        let logs = receipts.last().logs@;
        if logs.len() == 0 {
            before
        } else {
            before.insert(logs[0].transaction_hash->0, forms(logs))
        }
    }
}

/// The contents of some byte strings.
spec fn contents(strings: Seq<Vec<u8>>) -> Seq<Seq<u8>> {
    Seq::new(strings.len(), |i: int| strings[i]@)
}

/// What a list of entries holds under each hash: the last entry counts.
spec fn entries_map(entries: Seq<(B256, Vec<Vec<u8>>)>) -> Map<B256, Seq<Seq<u8>>>
    decreases entries.len(),
{
    if entries.len() == 0 {
        Map::empty()
    } else {
        entries_map(entries.drop_last()).insert(entries.last().0, contents(entries.last().1@))
    }
}

/// The forms of the logs of each transaction, by its hash.
struct LogIndex {
    entries: Vec<(B256, Vec<Vec<u8>>)>,
}

impl View for LogIndex {
    type V = Map<B256, Seq<Seq<u8>>>;

    closed spec fn view(&self) -> Map<B256, Seq<Seq<u8>>> {
        entries_map(self.entries@)
    }
}

impl LogIndex {
    fn new() -> (res: Self)
        ensures
            res@ == Map::<B256, Seq<Seq<u8>>>::empty(),
    {
        LogIndex { entries: Vec::new() }
    }

    fn insert(&mut self, tx_hash: B256, forms: Vec<Vec<u8>>)
        ensures
            final(self)@ == old(self)@.insert(tx_hash, contents(forms@)),
    {
        self.entries.push((tx_hash, forms));
        proof {
            assert(self.entries@.drop_last() =~= old(self).entries@);
        }
    }

    fn get(&self, tx_hash: &B256) -> (res: Option<&Vec<Vec<u8>>>)
        ensures
            res is Some <==> self@.contains_key(*tx_hash),
            res matches Some(forms) ==> contents(forms@) == self@[*tx_hash],
    {
        let mut i: usize = self.entries.len();
        proof {
            assert(self.entries@.take(i as int) =~= self.entries@);
        }
        while i > 0
            invariant
                i <= self.entries.len(),
                self@.contains_key(*tx_hash) <==> entries_map(
                    self.entries@.take(i as int),
                ).contains_key(*tx_hash),
                self@.contains_key(*tx_hash) ==> self@[*tx_hash] == entries_map(
                    self.entries@.take(i as int),
                )[*tx_hash],
            decreases i,
        {
            let ghost upto = self.entries@.take(i as int);
            proof {
                assert(upto.drop_last() =~= self.entries@.take(i - 1));
                assert(upto.last() == self.entries@[i - 1]);
            }
            i -= 1;
            if self.entries[i].0 == *tx_hash {
                return Some(&self.entries[i].1);
            }
        }
        None
    }
}

fn encode_logs(logs: &Vec<Log>) -> (res: Vec<Vec<u8>>)
    ensures
        contents(res@) == forms(logs@),
        forall|i: int| 0 <= i < logs.len() ==> (#[trigger] logs[i]).readable(),
{
    let mut res: Vec<Vec<u8>> = Vec::new();
    let mut i: usize = 0;
    while i < logs.len()
        invariant
            i <= logs.len(),
            res.len() == i,
            forall|j: int| 0 <= j < i ==> (#[trigger] res[j])@ == logs[j].form(),
            forall|j: int| 0 <= j < i ==> (#[trigger] logs[j]).readable(),
        decreases logs.len() - i,
    {
        res.push(logs[i].encode());
        i += 1;
    }
    proof {
        assert(contents(res@) =~= forms(logs@));
    }
    res
}

/// Whether all logs of some receipts can be read back from their forms.
spec fn receipts_readable(receipts: Seq<ReceiptLogs>) -> bool {
    forall|i: int, k: int|
        0 <= i < receipts.len() && 0 <= k < receipts[i].logs@.len()
            ==> (#[trigger] receipts[i].logs@[k]).readable()
}

/// Adds the logs of some receipts to an index, unless one of them does not say of which transaction
/// it is.
fn index_block(
    index: &mut LogIndex,
    receipts: &Vec<ReceiptLogs>,
    Ghost(before): Ghost<Seq<ReceiptLogs>>,
) -> (res: bool)
    requires
        old(index)@ == listed_forms(before),
        receipts_readable(before),
    ensures
        res == receipts_attributed(receipts@),
        res ==> final(index)@ == listed_forms(before + receipts@),
        res ==> receipts_readable(before + receipts@),
{
    let mut i: usize = 0;
    proof {
        assert(before + receipts@.take(0) =~= before);
    }
    while i < receipts.len()
        invariant
            i <= receipts.len(),
            forall|j: int|
                0 <= j < i && (#[trigger] receipts@[j]).logs@.len() > 0
                    ==> receipts@[j].logs@[0].transaction_hash is Some,
            index@ == listed_forms(before + receipts@.take(i as int)),
            receipts_readable(before + receipts@.take(i as int)),
        decreases receipts.len() - i,
    {
        let ghost upto = before + receipts@.take(i as int);
        let ghost more = before + receipts@.take(i + 1);
        proof {
            assert(more.drop_last() =~= upto);
            assert(more.last() == receipts@[i as int]);
        }
        let logs = &receipts[i].logs;
        if logs.len() > 0 {
            match logs[0].transaction_hash {
                None => {
                    proof {
                        assert(receipts@[i as int].logs@[0].transaction_hash is None);
                    }
                    return false;
                },
                Some(tx_hash) => {
                    let encoded = encode_logs(logs);
                    index.insert(tx_hash, encoded);
                },
            }
        }
        proof {
            assert forall|a: int, k: int|
                0 <= a < more.len() && 0 <= k < more[a].logs@.len() implies (
            #[trigger] more[a].logs@[k]).readable() by {
                if a < upto.len() {
                    assert(more[a] == upto[a]);
                    assert(upto[a].logs@[k].readable());
                } else {
                    assert(more[a] == receipts@[i as int]);
                }
            }
        }
        i += 1;
    }
    proof {
        assert(receipts@.take(receipts.len() as int) =~= receipts@);
    }
    true
}

/// The forms that the receipts list, unless a receipt does not say of which transaction it is.
fn index_receipts(replies: &Vec<Option<Vec<ReceiptLogs>>>) -> (res: Option<LogIndex>)
    ensures
        res is Some <==> receipts_attributed(all_receipts(replies@)),
        res matches Some(index) ==> index@ == listed_forms(all_receipts(replies@)),
        res is Some ==> receipts_readable(all_receipts(replies@)),
{
    let mut index = LogIndex::new();
    let mut i: usize = 0;
    while i < replies.len()
        invariant
            i <= replies.len(),
            receipts_attributed(all_receipts(replies@.take(i as int))),
            index@ == listed_forms(all_receipts(replies@.take(i as int))),
            receipts_readable(all_receipts(replies@.take(i as int))),
        decreases replies.len() - i,
    {
        let ghost upto = all_receipts(replies@.take(i as int));
        let ghost more = all_receipts(replies@.take(i + 1));
        proof {
            assert(replies@.take(i + 1).drop_last() =~= replies@.take(i as int));
            assert(replies@.take(i + 1).last() == replies@[i as int]);
        }
        match &replies[i] {
            Some(receipts) => {
                if !index_block(&mut index, receipts, Ghost(upto)) {
                    proof {
                        let j = choose|j: int|
                            0 <= j < receipts@.len() && (#[trigger] receipts@[j]).logs@.len() > 0
                                && receipts@[j].logs@[0].transaction_hash is None;
                        assert(more[upto.len() + j] == receipts@[j]);
                        lemma_receipts_prefix(replies@, i + 1);
                        assert(all_receipts(replies@)[upto.len() + j] == more[upto.len() + j]);
                    }
                    return None;
                }
                proof {
                    assert(more == upto + receipts@);
                }
            },
            None => {
                proof {
                    assert(more =~= upto);
                }
            },
        }
        proof {
            assert forall|j: int|
                0 <= j < more.len() && (#[trigger] more[j]).logs@.len()
                    > 0 implies more[j].logs@[0].transaction_hash is Some by {
                if j < upto.len() {
                    assert(more[j] == upto[j]);
                } else {
                    assert(more[j] == replies@[i as int]->0@[j - upto.len()]);
                }
            }
        }
        i += 1;
    }
    proof {
        assert(replies@.take(replies.len() as int) =~= replies@);
    }
    Some(index)
}

/// The receipts of the first replies come first.
proof fn lemma_receipts_prefix(replies: Seq<Option<Vec<ReceiptLogs>>>, n: int)
    requires
        0 <= n <= replies.len(),
    ensures
        all_receipts(replies.take(n)).len() <= all_receipts(replies).len(),
        forall|j: int|
            0 <= j < all_receipts(replies.take(n)).len() ==> all_receipts(replies)[j]
                == #[trigger] all_receipts(replies.take(n))[j],
    decreases replies.len() - n,
{
    if n == replies.len() {
        assert(replies.take(n) =~= replies);
    } else {
        let more = replies.take(n + 1);
        assert(more.drop_last() =~= replies.take(n));
        lemma_receipts_prefix(replies, n + 1);
        assert forall|j: int| 0 <= j < all_receipts(replies.take(n)).len() implies all_receipts(
            replies,
        )[j] == #[trigger] all_receipts(replies.take(n))[j] by {
            assert(all_receipts(more)[j] == all_receipts(replies.take(n))[j]);
        }
    }
}

// ---------- The check ----------

/// Whether a log is listed for its transaction.
pub open spec fn log_listed(log: Log, listed: Map<B256, Seq<Seq<u8>>>) -> bool {
    &&& log.transaction_hash matches Some(tx_hash)
    &&& listed.contains_key(tx_hash)
    &&& listed[tx_hash].contains(log.form())
}

/// Whether a log is not listed although its transaction is, and names its place, so that it can be
/// reported.
pub open spec fn log_missing(log: Log, listed: Map<B256, Seq<Seq<u8>>>) -> bool {
    &&& log.transaction_hash matches Some(tx_hash)
    &&& listed.contains_key(tx_hash)
    &&& !listed[tx_hash].contains(log.form())
    &&& log.log_index is Some
}

/// Whether the check can give an answer: all logs up to the first that is not listed are listed, and
/// that one can be reported.
pub open spec fn answerable(logs: Seq<Log>, listed: Map<B256, Seq<Seq<u8>>>) -> bool
    decreases logs.len(),
{
    if logs.len() == 0 {
        true
    } else if log_listed(logs[0], listed) {
        answerable(logs.drop_first(), listed)
    } else {
        log_missing(logs[0], listed)
    }
}

/// The outcome of the check: an error for the first log that is not listed, if there is one.
pub open spec fn log_outcome<E>(logs: Seq<Log>, listed: Map<B256, Seq<Seq<u8>>>) -> Result<
    (),
    ProviderError<E>,
>
    decreases logs.len(),
{
    if logs.len() == 0 {
        Ok(())
    } else if log_listed(logs[0], listed) {
        log_outcome(logs.drop_first(), listed)
    } else {
        Err(
            ProviderError::MissingLog {
                tx_hash: logs[0].transaction_hash->0,
                log_index: logs[0].log_index->0,
            },
        )
    }
}

/// Whether logs can be checked against the receipts that came back: the receipts name their
/// transactions, and the check can give an answer.
pub open spec fn checkable(logs: Seq<Log>, replies: Seq<Option<Vec<ReceiptLogs>>>) -> bool {
    &&& receipts_attributed(all_receipts(replies))
    &&& answerable(logs, listed_forms(all_receipts(replies)))
}

/// Whether a log stands in a receipt of its transaction: some receipt whose first log names the
/// transaction lists a log that says the same.
pub open spec fn stands_in_receipt(log: Log, receipts: Seq<ReceiptLogs>) -> bool {
    exists|i: int, k: int|
        #![trigger receipts[i].logs@[k]]
        {
            &&& 0 <= i < receipts.len()
            &&& 0 <= k < receipts[i].logs@.len()
            &&& receipts[i].logs@[0].transaction_hash == log.transaction_hash
            &&& receipts[i].logs@[k].says_same(log)
        }
}

fn contains_form(forms: &Vec<Vec<u8>>, form: &Vec<u8>) -> (res: bool)
    ensures
        res == contents(forms@).contains(form@),
{
    let mut i: usize = 0;
    while i < forms.len()
        invariant
            i <= forms.len(),
            forall|j: int| 0 <= j < i ==> (#[trigger] forms[j])@ != form@,
        decreases forms.len() - i,
    {
        if forms[i] == *form {
            proof {
                assert(forms[i as int]@ =~= form@);
                assert(contents(forms@)[i as int] == form@);
            }
            return true;
        }
        i += 1;
    }
    false
}

enum Listing {
    Listed,
    Missing { tx_hash: B256, log_index: u64 },
    Unknown,
}

fn look_up(log: &Log, index: &LogIndex) -> (res: Listing)
    ensures
        res is Listed <==> log_listed(*log, index@),
        res is Missing <==> log_missing(*log, index@),
        res matches Listing::Missing { tx_hash, log_index } ==> log.transaction_hash == Some(
            tx_hash,
        ) && log.log_index == Some(log_index),
        res is Listed ==> log.readable(),
{
    match log.transaction_hash {
        None => Listing::Unknown,
        Some(tx_hash) => {
            let form = log.encode();
            match index.get(&tx_hash) {
                None => Listing::Unknown,
                Some(forms) => if contains_form(forms, &form) {
                    Listing::Listed
                } else {
                    match log.log_index {
                        Some(log_index) => Listing::Missing { tx_hash, log_index },
                        None => Listing::Unknown,
                    }
                },
            }
        },
    }
}

fn check_logs<E>(logs: &Vec<Log>, index: &LogIndex) -> (res: Option<Result<(), ProviderError<E>>>)
    ensures
        res is Some <==> answerable(logs@, index@),
        res matches Some(outcome) ==> outcome == log_outcome::<E>(logs@, index@),
        res matches Some(Ok(_)) ==> forall|i: int|
            0 <= i < logs.len() ==> (#[trigger] logs[i]).readable() && log_listed(logs[i], index@),
{
    let mut i: usize = 0;
    proof {
        assert(logs@.skip(0) =~= logs@);
    }
    while i < logs.len()
        invariant
            i <= logs.len(),
            answerable(logs@, index@) == answerable(logs@.skip(i as int), index@),
            log_outcome::<E>(logs@, index@) == log_outcome::<E>(logs@.skip(i as int), index@),
            forall|j: int|
                0 <= j < i ==> (#[trigger] logs[j]).readable() && log_listed(logs[j], index@),
        decreases logs.len() - i,
    {
        proof {
            assert(logs@.skip(i as int)[0] == logs@[i as int]);
            assert(logs@.skip(i as int).drop_first() =~= logs@.skip(i + 1));
        }
        match look_up(&logs[i], index) {
            Listing::Listed => {},
            Listing::Missing { tx_hash, log_index } => {
                return Some(Err(ProviderError::MissingLog { tx_hash, log_index }));
            },
            Listing::Unknown => {
                return None;
            },
        }
        i += 1;
    }
    Some(Ok(()))
}

/// Checks logs from the upstream against the proven receipts of the blocks that they are said to
/// stand in, given those receipts, block by block, or the error of reading them. There is no answer
/// where the logs cannot be checked.
pub fn verify_logs<E>(
    logs: &Vec<Log>,
    replies: Result<Vec<Option<Vec<ReceiptLogs>>>, ProviderError<E>>,
) -> (res: Option<Result<(), ProviderError<E>>>)
    ensures
        match replies {
            Err(e) => res == Some(Err::<(), ProviderError<E>>(e)),
            Ok(receipts) => {
                &&& res is Some <==> checkable(logs@, receipts@)
                &&& res matches Some(outcome) ==> outcome == log_outcome::<E>(
                    logs@,
                    listed_forms(all_receipts(receipts@)),
                )
                &&& res matches Some(Ok(_)) ==> forall|i: int|
                    0 <= i < logs@.len() ==> stands_in_receipt(
                        #[trigger] logs@[i],
                        all_receipts(receipts@),
                    )
            },
        },
{
    match replies {
        Err(e) => Some(Err(e)),
        Ok(receipts) => match index_receipts(&receipts) {
            None => None,
            Some(index) => {
                let res = check_logs(logs, &index);
                proof {
                    if res matches Some(Ok(_)) {
                        let all = all_receipts(receipts@);
                        assert forall|i: int| 0 <= i < logs@.len() implies stands_in_receipt(
                            #[trigger] logs@[i],
                            all,
                        ) by {
                            assert(logs[i].readable());
                            lemma_listed_log_stands(logs@[i], all);
                        }
                    }
                }
                res
            },
        },
    }
}

/// What is listed for a transaction are the forms of the logs of one of its receipts.
proof fn lemma_listed_forms_source(receipts: Seq<ReceiptLogs>, tx_hash: B256) -> (i: int)
    requires
        receipts_attributed(receipts),
        listed_forms(receipts).contains_key(tx_hash),
    ensures
        0 <= i < receipts.len(),
        receipts[i].logs@.len() > 0,
        receipts[i].logs@[0].transaction_hash == Some(tx_hash),
        listed_forms(receipts)[tx_hash] == forms(receipts[i].logs@),
    decreases receipts.len(),
{
    let before = receipts.drop_last();
    let last = receipts.last();
    if last.logs@.len() > 0 && last.logs@[0].transaction_hash == Some(tx_hash) {
        receipts.len() - 1
    } else {
        assert(receipts_attributed(before)) by {
            assert forall|j: int|
                0 <= j < before.len() && (#[trigger] before[j]).logs@.len()
                    > 0 implies before[j].logs@[0].transaction_hash is Some by {
                assert(before[j] == receipts[j]);
            }
        }
        let i = lemma_listed_forms_source(before, tx_hash);
        assert(before[i] == receipts[i]);
        i
    }
}

/// Two logs with one form, which can be read back, say the same.
proof fn lemma_same_form(a: Log, b: Log)
    requires
        a.readable(),
        b.readable(),
        a.form() == b.form(),
    ensures
        a.says_same(b),
{
    assert(a.address.0@ == b.address.0@);
    assert(a.address.0 =~= b.address.0) by {
        assert forall|i: int| 0 <= i < 20 implies a.address.0[i] == b.address.0[i] by {
            assert(a.address.0@[i] == b.address.0@[i]);
        }
    }
    let wa = word_bytes(a.topics@);
    let wb = word_bytes(b.topics@);
    assert(wa == wb);
    assert(a.topics@.len() == wa.len() && b.topics@.len() == wb.len());
    assert forall|i: int| 0 <= i < a.topics@.len() implies a.topics@[i] == b.topics@[i] by {
        assert(wa[i] == wb[i]);
        assert(a.topics@[i].0 =~= b.topics@[i].0) by {
            assert forall|j: int| 0 <= j < 32 implies a.topics@[i].0[j] == b.topics@[i].0[j] by {
                assert(wa[i][j] == wb[i][j]);
            }
        }
    }
    assert(a.topics@ =~= b.topics@);
}

/// A log that is listed for its transaction stands in one of its receipts.
proof fn lemma_listed_log_stands(log: Log, receipts: Seq<ReceiptLogs>)
    requires
        receipts_attributed(receipts),
        receipts_readable(receipts),
        log.readable(),
        log_listed(log, listed_forms(receipts)),
    ensures
        stands_in_receipt(log, receipts),
{
    let tx_hash = log.transaction_hash->0;
    let i = lemma_listed_forms_source(receipts, tx_hash);
    let listed = forms(receipts[i].logs@);
    let k = choose|k: int| 0 <= k < listed.len() && listed[k] == log.form();
    lemma_same_form(receipts[i].logs@[k], log);
}

// ---------- Laws ----------

/// Logs pass the check exactly where every one of them is listed for its transaction.
pub proof fn logs_pass_if_all_listed<E>(logs: Seq<Log>, listed: Map<B256, Seq<Seq<u8>>>)
    ensures
        log_outcome::<E>(logs, listed) is Ok <==> forall|i: int|
            0 <= i < logs.len() ==> log_listed(#[trigger] logs[i], listed),
    decreases logs.len(),
{
    if logs.len() > 0 {
        let rest = logs.drop_first();
        logs_pass_if_all_listed::<E>(rest, listed);
        assert(forall|i: int| 0 <= i < rest.len() ==> #[trigger] rest[i] == logs[i + 1]);
        if log_listed(logs[0], listed) {
            if forall|i: int| 0 <= i < rest.len() ==> log_listed(#[trigger] rest[i], listed) {
                assert forall|i: int| 0 <= i < logs.len() implies log_listed(
                    #[trigger] logs[i],
                    listed,
                ) by {
                    if i > 0 {
                        assert(rest[i - 1] == logs[i]);
                    }
                }
            }
        }
    }
}

/// Logs pass the check where every one of them stands in a receipt of its transaction, the receipts
/// name their transactions, and no two receipts with logs are for one transaction.
pub proof fn logs_that_stand_in_receipts_pass<E>(logs: Seq<Log>, receipts: Seq<ReceiptLogs>)
    requires
        receipts_attributed(receipts),
        one_receipt_each(receipts),
        forall|i: int|
            0 <= i < logs.len() ==> (#[trigger] logs[i]).transaction_hash is Some
                && stands_in_receipt(logs[i], receipts),
    ensures
        answerable(logs, listed_forms(receipts)),
        log_outcome::<E>(logs, listed_forms(receipts)) == Ok::<(), ProviderError<E>>(()),
    decreases logs.len(),
{
    if logs.len() > 0 {
        let log = logs[0];
        let (i, k) = choose|i: int, k: int|
            #![trigger receipts[i].logs@[k]]
            {
                &&& 0 <= i < receipts.len()
                &&& 0 <= k < receipts[i].logs@.len()
                &&& receipts[i].logs@[0].transaction_hash == log.transaction_hash
                &&& receipts[i].logs@[k].says_same(log)
            };
        lemma_listed_forms_of(receipts, i, log.transaction_hash->0);
        assert(forms(receipts[i].logs@)[k] == log.form());
        assert(log_listed(log, listed_forms(receipts)));
        let rest = logs.drop_first();
        assert forall|j: int| 0 <= j < rest.len() implies (#[trigger] rest[j]).transaction_hash is Some
            && stands_in_receipt(rest[j], receipts) by {
            assert(rest[j] == logs[j + 1]);
        }
        logs_that_stand_in_receipts_pass::<E>(rest, receipts);
    }
}

/// Logs that fail the check fail for the first one that is not listed: the error names its
/// transaction and its place.
pub proof fn first_unlisted_log_is_reported<E>(
    logs: Seq<Log>,
    listed: Map<B256, Seq<Seq<u8>>>,
    n: int,
)
    requires
        0 <= n < logs.len(),
        forall|i: int| 0 <= i < n ==> log_listed(#[trigger] logs[i], listed),
        log_missing(logs[n], listed),
    ensures
        answerable(logs, listed),
        log_outcome::<E>(logs, listed) == Err::<(), ProviderError<E>>(
            ProviderError::MissingLog {
                tx_hash: logs[n].transaction_hash->0,
                log_index: logs[n].log_index->0,
            },
        ),
    decreases logs.len(),
{
    if n > 0 {
        let rest = logs.drop_first();
        assert(log_listed(logs[0], listed));
        assert(forall|i: int| 0 <= i < rest.len() ==> #[trigger] rest[i] == logs[i + 1]);
        first_unlisted_log_is_reported::<E>(rest, listed, n - 1);
    }
}

/// Whether no two receipts with logs are for one transaction.
pub open spec fn one_receipt_each(receipts: Seq<ReceiptLogs>) -> bool {
    forall|i: int, j: int|
        0 <= i < j < receipts.len() && (#[trigger] receipts[i]).logs@.len() > 0 && (
        #[trigger] receipts[j]).logs@.len() > 0 ==> receipts[i].logs@[0].transaction_hash
            != receipts[j].logs@[0].transaction_hash
}

/// The order in which the receipts come does not matter where no two of them are for one transaction:
/// the same receipts list the same forms.
pub proof fn order_of_receipts_does_not_matter(a: Seq<ReceiptLogs>, b: Seq<ReceiptLogs>)
    requires
        receipts_attributed(a),
        one_receipt_each(a),
        one_receipt_each(b),
        forall|receipt: ReceiptLogs| a.contains(receipt) <==> b.contains(receipt),
    ensures
        listed_forms(a) == listed_forms(b),
{
    assert forall|i: int| 0 <= i < b.len() && (#[trigger] b[i]).logs@.len() > 0 implies b[i].logs@[0]
        .transaction_hash is Some by {
        assert(b.contains(b[i]));
        assert(a.contains(b[i]));
        let j = choose|j: int| 0 <= j < a.len() && a[j] == b[i];
        assert(a[j].logs@.len() > 0);
    }
    assert forall|tx_hash: B256| #[trigger] listed_forms(a).contains_key(tx_hash) implies (listed_forms(
        b,
    ).contains_key(tx_hash) && listed_forms(a)[tx_hash] == listed_forms(b)[tx_hash]) by {
        lemma_listed_in_both(a, b, tx_hash);
    }
    assert forall|tx_hash: B256| #[trigger]
        listed_forms(b).contains_key(tx_hash) implies listed_forms(a).contains_key(tx_hash) by {
        lemma_listed_in_both(b, a, tx_hash);
    }
    assert(listed_forms(a) =~= listed_forms(b));
}

/// What some receipts list for a transaction, the same receipts list in any order.
proof fn lemma_listed_in_both(a: Seq<ReceiptLogs>, b: Seq<ReceiptLogs>, tx_hash: B256)
    requires
        receipts_attributed(a),
        receipts_attributed(b),
        one_receipt_each(b),
        forall|receipt: ReceiptLogs| #[trigger] a.contains(receipt) ==> b.contains(receipt),
        listed_forms(a).contains_key(tx_hash),
    ensures
        listed_forms(b).contains_key(tx_hash),
        listed_forms(b)[tx_hash] == listed_forms(a)[tx_hash],
{
    let i = lemma_listed_forms_source(a, tx_hash);
    assert(a.contains(a[i]));
    let j = choose|j: int| 0 <= j < b.len() && b[j] == a[i];
    lemma_listed_forms_of(b, j, tx_hash);
}

/// The logs of a receipt are listed where no other receipt is for its transaction.
proof fn lemma_listed_forms_of(receipts: Seq<ReceiptLogs>, i: int, tx_hash: B256)
    requires
        one_receipt_each(receipts),
        0 <= i < receipts.len(),
        receipts[i].logs@.len() > 0,
        receipts[i].logs@[0].transaction_hash == Some(tx_hash),
        receipts_attributed(receipts),
    ensures
        listed_forms(receipts).contains_key(tx_hash),
        listed_forms(receipts)[tx_hash] == forms(receipts[i].logs@),
    decreases receipts.len(),
{
    let before = receipts.drop_last();
    if i < before.len() {
        assert forall|j: int, k: int|
            0 <= j < k < before.len() && (#[trigger] before[j]).logs@.len() > 0 && (
            #[trigger] before[k]).logs@.len() > 0 implies before[j].logs@[0].transaction_hash
            != before[k].logs@[0].transaction_hash by {
            assert(before[j] == receipts[j] && before[k] == receipts[k]);
        }
        assert forall|j: int|
            0 <= j < before.len() && (#[trigger] before[j]).logs@.len()
                > 0 implies before[j].logs@[0].transaction_hash is Some by {
            assert(before[j] == receipts[j]);
        }
        assert(before[i] == receipts[i]);
        lemma_listed_forms_of(before, i, tx_hash);
        let last = receipts[receipts.len() - 1];
        if last.logs@.len() > 0 {
            assert(receipts[i].logs@.len() > 0);
        }
    }
}

/// A log that stands in the receipts that came back stands in those of one of the blocks that were
/// needed, which is not newer than the latest block.
pub proof fn verified_log_is_in_a_needed_block(
    log: Log,
    logs: Seq<Log>,
    latest: u64,
    numbers: Seq<u64>,
    replies: Seq<Option<Vec<ReceiptLogs>>>,
)
    requires
        names_needed_blocks(numbers, logs, latest),
        replies.len() == numbers.len(),
        stands_in_receipt(log, all_receipts(replies)),
    ensures
        exists|n: int|
            0 <= n < numbers.len() && block_needed(logs, latest, #[trigger] numbers[n])
                && replies[n] is Some && stands_in_receipt(log, replies[n]->0@),
{
    let all = all_receipts(replies);
    let (i, k) = choose|i: int, k: int|
        #![trigger all[i].logs@[k]]
        {
            &&& 0 <= i < all.len()
            &&& 0 <= k < all[i].logs@.len()
            &&& all[i].logs@[0].transaction_hash == log.transaction_hash
            &&& all[i].logs@[k].says_same(log)
        };
    let (n, j) = lemma_receipt_source(replies, i);
    assert(replies[n]->0@[j].logs@[k].says_same(log));
    assert(numbers.contains(numbers[n]));
}

/// Every receipt that came back came back for some block.
proof fn lemma_receipt_source(replies: Seq<Option<Vec<ReceiptLogs>>>, i: int) -> (place: (int, int))
    requires
        0 <= i < all_receipts(replies).len(),
    ensures
        0 <= place.0 < replies.len(),
        replies[place.0] is Some,
        0 <= place.1 < replies[place.0]->0@.len(),
        replies[place.0]->0@[place.1] == all_receipts(replies)[i],
    decreases replies.len(),
{
    let before = replies.drop_last();
    if i < all_receipts(before).len() {
        let place = lemma_receipt_source(before, i);
        assert(before[place.0] == replies[place.0]);
        place
    } else {
        (replies.len() - 1, i - all_receipts(before).len())
    }
}

/// Every receipt of every reply takes part, however many there are.
pub proof fn every_receipt_takes_part(replies: Seq<Option<Vec<ReceiptLogs>>>, n: int, j: int)
    requires
        0 <= n < replies.len(),
        replies[n] is Some,
        0 <= j < replies[n]->0@.len(),
    ensures
        all_receipts(replies).contains(replies[n]->0@[j]),
{
    let _ = lemma_receipt_place(replies, n, j);
}

/// The place of a receipt of a reply among all receipts.
proof fn lemma_receipt_place(replies: Seq<Option<Vec<ReceiptLogs>>>, n: int, j: int) -> (i: int)
    requires
        0 <= n < replies.len(),
        replies[n] is Some,
        0 <= j < replies[n]->0@.len(),
    ensures
        0 <= i < all_receipts(replies).len(),
        all_receipts(replies)[i] == replies[n]->0@[j],
    decreases replies.len(),
{
    let before = replies.drop_last();
    if n < before.len() {
        assert(before[n] == replies[n]);
        lemma_receipt_place(before, n, j)
    } else {
        all_receipts(before).len() + j
    }
}

/// No receipt takes part that did not come back in some reply.
pub proof fn receipts_come_from_replies(replies: Seq<Option<Vec<ReceiptLogs>>>, receipt: ReceiptLogs)
    requires
        all_receipts(replies).contains(receipt),
    ensures
        exists|n: int, j: int|
            0 <= n < replies.len() && replies[n] is Some && 0 <= j < replies[n]->0@.len()
                && #[trigger] replies[n]->0@[j] == receipt,
{
    let i = choose|i: int|
        0 <= i < all_receipts(replies).len() && all_receipts(replies)[i] == receipt;
    let (n, j) = lemma_receipt_source(replies, i);
    assert(replies[n]->0@[j] == receipt);
}

/// The receipts come in the order of the replies: those of more replies are those of the first ones
/// and then those of the others; those of one reply are all that it brings, in order; and a block that
/// is not known brings none.
pub proof fn receipts_come_in_the_order_of_replies(
    first: Seq<Option<Vec<ReceiptLogs>>>,
    others: Seq<Option<Vec<ReceiptLogs>>>,
    receipts: Vec<ReceiptLogs>,
)
    ensures
        all_receipts(first + others) == all_receipts(first) + all_receipts(others),
        all_receipts(seq![Some(receipts)]) == receipts@,
        all_receipts(seq![None]).len() == 0,
        all_receipts(Seq::empty()).len() == 0,
    decreases others.len(),
{
    reveal_with_fuel(all_receipts, 3);
    let one: Seq<Option<Vec<ReceiptLogs>>> = seq![Some(receipts)];
    assert(one.drop_last() =~= Seq::empty());
    assert(all_receipts(one) =~= receipts@);
    let none: Seq<Option<Vec<ReceiptLogs>>> = seq![None];
    assert(none.drop_last() =~= Seq::empty());
    if others.len() == 0 {
        assert(first + others =~= first);
        assert(all_receipts(first) + all_receipts(others) =~= all_receipts(first));
    } else {
        receipts_come_in_the_order_of_replies(first, others.drop_last(), receipts);
        assert((first + others).drop_last() =~= first + others.drop_last());
        assert((first + others).last() == others.last());
        assert(all_receipts(first + others) =~= all_receipts(first) + all_receipts(others));
    }
}

/// What is listed for a transaction: something exactly where a receipt with logs names it, and then
/// the forms of all logs of the last such receipt, in order.
pub proof fn last_receipt_of_a_transaction_is_listed(
    receipts: Seq<ReceiptLogs>,
    i: int,
    tx_hash: B256,
)
    requires
        receipts_attributed(receipts),
        0 <= i < receipts.len(),
        receipts[i].logs@.len() > 0,
        receipts[i].logs@[0].transaction_hash == Some(tx_hash),
        forall|j: int|
            i < j < receipts.len() && (#[trigger] receipts[j]).logs@.len() > 0
                ==> receipts[j].logs@[0].transaction_hash != Some(tx_hash),
    ensures
        listed_forms(receipts).contains_key(tx_hash),
        listed_forms(receipts)[tx_hash].len() == receipts[i].logs@.len(),
        forall|k: int|
            0 <= k < receipts[i].logs@.len() ==> #[trigger] listed_forms(receipts)[tx_hash][k]
                == rlp_log(
                receipts[i].logs@[k].address.0@,
                word_bytes(receipts[i].logs@[k].topics@),
                receipts[i].logs@[k].data@,
            ),
    decreases receipts.len(),
{
    let before = receipts.drop_last();
    if i < before.len() {
        assert forall|j: int|
            0 <= j < before.len() && (#[trigger] before[j]).logs@.len()
                > 0 implies before[j].logs@[0].transaction_hash is Some by {
            assert(before[j] == receipts[j]);
        }
        assert forall|j: int|
            i < j < before.len() && (#[trigger] before[j]).logs@.len()
                > 0 implies before[j].logs@[0].transaction_hash != Some(tx_hash) by {
            assert(before[j] == receipts[j]);
        }
        assert(before[i] == receipts[i]);
        last_receipt_of_a_transaction_is_listed(before, i, tx_hash);
        let last = receipts[receipts.len() - 1];
        assert(last == receipts.last());
        assert(listed_forms(receipts)[tx_hash] == listed_forms(before)[tx_hash]);
    }
}

/// Nothing is listed for a transaction that no receipt with logs names.
pub proof fn unnamed_transaction_is_not_listed(receipts: Seq<ReceiptLogs>, tx_hash: B256)
    requires
        receipts_attributed(receipts),
        forall|i: int|
            0 <= i < receipts.len() && (#[trigger] receipts[i]).logs@.len() > 0
                ==> receipts[i].logs@[0].transaction_hash != Some(tx_hash),
    ensures
        !listed_forms(receipts).contains_key(tx_hash),
{
    if listed_forms(receipts).contains_key(tx_hash) {
        let i = lemma_listed_forms_source(receipts, tx_hash);
        assert(receipts[i].logs@.len() > 0);
    }
}

/// A log is listed exactly where it names a transaction and its form, made of its address, its topics
/// and its data, is one of those listed for that transaction; it is missing exactly where something is
/// listed for its transaction, its form is not among it, and it names its place.
pub proof fn log_is_looked_for_under_its_transaction(log: Log, listed: Map<B256, Seq<Seq<u8>>>)
    ensures
        log_listed(log, listed) <==> (log.transaction_hash matches Some(tx_hash)
            && listed.contains_key(tx_hash) && exists|k: int|
            0 <= k < listed[tx_hash].len() && #[trigger] listed[tx_hash][k] == rlp_log(
                log.address.0@,
                word_bytes(log.topics@),
                log.data@,
            )),
        log_missing(log, listed) <==> (log.transaction_hash matches Some(tx_hash)
            && listed.contains_key(tx_hash) && log.log_index is Some && forall|k: int|
            0 <= k < listed[tx_hash].len() ==> #[trigger] listed[tx_hash][k] != rlp_log(
                log.address.0@,
                word_bytes(log.topics@),
                log.data@,
            )),
{
}

/// There is an answer exactly where every log is listed, or the first one that is not is missing.
pub proof fn first_unlisted_log_decides(
    logs: Seq<Log>,
    listed: Map<B256, Seq<Seq<u8>>>,
    n: int,
)
    requires
        0 <= n <= logs.len(),
        forall|i: int| 0 <= i < n ==> log_listed(#[trigger] logs[i], listed),
        n < logs.len() ==> !log_listed(logs[n], listed),
    ensures
        answerable(logs, listed) <==> n == logs.len() || log_missing(logs[n], listed),
    decreases n,
{
    if n > 0 {
        let rest = logs.drop_first();
        assert(log_listed(logs[0], listed));
        assert(forall|i: int| 0 <= i < rest.len() ==> #[trigger] rest[i] == logs[i + 1]);
        first_unlisted_log_decides(rest, listed, n - 1);
    }
}

/// A log that stands in some receipts says what one of the logs of a receipt says, in address, topics
/// and data, and the first log of that receipt names its transaction.
pub proof fn standing_log_says_the_same(log: Log, receipts: Seq<ReceiptLogs>)
    ensures
        stands_in_receipt(log, receipts) <==> exists|i: int, k: int|
            0 <= i < receipts.len() && 0 <= k < receipts[i].logs@.len()
                && receipts[i].logs@[0].transaction_hash == log.transaction_hash && (
            #[trigger] receipts[i].logs@[k]).address == log.address && receipts[i].logs@[k].topics@
                == log.topics@ && receipts[i].logs@[k].data@ == log.data@,
{
    if stands_in_receipt(log, receipts) {
        let (i, k) = choose|i: int, k: int|
            #![trigger receipts[i].logs@[k]]
            {
                &&& 0 <= i < receipts.len()
                &&& 0 <= k < receipts[i].logs@.len()
                &&& receipts[i].logs@[0].transaction_hash == log.transaction_hash
                &&& receipts[i].logs@[k].says_same(log)
            };
        assert(receipts[i].logs@[k].address == log.address);
    }
    if exists|i: int, k: int|
        0 <= i < receipts.len() && 0 <= k < receipts[i].logs@.len()
            && receipts[i].logs@[0].transaction_hash == log.transaction_hash && (
        #[trigger] receipts[i].logs@[k]).address == log.address && receipts[i].logs@[k].topics@
            == log.topics@ && receipts[i].logs@[k].data@ == log.data@ {
        let (i, k) = choose|i: int, k: int|
            0 <= i < receipts.len() && 0 <= k < receipts[i].logs@.len()
                && receipts[i].logs@[0].transaction_hash == log.transaction_hash && (
            #[trigger] receipts[i].logs@[k]).address == log.address && receipts[i].logs@[k].topics@
                == log.topics@ && receipts[i].logs@[k].data@ == log.data@;
        assert(receipts[i].logs@[k].says_same(log));
    }
}

/// The blocks whose receipts are read are exactly the blocks that the logs are said to stand in, as
/// far as they are not newer than the latest one, each of them once.
pub proof fn needed_blocks_are_those_of_the_logs(numbers: Seq<u64>, logs: Seq<Log>, latest: u64)
    requires
        names_needed_blocks(numbers, logs, latest),
    ensures
        forall|i: int, number: u64|
            0 <= i < logs.len() && (#[trigger] logs[i]).block_number == Some(number) && number
                <= latest ==> #[trigger] numbers.contains(number),
        forall|n: int|
            0 <= n < numbers.len() ==> #[trigger] numbers[n] <= latest && exists|i: int|
                0 <= i < logs.len() && (#[trigger] logs[i]).block_number == Some(numbers[n]),
        forall|n: int, m: int|
            0 <= n < m < numbers.len() ==> #[trigger] numbers[n] != #[trigger] numbers[m],
{
    assert forall|i: int, number: u64|
        0 <= i < logs.len() && (#[trigger] logs[i]).block_number == Some(number) && number
            <= latest implies #[trigger] numbers.contains(number) by {
        assert(block_needed(logs, latest, number));
    }
    assert forall|n: int| 0 <= n < numbers.len() implies #[trigger] numbers[n] <= latest && exists|
        i: int,
    | 0 <= i < logs.len() && (#[trigger] logs[i]).block_number == Some(numbers[n]) by {
        assert(numbers.contains(numbers[n]));
        assert(block_needed(logs, latest, numbers[n]));
    }
}

/// Logs pass where each of them names its transaction and stands in a receipt of it, in whatever reply
/// that receipt came back, provided that every receipt with logs names its transaction and that no two
/// of them name the same.
pub proof fn logs_that_stand_in_replies_pass<E>(
    logs: Seq<Log>,
    replies: Seq<Option<Vec<ReceiptLogs>>>,
)
    requires
        forall|n: int, j: int|
            0 <= n < replies.len() && replies[n] is Some && 0 <= j < replies[n]->0@.len() && (
            #[trigger] replies[n]->0@[j]).logs@.len() > 0
                ==> replies[n]->0@[j].logs@[0].transaction_hash is Some,
        forall|i: int, j: int|
            0 <= i < j < all_receipts(replies).len() && (
            #[trigger] all_receipts(replies)[i]).logs@.len() > 0 && (
            #[trigger] all_receipts(replies)[j]).logs@.len() > 0
                ==> all_receipts(replies)[i].logs@[0].transaction_hash != all_receipts(
                replies,
            )[j].logs@[0].transaction_hash,
        forall|i: int|
            0 <= i < logs.len() ==> (#[trigger] logs[i]).transaction_hash is Some && exists|
                n: int,
                j: int,
                k: int,
            |
                0 <= n < replies.len() && replies[n] is Some && 0 <= j < replies[n]->0@.len() && 0
                    <= k < replies[n]->0@[j].logs@.len()
                    && replies[n]->0@[j].logs@[0].transaction_hash == logs[i].transaction_hash && (
                #[trigger] replies[n]->0@[j].logs@[k]).address == logs[i].address
                    && replies[n]->0@[j].logs@[k].topics@ == logs[i].topics@
                    && replies[n]->0@[j].logs@[k].data@ == logs[i].data@,
    ensures
        checkable(logs, replies),
        log_outcome::<E>(logs, listed_forms(all_receipts(replies))) == Ok::<(), ProviderError<E>>(
            (),
        ),
{
    let all = all_receipts(replies);
    lemma_attributed_if_every_reply_is(replies);
    assert forall|i: int| 0 <= i < logs.len() implies (#[trigger] logs[i]).transaction_hash is Some
        && stands_in_receipt(logs[i], all) by {
        let (n, j, k) = choose|n: int, j: int, k: int|
            0 <= n < replies.len() && replies[n] is Some && 0 <= j < replies[n]->0@.len() && 0 <= k
                < replies[n]->0@[j].logs@.len() && replies[n]->0@[j].logs@[0].transaction_hash
                == logs[i].transaction_hash && (
            #[trigger] replies[n]->0@[j].logs@[k]).address == logs[i].address
                && replies[n]->0@[j].logs@[k].topics@ == logs[i].topics@
                && replies[n]->0@[j].logs@[k].data@ == logs[i].data@;
        let place = lemma_receipt_place(replies, n, j);
        assert(all[place].logs@[k].says_same(logs[i]));
    }
    logs_that_stand_in_receipts_pass::<E>(logs, all);
}

/// All receipts name their transactions where those of every reply do.
proof fn lemma_attributed_if_every_reply_is(replies: Seq<Option<Vec<ReceiptLogs>>>)
    requires
        forall|n: int, j: int|
            0 <= n < replies.len() && replies[n] is Some && 0 <= j < replies[n]->0@.len() && (
            #[trigger] replies[n]->0@[j]).logs@.len() > 0
                ==> replies[n]->0@[j].logs@[0].transaction_hash is Some,
    ensures
        receipts_attributed(all_receipts(replies)),
{
    let all = all_receipts(replies);
    assert forall|i: int|
        0 <= i < all.len() && (#[trigger] all[i]).logs@.len()
            > 0 implies all[i].logs@[0].transaction_hash is Some by {
        let (n, j) = lemma_receipt_source(replies, i);
        assert(replies[n]->0@[j].logs@.len() > 0);
    }
}

/// Whether logs can be checked: every receipt with logs, in whatever reply it came back, names its
/// transaction, and the first log that is not listed, if there is one, can be reported.
pub proof fn logs_are_checkable_where_receipts_name_their_transactions(
    logs: Seq<Log>,
    replies: Seq<Option<Vec<ReceiptLogs>>>,
    n: int,
)
    requires
        0 <= n <= logs.len(),
        forall|i: int|
            0 <= i < n ==> log_listed(#[trigger] logs[i], listed_forms(all_receipts(replies))),
        n < logs.len() ==> !log_listed(logs[n], listed_forms(all_receipts(replies))),
    ensures
        checkable(logs, replies) <==> {
            &&& forall|m: int, j: int|
                0 <= m < replies.len() && replies[m] is Some && 0 <= j < replies[m]->0@.len() && (
                #[trigger] replies[m]->0@[j]).logs@.len() > 0
                    ==> replies[m]->0@[j].logs@[0].transaction_hash is Some
            &&& n == logs.len() || log_missing(logs[n], listed_forms(all_receipts(replies)))
        },
{
    first_unlisted_log_decides(logs, listed_forms(all_receipts(replies)), n);
    if receipts_attributed(all_receipts(replies)) {
        assert forall|m: int, j: int|
            0 <= m < replies.len() && replies[m] is Some && 0 <= j < replies[m]->0@.len() && (
            #[trigger] replies[m]->0@[j]).logs@.len()
                > 0 implies replies[m]->0@[j].logs@[0].transaction_hash is Some by {
            let i = lemma_receipt_place(replies, m, j);
            assert(all_receipts(replies)[i].logs@.len() > 0);
        }
    }
    if forall|m: int, j: int|
        0 <= m < replies.len() && replies[m] is Some && 0 <= j < replies[m]->0@.len() && (
        #[trigger] replies[m]->0@[j]).logs@.len() > 0
            ==> replies[m]->0@[j].logs@[0].transaction_hash is Some {
        lemma_attributed_if_every_reply_is(replies);
    }
}

/// Receipts are one for each transaction exactly where no two of those with logs begin with a log of
/// the same transaction.
pub proof fn one_receipt_each_means_no_transaction_twice(receipts: Seq<ReceiptLogs>)
    ensures
        one_receipt_each(receipts) <==> forall|i: int, j: int|
            0 <= i < receipts.len() && 0 <= j < receipts.len() && (
            #[trigger] receipts[i]).logs@.len() > 0 && (#[trigger] receipts[j]).logs@.len() > 0
                && receipts[i].logs@[0].transaction_hash == receipts[j].logs@[0].transaction_hash
                ==> i == j,
{
    if one_receipt_each(receipts) {
        assert forall|i: int, j: int|
            0 <= i < receipts.len() && 0 <= j < receipts.len() && (
            #[trigger] receipts[i]).logs@.len() > 0 && (#[trigger] receipts[j]).logs@.len() > 0
                && receipts[i].logs@[0].transaction_hash
                == receipts[j].logs@[0].transaction_hash implies i == j by {
            if i < j {
                assert(receipts[i].logs@[0].transaction_hash
                    != receipts[j].logs@[0].transaction_hash);
            }
            if j < i {
                assert(receipts[j].logs@[0].transaction_hash
                    != receipts[i].logs@[0].transaction_hash);
            }
        }
    }
}

} // verus!
