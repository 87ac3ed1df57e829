//! Reading an account, with its storage proof and its code, at one block.

use crate::blocks::{require_header, required_header};
use crate::crypto::{keccak256, keccak256_of, keccak_empty};
use crate::types::{
    all_zero_bytes_are_the_zero_word, zero_is_zero_in_every_byte, zero_word, Address, BlockHeader,
    BlockId, BlockRead, ProviderError, B256,
};
use vstd::prelude::*;

verus! {

/// Which account to read, and at which block.
#[derive(Debug)]
pub struct AccountQuery {
    pub address: Address,
    pub slots: Vec<B256>,
    pub with_code: bool,
    pub block_id: BlockId,
}

/// A Merkle proof of an account. The proof nodes are carried through unread.
#[derive(Debug)]
pub struct AccountProof<P, S> {
    pub address: Address,
    pub nonce: u64,
    /// The balance, big-endian.
    pub balance: B256,
    pub storage_hash: B256,
    pub code_hash: B256,
    pub account_proof: P,
    pub storage_proof: S,
}

/// An account whose proof was checked.
#[derive(Debug)]
pub struct Account<P, S> {
    pub nonce: u64,
    /// The balance, big-endian.
    pub balance: B256,
    pub storage_root: B256,
    pub code_hash: B256,
    /// The code, where it was asked for.
    pub code: Option<Vec<u8>>,
    pub account_proof: P,
    pub storage_proof: S,
}

/// The block is read, for its header.
#[derive(Debug)]
pub struct ReadAccountBlock {
    pub query: AccountQuery,
    pub read: BlockRead,
}

/// The proof of `query.address` and `query.slots` is read from the upstream at the block `at`.
#[derive(Debug)]
pub struct ReadProof {
    pub query: AccountQuery,
    pub at: BlockId,
    pub state_root: B256,
}

/// The account proof is checked against the state root.
#[derive(Debug)]
pub struct CheckAccountProof<P, S> {
    pub query: AccountQuery,
    pub at: BlockId,
    pub state_root: B256,
    pub proof: AccountProof<P, S>,
}

/// The storage proofs are checked against the storage root of the proof.
#[derive(Debug)]
pub struct CheckStorageProof<P, S> {
    pub query: AccountQuery,
    pub at: BlockId,
    pub proof: AccountProof<P, S>,
}

/// The code of `query.address` is read from the upstream at the block `at`.
#[derive(Debug)]
pub struct ReadCode<P, S> {
    pub query: AccountQuery,
    pub at: BlockId,
    pub proof: AccountProof<P, S>,
}

/// Where reading an account stands: what to do next, or the outcome.
#[derive(Debug)]
pub enum GetAccount<P, S, E> {
    ReadProof(ReadProof),
    CheckAccountProof(CheckAccountProof<P, S>),
    CheckStorageProof(CheckStorageProof<P, S>),
    ReadCode(ReadCode<P, S>),
    Done(Result<Account<P, S>, ProviderError<E>>),
}

/// Whether a code hash says that the account has no code: the hash of the empty code, or zero.
pub open spec fn no_code(code_hash: B256) -> bool {
    code_hash == keccak256_of(Seq::empty()) || code_hash == zero_word()
}

impl<P, S> AccountProof<P, S> {
    /// The account that the proof shows, with the given code.
    pub open spec fn account(self, code: Option<Vec<u8>>) -> Account<P, S> {
        Account {
            nonce: self.nonce,
            balance: self.balance,
            storage_root: self.storage_hash,
            code_hash: self.code_hash,
            code,
            account_proof: self.account_proof,
            storage_proof: self.storage_proof,
        }
    }

    fn into_account(self, code: Option<Vec<u8>>) -> (res: Account<P, S>)
        ensures
            res == self.account(code),
            res.nonce == self.nonce,
            res.balance == self.balance,
            res.storage_root == self.storage_hash,
            res.code_hash == self.code_hash,
            res.code == code,
            res.account_proof == self.account_proof,
            res.storage_proof == self.storage_proof,
    {
        Account {
            nonce: self.nonce,
            balance: self.balance,
            storage_root: self.storage_hash,
            code_hash: self.code_hash,
            code,
            account_proof: self.account_proof,
            storage_proof: self.storage_proof,
        }
    }

    /// The outcome for code that hashes to `found`.
    pub open spec fn with_code<E>(self, code: Vec<u8>, found: B256) -> Result<
        Account<P, S>,
        ProviderError<E>,
    > {
        if found == self.code_hash {
            Ok(self.account(Some(code)))
        } else {
            Err(
                ProviderError::CodeHashMismatch {
                    address: self.address,
                    found,
                    expected: self.code_hash,
                },
            )
        }
    }
}

/// Accepts the code of an account, given its hash, where it is the code that the proof commits to.
pub fn verify_code_hash_proof<P, S, E>(
    proof: AccountProof<P, S>,
    code: Vec<u8>,
    found: B256,
) -> (res: Result<Account<P, S>, ProviderError<E>>)
    ensures
        res == proof.with_code::<E>(code, found),
        found == proof.code_hash ==> {
            &&& res matches Ok(account)
            &&& account.nonce == proof.nonce
            &&& account.balance == proof.balance
            &&& account.storage_root == proof.storage_hash
            &&& account.code_hash == proof.code_hash
            &&& account.code == Some(code)
            &&& account.account_proof == proof.account_proof
            &&& account.storage_proof == proof.storage_proof
        },
        found != proof.code_hash ==> res == Err::<Account<P, S>, ProviderError<E>>(
            ProviderError::CodeHashMismatch {
                address: proof.address,
                found,
                expected: proof.code_hash,
            },
        ),
{
    if found == proof.code_hash {
        Ok(proof.into_account(Some(code)))
    } else {
        Err(
            ProviderError::CodeHashMismatch {
                address: proof.address,
                found,
                expected: proof.code_hash,
            },
        )
    }
}

/// What follows the block `query.block_id`: its hash pins every further read, its state root the
/// proof.
pub open spec fn after_account_block<P, S, E>(
    query: AccountQuery,
    block: Result<Option<BlockHeader>, E>,
) -> GetAccount<P, S, E> {
    match required_header(block) {
        Err(e) => GetAccount::Done(Err(e)),
        Ok(header) => GetAccount::ReadProof(
            ReadProof { query, at: BlockId::at_hash(header.hash), state_root: header.state_root },
        ),
    }
}

/// Starts to read an account: the block `query.block_id` is read.
pub fn get_account(query: AccountQuery) -> (res: ReadAccountBlock)
    ensures
        res.query == query,
        res.read == BlockRead::of_header(query.block_id),
        res.read.block_id == query.block_id,
        !res.read.full_tx,
{
    let read = BlockRead::header(query.block_id);
    ReadAccountBlock { query, read }
}

impl ReadAccountBlock {
    /// Goes on with the block that was read.
    pub fn next<P, S, E>(self, block: Result<Option<BlockHeader>, E>) -> (res: GetAccount<P, S, E>)
        ensures
            res == after_account_block::<P, S, E>(self.query, block),
    {
        match require_header(block) {
            Err(e) => GetAccount::Done(Err(e)),
            Ok(header) => GetAccount::ReadProof(
                ReadProof {
                    query: self.query,
                    at: BlockId::from_hash(header.hash),
                    state_root: header.state_root,
                },
            ),
        }
    }
}

impl ReadProof {
    /// What follows the proof: it is checked against the state root of the block.
    pub open spec fn leads_to<P, S, E>(
        self,
        reply: Result<AccountProof<P, S>, E>,
        next: GetAccount<P, S, E>,
    ) -> bool {
        next == (match reply {
            Err(e) => GetAccount::<P, S, E>::Done(Err(ProviderError::Upstream(e))),
            Ok(shown) => GetAccount::CheckAccountProof(
                CheckAccountProof {
                    query: self.query,
                    at: self.at,
                    state_root: self.state_root,
                    proof: shown,
                },
            ),
        })
    }

    /// Goes on with the proof that was read.
    pub fn next<P, S, E>(self, reply: Result<AccountProof<P, S>, E>) -> (res: GetAccount<P, S, E>)
        ensures
            self.leads_to(reply, res),
    {
        match reply {
            Err(e) => GetAccount::Done(Err(ProviderError::Upstream(e))),
            Ok(shown) => GetAccount::CheckAccountProof(
                CheckAccountProof {
                    query: self.query,
                    at: self.at,
                    state_root: self.state_root,
                    proof: shown,
                },
            ),
        }
    }
}

impl<P, S> CheckAccountProof<P, S> {
    /// What follows the check of the account proof.
    pub open spec fn leads_to<E>(self, check: Result<(), E>, next: GetAccount<P, S, E>) -> bool {
        next == (match check {
            Err(e) => GetAccount::<P, S, E>::Done(Err(ProviderError::Upstream(e))),
            Ok(_) => GetAccount::CheckStorageProof(
                CheckStorageProof { query: self.query, at: self.at, proof: self.proof },
            ),
        })
    }

    /// Goes on with the outcome of the check.
    pub fn next<E>(self, check: Result<(), E>) -> (res: GetAccount<P, S, E>)
        ensures
            self.leads_to(check, res),
    {
        match check {
            Err(e) => GetAccount::Done(Err(ProviderError::Upstream(e))),
            Ok(_) => GetAccount::CheckStorageProof(
                CheckStorageProof { query: self.query, at: self.at, proof: self.proof },
            ),
        }
    }
}

impl<P, S> CheckStorageProof<P, S> {
    /// What follows the check of the storage proofs: the account is done where no code is asked for,
    /// done with empty code where the proof says that there is none, and else its code is read at
    /// the block of the proof.
    pub open spec fn leads_to<E>(self, check: Result<(), E>, next: GetAccount<P, S, E>) -> bool {
        match check {
            Err(e) => next == GetAccount::<P, S, E>::Done(Err(ProviderError::Upstream(e))),
            Ok(_) => if !self.query.with_code {
                next == GetAccount::<P, S, E>::Done(Ok(self.proof.account(None)))
            } else if no_code(self.proof.code_hash) {
                &&& next matches GetAccount::Done(Ok(account))
                &&& account == self.proof.account(account.code)
                &&& account.code matches Some(code)
                &&& code@.len() == 0
            } else {
                next == GetAccount::<P, S, E>::ReadCode(
                    ReadCode { query: self.query, at: self.at, proof: self.proof },
                )
            },
        }
    }

    /// Goes on with the outcome of the check.
    pub fn next<E>(self, check: Result<(), E>) -> (res: GetAccount<P, S, E>)
        ensures
            self.leads_to(check, res),
    {
        match check {
            Err(e) => GetAccount::Done(Err(ProviderError::Upstream(e))),
            Ok(_) => if !self.query.with_code {
                GetAccount::Done(Ok(self.proof.into_account(None)))
            } else if self.proof.code_hash == keccak_empty() || self.proof.code_hash
                == B256::zero() {
                GetAccount::Done(Ok(self.proof.into_account(Some(Vec::new()))))
            } else {
                GetAccount::ReadCode(
                    ReadCode { query: self.query, at: self.at, proof: self.proof },
                )
            },
        }
    }
}

impl<P, S> ReadCode<P, S> {
    /// What follows the code: the account is done where the code hashes to the proven hash.
    pub open spec fn leads_to<E>(self, code: Result<Vec<u8>, E>, next: GetAccount<P, S, E>) -> bool {
        next == (match code {
            Err(e) => GetAccount::<P, S, E>::Done(Err(ProviderError::Upstream(e))),
            Ok(code) => GetAccount::Done(self.proof.with_code(code, keccak256_of(code@))),
        })
    }

    /// Goes on with the code that was read.
    pub fn next<E>(self, code: Result<Vec<u8>, E>) -> (res: GetAccount<P, S, E>)
        ensures
            self.leads_to(code, res),
    {
        match code {
            Err(e) => GetAccount::Done(Err(ProviderError::Upstream(e))),
            Ok(code) => {
                let found = keccak256(&code);
                GetAccount::Done(verify_code_hash_proof(self.proof, code, found))
            },
        }
    }
}

/// Everything that comes back, in any order of success and failure, while an account is read, and the
/// steps in between.
pub struct AccountRun<P, S, E> {
    pub query: AccountQuery,
    pub block: Result<Option<BlockHeader>, E>,
    pub after_block: GetAccount<P, S, E>,
    pub proof: Result<AccountProof<P, S>, E>,
    pub after_proof: GetAccount<P, S, E>,
    pub account_check: Result<(), E>,
    pub after_account_check: GetAccount<P, S, E>,
    pub storage_check: Result<(), E>,
    pub after_storage_check: GetAccount<P, S, E>,
    pub code: Result<Vec<u8>, E>,
    pub after_code: GetAccount<P, S, E>,
}

impl<P, S, E> AccountRun<P, S, E> {
    /// Whether each step follows from the one before and from what came back for it. A run that is
    /// done stays as it is.
    pub open spec fn valid(self) -> bool {
        &&& self.after_block == after_account_block::<P, S, E>(self.query, self.block)
        &&& match self.after_block {
            GetAccount::ReadProof(step) => step.leads_to(self.proof, self.after_proof),
            done => self.after_proof == done,
        }
        &&& match self.after_proof {
            GetAccount::CheckAccountProof(step) => step.leads_to(
                self.account_check,
                self.after_account_check,
            ),
            done => self.after_account_check == done,
        }
        &&& match self.after_account_check {
            GetAccount::CheckStorageProof(step) => step.leads_to(
                self.storage_check,
                self.after_storage_check,
            ),
            done => self.after_storage_check == done,
        }
        &&& match self.after_storage_check {
            GetAccount::ReadCode(step) => step.leads_to(self.code, self.after_code),
            done => self.after_code == done,
        }
    }
}

/// A run always ends.
pub proof fn account_run_ends<P, S, E>(run: AccountRun<P, S, E>)
    requires
        run.valid(),
    ensures
        run.after_code is Done,
{
}

/// Every state read of a run is made at the block whose header was read, by its hash, for the account
/// that was asked for, and the proof is checked against the state root of that same header.
pub proof fn account_reads_are_pinned<P, S, E>(run: AccountRun<P, S, E>)
    requires
        run.valid(),
    ensures
        run.after_block matches GetAccount::ReadProof(step) ==> {
            &&& run.block matches Ok(Some(header))
            &&& step.query == run.query
            &&& step.at == BlockId::at_hash(header.hash)
        },
        run.after_proof matches GetAccount::CheckAccountProof(step) ==> {
            &&& run.block matches Ok(Some(header))
            &&& step.state_root == header.state_root
            &&& run.proof == Ok::<AccountProof<P, S>, E>(step.proof)
        },
        run.after_storage_check matches GetAccount::ReadCode(step) ==> {
            &&& run.block matches Ok(Some(header))
            &&& step.query == run.query
            &&& step.at == BlockId::at_hash(header.hash)
        },
{
}

/// An account comes out exactly where the block is known, the proof was read and passes both checks,
/// and, where the code is asked for and the proof commits to some, the code was read and hashes to
/// the proven hash. The account is then the one that the proof shows.
pub proof fn account_is_proven<P, S, E>(run: AccountRun<P, S, E>)
    requires
        run.valid(),
    ensures
        run.after_code matches GetAccount::Done(outcome) && {
            outcome is Ok <==> {
                &&& run.block matches Ok(Some(_))
                &&& run.proof matches Ok(shown)
                &&& run.account_check is Ok
                &&& run.storage_check is Ok
                &&& run.query.with_code && !no_code(shown.code_hash) ==> {
                    &&& run.code matches Ok(code)
                    &&& keccak256_of(code@) == shown.code_hash
                }
            }
        },
        run.after_code matches GetAccount::Done(Ok(account)) ==> {
            &&& run.proof matches Ok(shown)
            &&& account == shown.account(account.code)
            &&& account.code is Some <==> run.query.with_code
        },
{
}

/// The code of an account that comes out hashes to the code hash that comes out with it, unless that
/// is zero, which stands for an account that does not exist; then the code is empty.
pub proof fn account_code_matches_its_hash<P, S, E>(run: AccountRun<P, S, E>)
    requires
        run.valid(),
    ensures
        run.after_code matches GetAccount::Done(Ok(account)) ==> (account.code matches Some(code)
            ==> if account.code_hash == zero_word() {
            code@.len() == 0
        } else {
            keccak256_of(code@) == account.code_hash
        }),
{
    if let GetAccount::Done(Ok(account)) = run.after_code {
        if let Some(code) = account.code {
            if code@.len() == 0 {
                assert(code@ =~= Seq::empty());
            }
        }
    }
}

/// Code that was read and does not hash to the proven hash is rejected, whatever it is, with an error
/// that names the account and both hashes.
pub proof fn foreign_code_is_rejected<P, S, E>(run: AccountRun<P, S, E>, code: Vec<u8>)
    requires
        run.valid(),
        run.after_storage_check is ReadCode,
        run.code == Ok::<Vec<u8>, E>(code),
        keccak256_of(code@) != run.after_storage_check->ReadCode_0.proof.code_hash,
    ensures
        run.after_code == GetAccount::<P, S, E>::Done(
            Err(
                ProviderError::CodeHashMismatch {
                    address: run.after_storage_check->ReadCode_0.proof.address,
                    found: keccak256_of(code@),
                    expected: run.after_storage_check->ReadCode_0.proof.code_hash,
                },
            ),
        ),
{
}

/// Every field of an account that comes out is the one that the checked proof shows.
pub proof fn account_holds_the_fields_of_its_proof<P, S, E>(
    run: AccountRun<P, S, E>,
    account: Account<P, S>,
)
    requires
        run.valid(),
        run.after_code == GetAccount::<P, S, E>::Done(Ok(account)),
    ensures
        run.proof matches Ok(shown) && {
            &&& account.nonce == shown.nonce
            &&& account.balance == shown.balance
            &&& account.storage_root == shown.storage_hash
            &&& account.code_hash == shown.code_hash
            &&& account.account_proof == shown.account_proof
            &&& account.storage_proof == shown.storage_proof
        },
{
}

/// The code of an account that comes out: none where it was not asked for; empty where the proven hash
/// is that of the empty code or zero in every byte; and else the code that was read, unchanged, which
/// hashes to the proven hash.
pub proof fn account_holds_the_code_that_was_read<P, S, E>(
    run: AccountRun<P, S, E>,
    account: Account<P, S>,
)
    requires
        run.valid(),
        run.after_code == GetAccount::<P, S, E>::Done(Ok(account)),
    ensures
        !run.query.with_code ==> account.code is None,
        run.query.with_code ==> {
            &&& account.code matches Some(code)
            &&& run.proof matches Ok(shown)
            &&& if shown.code_hash == keccak256_of(Seq::empty()) || (forall|i: int|
                0 <= i < 32 ==> #[trigger] shown.code_hash.0[i] == 0) {
                code@.len() == 0
            } else {
                run.code == Ok::<Vec<u8>, E>(code) && keccak256_of(code@) == shown.code_hash
            }
        },
{
    if let Ok(shown) = run.proof {
        code_hash_says_no_code(shown.code_hash);
    }
}

/// A code hash says that there is no code exactly where it is the hash of the empty code, or zero in
/// every byte.
pub proof fn code_hash_says_no_code(code_hash: B256)
    ensures
        no_code(code_hash) <==> code_hash == keccak256_of(Seq::empty()) || forall|i: int|
            0 <= i < 32 ==> #[trigger] code_hash.0[i] == 0,
{
    if forall|i: int| 0 <= i < 32 ==> #[trigger] code_hash.0[i] == 0 {
        all_zero_bytes_are_the_zero_word(code_hash);
    }
    if code_hash == zero_word() {
        assert forall|i: int| 0 <= i < 32 implies #[trigger] code_hash.0[i] == 0 by {
            zero_is_zero_in_every_byte(i);
        }
    }
}

/// A query that fails ends with the error of the first read or check that failed, handed on
/// unchanged. A failure behind it does not show, and neither does one of a read that was not needed.
pub proof fn first_account_error_is_handed_on<P, S, E>(run: AccountRun<P, S, E>)
    requires
        run.valid(),
    ensures
        match run.block {
            Err(e) => run.after_code == GetAccount::<P, S, E>::Done(
                Err(ProviderError::Upstream(e)),
            ),
            Ok(None) => run.after_code == GetAccount::<P, S, E>::Done(
                Err(ProviderError::BlockNotFound),
            ),
            Ok(Some(_)) => match run.proof {
                Err(e) => run.after_code == GetAccount::<P, S, E>::Done(
                    Err(ProviderError::Upstream(e)),
                ),
                Ok(shown) => match run.account_check {
                    Err(e) => run.after_code == GetAccount::<P, S, E>::Done(
                        Err(ProviderError::Upstream(e)),
                    ),
                    Ok(_) => match run.storage_check {
                        Err(e) => run.after_code == GetAccount::<P, S, E>::Done(
                            Err(ProviderError::Upstream(e)),
                        ),
                        Ok(_) => {
                            let zero = forall|i: int|
                                0 <= i < 32 ==> #[trigger] shown.code_hash.0[i] == 0;
                            if !run.query.with_code || zero || shown.code_hash == keccak256_of(
                                Seq::empty(),
                            ) {
                                run.after_code matches GetAccount::Done(Ok(_))
                            } else {
                                match run.code {
                                    Err(e) => run.after_code == GetAccount::<P, S, E>::Done(
                                        Err(ProviderError::Upstream(e)),
                                    ),
                                    Ok(code) => if keccak256_of(code@) == shown.code_hash {
                                        run.after_code matches GetAccount::Done(Ok(_))
                                    } else {
                                        run.after_code == GetAccount::<P, S, E>::Done(
                                            Err(
                                                ProviderError::CodeHashMismatch {
                                                    address: shown.address,
                                                    found: keccak256_of(code@),
                                                    expected: shown.code_hash,
                                                },
                                            ),
                                        )
                                    },
                                }
                            }
                        },
                    },
                },
            },
        },
{
    if let Ok(shown) = run.proof {
        code_hash_says_no_code(shown.code_hash);
    }
}

/// Every step of a run carries the query as it was asked, the hash of the header that was read, and
/// the proof that was read; the proof is checked against the state root of that header.
pub proof fn account_steps_carry_what_was_read<P, S, E>(run: AccountRun<P, S, E>)
    requires
        run.valid(),
    ensures
        run.after_block matches GetAccount::ReadProof(step) ==> {
            &&& run.block matches Ok(Some(header))
            &&& step.query == run.query
            &&& step.state_root == header.state_root
            &&& step.at matches BlockId::Hash { block_hash, require_canonical }
            &&& block_hash == header.hash
            &&& require_canonical is None
        },
        run.after_proof matches GetAccount::CheckAccountProof(step) ==> {
            &&& run.block matches Ok(Some(header))
            &&& run.proof matches Ok(shown)
            &&& step.query == run.query
            &&& step.proof == shown
            &&& step.state_root == header.state_root
            &&& step.at matches BlockId::Hash { block_hash, require_canonical }
            &&& block_hash == header.hash
            &&& require_canonical is None
        },
        run.after_account_check matches GetAccount::CheckStorageProof(step) ==> {
            &&& run.block matches Ok(Some(header))
            &&& run.proof matches Ok(shown)
            &&& step.query == run.query
            &&& step.proof == shown
            &&& step.at matches BlockId::Hash { block_hash, require_canonical }
            &&& block_hash == header.hash
            &&& require_canonical is None
        },
        run.after_storage_check matches GetAccount::ReadCode(step) ==> {
            &&& run.block matches Ok(Some(header))
            &&& run.proof matches Ok(shown)
            &&& step.query == run.query
            &&& step.proof == shown
            &&& step.at matches BlockId::Hash { block_hash, require_canonical }
            &&& block_hash == header.hash
            &&& require_canonical is None
        },
        run.block matches Ok(Some(_)) ==> run.after_block is ReadProof,
        run.block matches Ok(Some(_)) && run.proof is Ok ==> run.after_proof is CheckAccountProof,
        run.block matches Ok(Some(_)) && run.proof is Ok && run.account_check is Ok
            ==> run.after_account_check is CheckStorageProof,
{
}

/// Code is accepted exactly where its hash is the one that the proof commits to, whatever the code and
/// the hash are; the account then has that code and the fields of the proof.
pub proof fn code_is_accepted_by_its_hash<P, S, E>(
    shown: AccountProof<P, S>,
    code: Vec<u8>,
    found: B256,
)
    ensures
        shown.with_code::<E>(code, found) is Ok <==> found == shown.code_hash,
        shown.with_code::<E>(code, found) matches Ok(account) ==> {
            &&& account.code == Some(code)
            &&& account.nonce == shown.nonce
            &&& account.balance == shown.balance
            &&& account.storage_root == shown.storage_hash
            &&& account.code_hash == shown.code_hash
            &&& account.account_proof == shown.account_proof
            &&& account.storage_proof == shown.storage_proof
        },
        shown.with_code::<E>(code, found) matches Err(e) ==> e == (
        ProviderError::<E>::CodeHashMismatch {
            address: shown.address,
            found,
            expected: shown.code_hash,
        }),
{
}

} // verus!
