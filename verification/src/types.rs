//! Plain values shared by every query: hashes, addresses, block references and headers.

use vstd::prelude::*;

verus! {

/// Whether two byte arrays hold the same bytes.
fn same_bytes<const N: usize>(a: &[u8; N], b: &[u8; N]) -> (res: bool)
    ensures
        res == (*a == *b),
{
    let mut i: usize = 0;
    while i < N
        invariant
            i <= N,
            forall|j: int| 0 <= j < i ==> a[j] == b[j],
        decreases N - i,
    {
        if a[i] != b[i] {
            return false;
        }
        i += 1;
    }
    assert(*a =~= *b);
    true
}

/// A 32-byte word: a block hash, a transaction hash, a storage key, a code hash.
#[derive(Clone, Copy, Debug, Eq)]
pub struct B256(pub [u8; 32]);

/// A 20-byte account address.
#[derive(Clone, Copy, Debug, Eq)]
pub struct Address(pub [u8; 20]);

impl PartialEq for B256 {
    fn eq(&self, other: &Self) -> (res: bool) {
        same_bytes(&self.0, &other.0)
    }
}

impl vstd::std_specs::cmp::PartialEqSpecImpl for B256 {
    open spec fn obeys_eq_spec() -> bool {
        true
    }

    open spec fn eq_spec(&self, other: &Self) -> bool {
        *self == *other
    }
}

impl PartialEq for Address {
    fn eq(&self, other: &Self) -> (res: bool) {
        same_bytes(&self.0, &other.0)
    }
}

impl vstd::std_specs::cmp::PartialEqSpecImpl for Address {
    open spec fn obeys_eq_spec() -> bool {
        true
    }

    open spec fn eq_spec(&self, other: &Self) -> bool {
        *self == *other
    }
}

/// The word whose bytes are all zero.
pub open spec fn zero_word() -> B256 {
    B256(vstd::array::spec_array_fill_for_copy_type::<u8, 32>(0))
}

/// The address whose bytes are all zero.
pub open spec fn zero_address() -> Address {
    Address(vstd::array::spec_array_fill_for_copy_type::<u8, 20>(0))
}

impl B256 {
    /// The word whose bytes are all zero.
    pub fn zero() -> (res: Self)
        ensures
            res == zero_word(),
            forall|i: int| 0 <= i < 32 ==> #[trigger] res.0[i] == 0,
    {
        B256([0u8; 32])
    }
}

impl Address {
    /// The address whose bytes are all zero.
    pub fn zero() -> (res: Self)
        ensures
            res == zero_address(),
            forall|i: int| 0 <= i < 20 ==> #[trigger] res.0[i] == 0,
    {
        Address([0u8; 20])
    }
}

/// A block by its number or by a tag that moves with the chain.
#[derive(Clone, Copy, Debug, PartialEq, Eq, Structural)]
pub enum BlockNumberOrTag {
    Latest,
    Finalized,
    Safe,
    Earliest,
    Pending,
    Number(u64),
}

/// A reference to a block.
#[derive(Clone, Copy, Debug, PartialEq, Eq)]
pub enum BlockId {
    /// A block by its hash, and whether it has to be on the canonical chain.
    Hash { block_hash: B256, require_canonical: Option<bool> },
    /// A block by its number or a tag.
    Number(BlockNumberOrTag),
}

impl BlockId {
    /// A reference to the block with this hash, that leaves open whether it is canonical.
    pub open spec fn at_hash(hash: B256) -> Self {
        BlockId::Hash { block_hash: hash, require_canonical: None }
    }

    /// A reference to the block with this hash, that leaves open whether it is canonical.
    pub fn from_hash(hash: B256) -> (res: Self)
        ensures
            res == Self::at_hash(hash),
            res matches BlockId::Hash { block_hash, require_canonical } && block_hash == hash
                && require_canonical is None,
    {
        BlockId::Hash { block_hash: hash, require_canonical: None }
    }

    /// A reference to the block with this number.
    pub fn from_number(number: u64) -> (res: Self)
        ensures
            res == BlockId::Number(BlockNumberOrTag::Number(number)),
    {
        BlockId::Number(BlockNumberOrTag::Number(number))
    }
}

/// A block to read from the verified blocks, and whether it is read with full transactions.
#[derive(Clone, Copy, Debug, PartialEq, Eq)]
pub struct BlockRead {
    pub block_id: BlockId,
    pub full_tx: bool,
}

impl BlockRead {
    /// A read of a block of which only the header is needed.
    pub open spec fn of_header(block_id: BlockId) -> Self {
        BlockRead { block_id, full_tx: false }
    }

    /// A read of a block with full transactions.
    pub open spec fn of_transactions(block_id: BlockId) -> Self {
        BlockRead { block_id, full_tx: true }
    }

    /// A read of a block of which only the header is needed.
    pub fn header(block_id: BlockId) -> (res: Self)
        ensures
            res == Self::of_header(block_id),
            res.block_id == block_id,
            !res.full_tx,
    {
        BlockRead { block_id, full_tx: false }
    }

    /// A read of a block with full transactions.
    pub fn transactions(block_id: BlockId) -> (res: Self)
        ensures
            res == Self::of_transactions(block_id),
            res.block_id == block_id,
            res.full_tx,
    {
        BlockRead { block_id, full_tx: true }
    }
}

/// What the queries read from the header of a verified block.
#[derive(Clone, Copy, Debug, PartialEq, Eq)]
pub struct BlockHeader {
    pub hash: B256,
    pub number: u64,
    pub state_root: B256,
    pub beneficiary: Address,
}

/// Why a query failed.
#[derive(Debug, PartialEq, Eq)]
pub enum ProviderError<E> {
    /// A read or a proof check failed; its error is handed on unchanged.
    Upstream(E),
    /// A block that the query needs is not known.
    BlockNotFound,
    /// The upstream does not know the receipt.
    ReceiptNotFound,
    /// The upstream has no receipts for a block that is known.
    ReceiptFetchFailed,
    /// The receipts of the transaction do not list a log that the upstream returned.
    MissingLog { tx_hash: B256, log_index: u64 },
    /// The code of an account does not hash to the code hash that its proof commits to.
    CodeHashMismatch { address: Address, found: B256, expected: B256 },
}

impl<E> ProviderError<E> {
    /// What went wrong, in words; an error from a read or a proof check speaks for itself.
    pub fn message(&self) -> (res: Option<&'static str>)
        ensures
            res is None <==> self is Upstream,
            self is BlockNotFound ==> res->0@ == "block not found"@,
            self is ReceiptNotFound ==> res->0@ == "receipt not found"@,
            self is ReceiptFetchFailed ==> res->0@ == "receipt fetch failed"@,
            self is MissingLog ==> res->0@ == "missing log"@,
            self is CodeHashMismatch ==> res->0@ == "code hash mismatch"@,
    {
        match self {
            ProviderError::Upstream(_) => None,
            ProviderError::BlockNotFound => Some("block not found"),
            ProviderError::ReceiptNotFound => Some("receipt not found"),
            ProviderError::ReceiptFetchFailed => Some("receipt fetch failed"),
            ProviderError::MissingLog { .. } => Some("missing log"),
            ProviderError::CodeHashMismatch { .. } => Some("code hash mismatch"),
        }
    }
}

/// Every byte of the zero word and of the zero address is zero.
pub proof fn zero_is_zero_in_every_byte(i: int)
    ensures
        0 <= i < 32 ==> zero_word().0[i] == 0,
        0 <= i < 20 ==> zero_address().0[i] == 0,
{
}

/// A word that is zero in every byte is the zero word.
pub proof fn all_zero_bytes_are_the_zero_word(word: B256)
    requires
        forall|i: int| 0 <= i < 32 ==> #[trigger] word.0[i] == 0,
    ensures
        word == zero_word(),
{
    assert(word.0 =~= zero_word().0);
}

/// An address that is zero in every byte is the zero address.
pub proof fn all_zero_bytes_are_the_zero_address(address: Address)
    requires
        forall|i: int| 0 <= i < 20 ==> #[trigger] address.0[i] == 0,
    ensures
        address == zero_address(),
{
    assert(address.0 =~= zero_address().0);
}

/// A reference by hash names that hash and leaves open whether the block is canonical, and two
/// hashes give two references.
pub proof fn reference_by_hash_names_the_hash(hash: B256, other: B256)
    ensures
        BlockId::at_hash(hash) matches BlockId::Hash { block_hash, require_canonical } && block_hash
            == hash && require_canonical is None,
        BlockId::at_hash(hash) == BlockId::at_hash(other) ==> hash == other,
{
}

/// A read is of the block that it is made for; it brings full transactions exactly where it is made
/// to.
pub proof fn reads_are_of_their_block(block_id: BlockId)
    ensures
        BlockRead::of_header(block_id).block_id == block_id,
        !BlockRead::of_header(block_id).full_tx,
        BlockRead::of_transactions(block_id).block_id == block_id,
        BlockRead::of_transactions(block_id).full_tx,
{
}

} // verus!
