use helios_rpc::account::{
    get_account, verify_code_hash_proof, Account, AccountProof, AccountQuery, GetAccount,
};
use helios_rpc::types::{Address, BlockHeader, BlockId, BlockNumberOrTag, BlockRead, ProviderError, B256};

type Proof = AccountProof<Vec<u8>, Vec<u32>>;
type Step = GetAccount<Vec<u8>, Vec<u32>, &'static str>;

const FOREIGN_CODE: [u8; 22] = [
    0xef, 0x01, 0x00, 0, 0, 0, 0, 0, 0, 0, 0, 0, 0, 0, 0, 0, 0, 0, 0, 0, 0, 0xff,
];

/// The Keccak-256 hash of `abc`.
const ABC_HASH: [u8; 32] = [
    0x4e, 0x03, 0x65, 0x7a, 0xea, 0x45, 0xa9, 0x4f, 0xc7, 0xd4, 0x7b, 0xa8, 0x26, 0xc8, 0xd6, 0x67,
    0xc0, 0xd1, 0xe6, 0xe3, 0x3a, 0x64, 0xa0, 0x36, 0xec, 0x44, 0xf5, 0x8f, 0xa1, 0x2d, 0x6c, 0x45,
];

/// The Keccak-256 hash of nothing.
const EMPTY_HASH: [u8; 32] = [
    0xc5, 0xd2, 0x46, 0x01, 0x86, 0xf7, 0x23, 0x3c, 0x92, 0x7e, 0x7d, 0xb2, 0xdc, 0xc7, 0x03, 0xc0,
    0xe5, 0x00, 0xb6, 0x53, 0xca, 0x82, 0x27, 0x3b, 0x7b, 0xfa, 0xd8, 0x04, 0x5d, 0x85, 0xa4, 0x70,
];

fn word(byte: u8) -> B256 {
    B256([byte; 32])
}

fn address() -> Address {
    Address([0x11; 20])
}

fn header() -> BlockHeader {
    BlockHeader { hash: word(1), number: 7, state_root: word(2), beneficiary: Address([9; 20]) }
}

fn query(with_code: bool) -> AccountQuery {
    AccountQuery {
        address: address(),
        slots: vec![word(5)],
        with_code,
        block_id: BlockId::Number(BlockNumberOrTag::Number(7)),
    }
}

fn shown_proof(code_hash: [u8; 32]) -> Proof {
    AccountProof {
        address: address(),
        nonce: 3,
        balance: word(4),
        storage_hash: word(6),
        code_hash: B256(code_hash),
        account_proof: vec![1, 2, 3],
        storage_proof: vec![10, 20],
    }
}

/// The step after the storage check of an account whose block is known and whose proof passes.
fn proven(with_code: bool, code_hash: [u8; 32]) -> Step {
    let step = match get_account(query(with_code)).next(Ok(Some(header()))) {
        Step::ReadProof(step) => step,
        other => panic!("{other:?}"),
    };
    let step = match step.next(Ok(shown_proof(code_hash))) {
        Step::CheckAccountProof(step) => step,
        other => panic!("{other:?}"),
    };
    assert_eq!(step.state_root, word(2));
    match step.next(Ok(())) {
        Step::CheckStorageProof(step) => step.next(Ok(())),
        other => panic!("{other:?}"),
    }
}

fn outcome(step: Step) -> Result<Account<Vec<u8>, Vec<u32>>, ProviderError<&'static str>> {
    match step {
        Step::Done(outcome) => outcome,
        other => panic!("{other:?}"),
    }
}

#[test]
fn code_is_read_at_the_requested_block_not_at_latest() {
    let block_ref = BlockId::Hash { block_hash: header().hash, require_canonical: None };
    let mut reads: Vec<(&str, Address, Vec<B256>, BlockId)> = Vec::new();

    let query = AccountQuery { slots: vec![], ..query(true) };
    let block_id = query.block_id;
    let step = get_account(query);
    assert_eq!(step.read, BlockRead { block_id, full_tx: false });
    let step = match step.next(Ok(Some(header()))) {
        Step::ReadProof(step) => step,
        other => panic!("{other:?}"),
    };
    reads.push(("eth_getProof", step.query.address, step.query.slots.clone(), step.at));
    let step = match step.next(Ok(shown_proof(ABC_HASH))) {
        Step::CheckAccountProof(step) => step,
        other => panic!("{other:?}"),
    };
    let step = match step.next(Ok(())) {
        Step::CheckStorageProof(step) => step,
        other => panic!("{other:?}"),
    };
    let step = match step.next(Ok(())) {
        Step::ReadCode(step) => step,
        other => panic!("{other:?}"),
    };
    reads.push(("eth_getCode", step.query.address, vec![], step.at));
    assert_eq!(
        reads,
        vec![
            ("eth_getProof", address(), vec![], block_ref),
            ("eth_getCode", address(), vec![], block_ref),
        ],
        "both the proof and the code must be read at the requested block"
    );

    let code = if step.at == block_ref { b"abc".to_vec() } else { FOREIGN_CODE.to_vec() };
    let account = outcome(step.next(Ok(code)))
        .expect("account must verify when code is read at the right block");
    assert_eq!(
        account.code.expect("code requested"),
        b"abc".to_vec(),
        "the code returned must be the code at the requested block"
    );
}

#[test]
fn code_that_does_not_match_the_proven_hash_is_still_rejected() {
    let step = match proven(true, ABC_HASH) {
        Step::ReadCode(step) => step,
        other => panic!("{other:?}"),
    };
    let err = outcome(step.next(Ok(FOREIGN_CODE.to_vec())))
        .expect_err("code that does not match the proven code hash must be rejected");
    assert_eq!(err.message(), Some("code hash mismatch"));
    match err {
        ProviderError::CodeHashMismatch { address: named, found, expected } => {
            assert_eq!(named, address());
            assert_eq!(expected, B256(ABC_HASH));
            assert_eq!(found.0, alloy::primitives::keccak256(FOREIGN_CODE).0);
        }
        other => panic!("expected a code hash mismatch, got: {other:?}"),
    }
}

#[test]
fn proof_is_asked_for_with_the_slots_of_the_query() {
    match get_account(query(true)).next(Ok(Some(header()))) {
        Step::ReadProof(step) => {
            assert_eq!(step.query.address, address());
            assert_eq!(step.query.slots, vec![word(5)]);
        }
        other => panic!("{other:?}"),
    }
}

#[test]
fn account_is_what_the_proof_shows() {
    let step = match proven(true, ABC_HASH) {
        Step::ReadCode(step) => step,
        other => panic!("{other:?}"),
    };
    let account = outcome(step.next(Ok(b"abc".to_vec()))).unwrap();
    assert_eq!(account.nonce, 3);
    assert_eq!(account.balance, word(4));
    assert_eq!(account.storage_root, word(6));
    assert_eq!(account.code_hash, B256(ABC_HASH));
    assert_eq!(account.account_proof, vec![1, 2, 3]);
    assert_eq!(account.storage_proof, vec![10, 20]);
}

#[test]
fn accounts_without_code_need_no_read() {
    for code_hash in [EMPTY_HASH, [0; 32]] {
        let account = outcome(proven(true, code_hash)).unwrap();
        assert_eq!(account.code, Some(vec![]));
        assert_eq!(account.code_hash, B256(code_hash));
    }
}

#[test]
fn code_is_left_out_where_it_is_not_asked_for() {
    for code_hash in [ABC_HASH, EMPTY_HASH, [0; 32]] {
        assert_eq!(outcome(proven(false, code_hash)).unwrap().code, None);
    }
}

#[test]
fn empty_code_is_rejected_where_the_proof_commits_to_some() {
    let step = match proven(true, ABC_HASH) {
        Step::ReadCode(step) => step,
        other => panic!("{other:?}"),
    };
    match outcome(step.next(Ok(vec![]))) {
        Err(ProviderError::CodeHashMismatch { found, .. }) => assert_eq!(found, B256(EMPTY_HASH)),
        other => panic!("{other:?}"),
    }
}

#[test]
fn account_errors_end_the_query() {
    let e: ProviderError<&'static str> = outcome(get_account(query(true)).next(Ok(None))).unwrap_err();
    assert_eq!(e, ProviderError::BlockNotFound);
    assert_eq!(e.message(), Some("block not found"));
    let e = outcome(get_account(query(true)).next(Err("block"))).unwrap_err();
    assert_eq!(e, ProviderError::Upstream("block"));
    assert_eq!(e.message(), None);

    let read_proof = || match get_account(query(true)).next(Ok(Some(header()))) {
        Step::ReadProof(step) => step,
        other => panic!("{other:?}"),
    };
    assert_eq!(
        outcome(read_proof().next(Err("proof"))).unwrap_err(),
        ProviderError::Upstream("proof")
    );
    let check = || match read_proof().next(Ok(shown_proof(ABC_HASH))) {
        Step::CheckAccountProof(step) => step,
        other => panic!("{other:?}"),
    };
    assert_eq!(
        outcome(check().next(Err("account"))).unwrap_err(),
        ProviderError::Upstream("account")
    );
    let storage = || match check().next(Ok(())) {
        Step::CheckStorageProof(step) => step,
        other => panic!("{other:?}"),
    };
    assert_eq!(
        outcome(storage().next(Err("storage"))).unwrap_err(),
        ProviderError::Upstream("storage")
    );
    match storage().next(Ok(())) {
        Step::ReadCode(step) => assert_eq!(
            outcome(step.next(Err("code"))).unwrap_err(),
            ProviderError::Upstream("code")
        ),
        other => panic!("{other:?}"),
    }
}

#[test]
fn code_is_accepted_by_its_hash_alone() {
    let ok: Result<_, ProviderError<()>> =
        verify_code_hash_proof(shown_proof(ABC_HASH), vec![1], B256(ABC_HASH));
    assert_eq!(ok.unwrap().code, Some(vec![1]));
    let err: Result<_, ProviderError<()>> =
        verify_code_hash_proof(shown_proof(ABC_HASH), vec![1], word(8));
    assert_eq!(
        err.unwrap_err(),
        ProviderError::CodeHashMismatch {
            address: address(),
            found: word(8),
            expected: B256(ABC_HASH),
        }
    );
}
