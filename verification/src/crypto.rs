//! What this crate relies on from `alloy` and `alloy_trie`: Keccak-256 and the RLP form of a log.

use crate::types::{Address, B256};
use vstd::prelude::*;

verus! {

/// The Keccak-256 hash of a byte string.
pub uninterp spec fn keccak256_of(bytes: Seq<u8>) -> B256;

/// The RLP form of a log: its address, its topics and its data, as one list.
pub uninterp spec fn rlp_log(address: Seq<u8>, topics: Seq<Seq<u8>>, data: Seq<u8>) -> Seq<u8>;

/// The address, the topics and the data that `Log::decode` reads from an RLP form.
pub uninterp spec fn rlp_decoded_log(form: Seq<u8>) -> (Seq<u8>, Seq<Seq<u8>>, Seq<u8>);

/// The bytes of a list of words.
pub open spec fn word_bytes(words: Seq<B256>) -> Seq<Seq<u8>> {
    Seq::new(words.len(), |i: int| words[i].0@)
}

/// `alloy::primitives::keccak256`: the Keccak-256 hash of the bytes.
#[verifier::external_body]
pub(crate) fn keccak256(bytes: &Vec<u8>) -> (res: B256)
    ensures
        res == keccak256_of(bytes@),
{
    B256(alloy::primitives::keccak256(bytes).0)
}

/// `alloy_trie::KECCAK_EMPTY`: the Keccak-256 hash of the empty byte string.
#[verifier::external_body]
pub(crate) fn keccak_empty() -> (res: B256)
    ensures
        res == keccak256_of(Seq::empty()),
        res.0@ == seq![
            0xc5u8, 0xd2, 0x46, 0x01, 0x86, 0xf7, 0x23, 0x3c, 0x92, 0x7e, 0x7d, 0xb2, 0xdc, 0xc7,
            0x03, 0xc0, 0xe5, 0x00, 0xb6, 0x53, 0xca, 0x82, 0x27, 0x3b, 0x7b, 0xfa, 0xd8, 0x04,
            0x5d, 0x85, 0xa4, 0x70,
        ],
{
    B256(alloy_trie::KECCAK_EMPTY.0)
}

/// `alloy::rlp::encode` of a `Log` with this address, these topics and this data. `Log::decode` reads
/// back from the form what the log was made of.
#[verifier::external_body]
pub(crate) fn encode_log(address: &Address, topics: &Vec<B256>, data: &Vec<u8>) -> (res: Vec<u8>)
    ensures
        res@ == rlp_log(address.0@, word_bytes(topics@), data@),
        rlp_decoded_log(res@) == (address.0@, word_bytes(topics@), data@),
{
    alloy::rlp::encode(
        alloy::primitives::Log::new_unchecked(
            alloy::primitives::Address::new(address.0),
            topics.iter().map(|topic| alloy::primitives::B256::new(topic.0)).collect(),
            data.clone().into(),
        ),
    )
}

/// The bytes of words are those of the words at the same place.
pub proof fn word_bytes_keep_their_place(words: Seq<B256>)
    ensures
        word_bytes(words).len() == words.len(),
        forall|i: int| 0 <= i < words.len() ==> #[trigger] word_bytes(words)[i] == words[i].0@,
{
}

} // verus!
