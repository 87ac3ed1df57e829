//! What this crate relies on from `http` and `url`: header values, header maps and query strings.

use http::header::InvalidHeaderValue;
use http::{HeaderMap, HeaderValue, Uri};
use vstd::prelude::*;
use vstd::string::StringSliceAdditionalSpecFns;

verus! {

/// An `http` header value.
#[verifier::external_type_specification]
#[verifier::external_body]
pub struct ExHeaderValue(http::HeaderValue);

/// The error of building a header value from a string that holds a forbidden byte.
#[verifier::external_type_specification]
#[verifier::external_body]
pub struct ExInvalidHeaderValue(http::header::InvalidHeaderValue);

/// A multimap from header names to values.
#[verifier::external_type_specification]
#[verifier::external_body]
#[verifier::reject_recursive_types(T)]
pub struct ExHeaderMap<T>(http::HeaderMap<T>);

/// A request target.
#[verifier::external_type_specification]
#[verifier::external_body]
pub struct ExUri(http::Uri);

/// The octets of a header value, as `HeaderValue::as_bytes` shows them.
pub uninterp spec fn header_bytes(value: HeaderValue) -> Seq<u8>;

/// Whether a header value is marked sensitive, as `HeaderValue::is_sensitive` shows it.
pub uninterp spec fn header_is_sensitive(value: HeaderValue) -> bool;

/// What a header map holds: under each lowercase header name its values, oldest first.
pub uninterp spec fn header_contents(map: HeaderMap<HeaderValue>) -> Map<Seq<char>, Seq<HeaderContent>>;

/// The query component of a request target, as `Uri::query` shows it.
pub uninterp spec fn uri_query(uri: Uri) -> Option<Seq<char>>;

/// The name-value pairs of a form-urlencoded byte string, percent-decoded, in order.
pub uninterp spec fn form_pairs(input: Seq<u8>) -> Seq<(Seq<char>, Seq<char>)>;

/// What a header value carries: its octets, and the mark that keeps it out of logs and caches.
pub struct HeaderContent {
    pub bytes: Seq<u8>,
    pub sensitive: bool,
}

/// What a header value carries.
pub open spec fn header_content(value: HeaderValue) -> HeaderContent {
    HeaderContent { bytes: header_bytes(value), sensitive: header_is_sensitive(value) }
}

/// Whether a byte may stand in a header value: a tab, or anything from the space on but DEL.
pub open spec fn header_byte_allowed(b: u8) -> bool {
    b == 9 || (b >= 32 && b != 127)
}

/// Whether every byte of a string may stand in a header value.
pub open spec fn header_text_allowed(text: Seq<u8>) -> bool {
    forall|i: int| 0 <= i < text.len() ==> header_byte_allowed(#[trigger] text[i])
}

/// The contents of a header map without headers.
pub open spec fn no_headers() -> Map<Seq<char>, Seq<HeaderContent>> {
    Map::empty()
}

/// The texts of a list of name-value pairs.
pub open spec fn pair_texts(pairs: Seq<(String, String)>) -> Seq<(Seq<char>, Seq<char>)> {
    Seq::new(pairs.len(), |i: int| (pairs[i].0@, pairs[i].1@))
}

/// `HeaderValue::clone` copies the octets and the sensitivity mark.
pub assume_specification[ <HeaderValue as Clone>::clone ](value: &HeaderValue) -> (res: HeaderValue)
    ensures
        header_bytes(res) == header_bytes(*value),
        header_is_sensitive(res) == header_is_sensitive(*value),
;

/// `HeaderValue::from_str` accepts a string exactly when every byte of it may stand in a header
/// value, and then holds those bytes, not marked sensitive.
pub assume_specification[ HeaderValue::from_str ](src: &str) -> (res: Result<
    HeaderValue,
    InvalidHeaderValue,
>)
    ensures
        res is Ok <==> header_text_allowed(src.spec_bytes()),
        res matches Ok(value) ==> header_bytes(value) == src.spec_bytes(),
        res matches Ok(value) ==> !header_is_sensitive(value),
;

/// `HeaderMap::with_capacity` with room for one header makes an empty map.
#[verifier::external_body]
pub(crate) fn one_header_map() -> (res: HeaderMap<HeaderValue>)
    ensures
        header_contents(res) == no_headers(),
{
    HeaderMap::with_capacity(1)
}

/// `HeaderMap::insert` under the `Authorization` name, which `http` spells in lowercase: the value
/// is the only one that stands under that name afterwards, and all other names keep theirs. `insert`
/// panics where a map would outgrow its limit and hands back a value that it replaces; the map must
/// be empty, which rules both out.
#[verifier::external_body]
pub(crate) fn insert_authorization(map: &mut HeaderMap<HeaderValue>, value: HeaderValue) -> (res:
    Option<HeaderValue>)
    requires
        header_contents(*old(map)) == no_headers(),
    ensures
        header_contents(*final(map)) == header_contents(*old(map)).insert(
            "authorization"@,
            seq![header_content(value)],
        ),
        res is None,
{
    map.insert(http::header::AUTHORIZATION, value)
}

/// `HeaderMap::get` of the `Authorization` name: the first value that stands under it, if any.
#[verifier::external_body]
pub(crate) fn get_authorization(map: &HeaderMap<HeaderValue>) -> (res: Option<&HeaderValue>)
    ensures
        res is Some <==> header_contents(*map).contains_key("authorization"@),
        res matches Some(value) ==> header_contents(*map)["authorization"@].len() > 0
            && header_content(*value) == header_contents(*map)["authorization"@][0],
{
    map.get(http::header::AUTHORIZATION)
}

/// `Uri::query` hands out the query component of the target, if it has one.
#[verifier::external_body]
pub(crate) fn query_of(uri: &Uri) -> (res: Option<&str>)
    ensures
        (match res {
            Some(query) => Some(query@),
            None => None::<Seq<char>>,
        }) == uri_query(*uri),
{
    uri.query()
}

/// `form_urlencoded::parse` splits the bytes at `&` and at the first `=` of each piece, skips empty
/// pieces, and decodes `+`, percent escapes and UTF-8 (lossily) in what is left. The pairs are a
/// function of the bytes alone.
#[verifier::external_body]
pub(crate) fn parse_form(query: &str) -> (res: Vec<(String, String)>)
    ensures
        pair_texts(res@) == form_pairs(query.spec_bytes()),
{
    url::form_urlencoded::parse(query.as_bytes()).into_owned().collect()
}

/// A byte is allowed in a header value exactly where it is a tab, or neither a control character nor
/// DEL; and a text exactly where all its bytes are, however many they are.
pub proof fn allowed_text_has_no_control_bytes(text: Seq<u8>)
    ensures
        header_text_allowed(text) <==> forall|i: int|
            0 <= i < text.len() ==> (#[trigger] text[i] == 9 || (text[i] >= 32 && text[i] != 127)),
{
    if header_text_allowed(text) {
        assert forall|i: int| 0 <= i < text.len() implies (#[trigger] text[i] == 9 || (text[i] >= 32
            && text[i] != 127)) by {
            assert(header_byte_allowed(text[i]));
        }
    }
}

/// What a header value carries are its octets and its mark.
pub proof fn header_carries_octets_and_mark(value: HeaderValue)
    ensures
        header_content(value).bytes == header_bytes(value),
        header_content(value).sensitive == header_is_sensitive(value),
{
}

/// The texts of pairs are those of the pairs at the same place, name and value.
pub proof fn pair_texts_keep_their_place(pairs: Seq<(String, String)>)
    ensures
        pair_texts(pairs).len() == pairs.len(),
        forall|i: int|
            0 <= i < pairs.len() ==> (#[trigger] pair_texts(pairs)[i]).0 == pairs[i].0@
                && pair_texts(pairs)[i].1 == pairs[i].1@,
{
}

/// There is no name under which a map without headers holds one.
pub proof fn no_headers_under_any_name(name: Seq<char>)
    ensures
        !no_headers().contains_key(name),
{
}

} // verus!
