//! Forward inbound `Authorization` credentials to upstream RPC calls.
//!
//! A gateway authenticates each caller with a token, and the same token must reach the upstream
//! provider. The credential is captured from the inbound HTTP request ([`AuthCaptureService`]), put
//! in scope for one JSON-RPC call ([`AuthScopeService`]), and attached to every upstream request
//! made in that scope ([`AuthForwardService`]).

use crate::headers::{
    form_pairs, get_authorization, header_bytes, header_content, header_contents,
    header_is_sensitive, header_text_allowed, insert_authorization, no_headers, one_header_map,
    pair_texts, parse_form, query_of, uri_query, HeaderContent,
};
use crate::packets::{
    auth_content, captured_auth, close_packet, get_auth, insert_auth, open_packet, other_extensions,
    other_request_extensions, packet_is_batch, packet_requests, request_content, request_headers,
    set_request_headers, Packet,
};
use alloy::rpc::json_rpc::{RequestPacket, SerializedRequest};
use http::{Extensions, HeaderMap, HeaderValue, Uri};
use vstd::prelude::*;
use vstd::string::StrSliceExecFns;

verus! {

/// A captured `Authorization` header.
#[derive(Debug)]
pub struct AuthValue(HeaderValue);

impl View for AuthValue {
    type V = HeaderContent;

    closed spec fn view(&self) -> HeaderContent {
        header_content(self.0)
    }
}

impl Clone for AuthValue {
    fn clone(&self) -> (res: Self)
        ensures
            res@ == self@,
    {
        AuthValue(self.0.clone())
    }
}

impl AuthValue {
    /// Wraps a header value.
    pub fn new(value: HeaderValue) -> (res: Self)
        ensures
            res@ == header_content(value),
    {
        AuthValue(value)
    }

    /// Borrow the wrapped header value.
    pub fn header(&self) -> (res: &HeaderValue)
        ensures
            header_content(*res) == self@,
    {
        &self.0
    }
}

/// The environment variable that switches forwarding on.
pub const ENV_VAR_NAME: &'static str = "HELIOS_FORWARD_AUTH";

/// Whether a value of [`ENV_VAR_NAME`] switches forwarding on.
pub open spec fn switches_on(value: Option<Seq<char>>) -> bool {
    value matches Some(text) && text == "1"@
}

/// Whether forwarding is switched on, given what the environment holds under [`ENV_VAR_NAME`]:
/// only the value `1` switches it on.
pub fn is_enabled(value: Option<String>) -> (res: bool)
    ensures
        res <==> (value matches Some(text) && text@ == "1"@),
        res == switches_on(
            match value {
                Some(text) => Some(text@),
                None => None,
            },
        ),
{
    match value {
        Some(text) => text == "1".to_string(),
        None => false,
    }
}

// ---------- Inbound capture ----------

/// An ASCII capital letter as its small letter, and every other character as itself.
pub open spec fn ascii_lower(c: char) -> int {
    if 'A' <= c <= 'Z' {
        c as int + 32
    } else {
        c as int
    }
}

/// Whether two texts are the same but for the case of ASCII letters.
pub open spec fn same_ignoring_ascii_case(a: Seq<char>, b: Seq<char>) -> bool {
    &&& a.len() == b.len()
    &&& forall|i: int| 0 <= i < a.len() ==> ascii_lower(#[trigger] a[i]) == ascii_lower(b[i])
}

/// What a header value built from a text carries; nothing where the text holds a forbidden byte.
pub open spec fn header_from_text(text: Seq<char>) -> Option<HeaderContent> {
    let bytes = vstd::utf8::encode_utf8(text);
    if header_text_allowed(bytes) {
        Some(HeaderContent { bytes, sensitive: false })
    } else {
        None
    }
}

/// Whether the name of a pair says that its value is a credential: `authorization`, in any case.
pub open spec fn names_auth(name: Seq<char>) -> bool {
    same_ignoring_ascii_case(name, "authorization"@)
}

/// The credential among the name-value pairs of a query: the value of the first pair named
/// `authorization`, in any case, if that value can stand in a header.
pub open spec fn pairs_auth(pairs: Seq<(Seq<char>, Seq<char>)>) -> Option<HeaderContent>
    decreases pairs.len(),
{
    if pairs.len() == 0 {
        None
    } else if names_auth(pairs[0].0) {
        header_from_text(pairs[0].1)
    } else {
        pairs_auth(pairs.drop_first())
    }
}

/// The credential in a query string.
pub open spec fn query_auth(query: Seq<char>) -> Option<HeaderContent> {
    pairs_auth(form_pairs(vstd::utf8::encode_utf8(query)))
}

/// The credential of an inbound request: the first `Authorization` header, and only where there is
/// none the one in the query.
pub open spec fn inbound_auth(
    headers: Map<Seq<char>, Seq<HeaderContent>>,
    query: Option<Seq<char>>,
) -> Option<HeaderContent> {
    if headers.contains_key("authorization"@) {
        Some(headers["authorization"@][0])
    } else {
        match query {
            Some(text) => query_auth(text),
            None => None,
        }
    }
}

/// What an optional header value carries.
pub open spec fn optional_content(value: Option<HeaderValue>) -> Option<HeaderContent> {
    match value {
        Some(v) => Some(header_content(v)),
        None => None,
    }
}

fn lower(c: char) -> (res: u32)
    ensures
        res == ascii_lower(c),
{
    if 'A' <= c && c <= 'Z' {
        c as u32 + 32
    } else {
        c as u32
    }
}

/// Whether two texts are the same but for the case of ASCII letters.
fn eq_ignore_ascii_case(a: &str, b: &str) -> (res: bool)
    ensures
        res == same_ignoring_ascii_case(a@, b@),
{
    let n = a.unicode_len();
    if n != b.unicode_len() {
        return false;
    }
    let mut i: usize = 0;
    while i < n
        invariant
            n == a@.len(),
            n == b@.len(),
            i <= n,
            forall|j: int| 0 <= j < i ==> ascii_lower(#[trigger] a@[j]) == ascii_lower(b@[j]),
        decreases n - i,
    {
        if lower(a.get_char(i)) != lower(b.get_char(i)) {
            return false;
        }
        i += 1;
    }
    true
}

/// The credential among decoded name-value pairs. A first match whose value cannot stand in a header
/// ends the search.
pub fn auth_from_pairs(pairs: &Vec<(String, String)>) -> (res: Option<HeaderValue>)
    ensures
        optional_content(res) == pairs_auth(pair_texts(pairs@)),
        forall|i: int|
            0 <= i < pairs@.len() && names_auth((#[trigger] pairs@[i]).0@) && (forall|j: int|
                0 <= j < i ==> !names_auth((#[trigger] pairs@[j]).0@)) ==> {
                let bytes = vstd::utf8::encode_utf8(pairs@[i].1@);
                match res {
                    Some(value) => header_text_allowed(bytes) && header_bytes(value) == bytes
                        && !header_is_sensitive(value),
                    None => !header_text_allowed(bytes),
                }
            },
        (forall|i: int| 0 <= i < pairs@.len() ==> !names_auth((#[trigger] pairs@[i]).0@)) ==> res
            is None,
{
    let ghost texts = pair_texts(pairs@);
    let mut i: usize = 0;
    proof {
        assert(texts.skip(0) =~= texts);
    }
    while i < pairs.len()
        invariant
            i <= pairs.len(),
            texts == pair_texts(pairs@),
            pairs_auth(texts) == pairs_auth(texts.skip(i as int)),
            forall|j: int| 0 <= j < i ==> !names_auth((#[trigger] pairs@[j]).0@),
        decreases pairs.len() - i,
    {
        proof {
            assert(texts.skip(i as int)[0] == texts[i as int]);
            assert(texts.skip(i as int).drop_first() =~= texts.skip(i + 1));
        }
        if eq_ignore_ascii_case(pairs[i].0.as_str(), "authorization") {
            return match HeaderValue::from_str(pairs[i].1.as_str()) {
                Ok(value) => Some(value),
                Err(_) => None,
            };
        }
        i += 1;
    }
    None
}

/// The credential in a query string.
pub fn extract_auth_from_query(query: &str) -> (res: Option<HeaderValue>)
    ensures
        optional_content(res) == query_auth(query@),
{
    let pairs = parse_form(query);
    auth_from_pairs(&pairs)
}

/// The credential of an inbound request, given its headers and its target.
pub fn extract_auth_from_request(headers: &HeaderMap<HeaderValue>, uri: &Uri) -> (res: Option<
    HeaderValue,
>)
    ensures
        optional_content(res) == inbound_auth(header_contents(*headers), uri_query(*uri)),
        header_contents(*headers).contains_key("authorization"@) ==> {
            &&& res matches Some(value)
            &&& header_bytes(value) == header_contents(*headers)["authorization"@][0].bytes
            &&& header_is_sensitive(value) == header_contents(
                *headers,
            )["authorization"@][0].sensitive
        },
        !header_contents(*headers).contains_key("authorization"@) && uri_query(*uri) is None ==> res
            is None,
{
    match get_authorization(headers) {
        Some(value) => Some(value.clone()),
        None => match query_of(uri) {
            Some(query) => extract_auth_from_query(query),
            None => None,
        },
    }
}

/// What is captured in the extensions of an inbound request after it passed: its credential, or,
/// where it has none, what was there before.
pub open spec fn captured_after(
    before: Option<HeaderContent>,
    inbound: Option<HeaderContent>,
) -> Option<HeaderContent> {
    match inbound {
        Some(content) => Some(content),
        None => before,
    }
}

/// Layer that captures the credential (header or `?authorization=` query parameter) of inbound
/// requests.
#[derive(Clone, Copy, Debug, Default)]
pub struct AuthCaptureLayer;

/// A service behind [`AuthCaptureLayer`].
#[derive(Clone, Debug)]
pub struct AuthCaptureService<S> {
    pub inner: S,
}

impl AuthCaptureLayer {
    /// Puts a service behind the layer.
    pub fn layer<S>(&self, inner: S) -> (res: AuthCaptureService<S>)
        ensures
            res.inner == inner,
    {
        AuthCaptureService { inner }
    }
}

impl<S> AuthCaptureService<S> {
    /// Stores the credential of an inbound request in its extensions, before the request goes on to
    /// the inner service. Without a credential the extensions stay as they are, and values of other
    /// types stay in any case.
    pub fn capture(
        &self,
        headers: &HeaderMap<HeaderValue>,
        uri: &Uri,
        extensions: &mut Extensions,
    )
        ensures
            captured_auth(*final(extensions)) == captured_after(
                captured_auth(*old(extensions)),
                inbound_auth(header_contents(*headers), uri_query(*uri)),
            ),
            inbound_auth(header_contents(*headers), uri_query(*uri)) matches Some(content)
                ==> captured_auth(*final(extensions)) == Some(content),
            other_extensions(*final(extensions)) == other_extensions(*old(extensions)),
            inbound_auth(header_contents(*headers), uri_query(*uri)) is None ==> *final(extensions)
                == *old(extensions),
    {
        if let Some(value) = extract_auth_from_request(headers, uri) {
            let _ = insert_auth(extensions, AuthValue::new(value));
        }
    }
}

// ---------- JSON-RPC scope ----------

/// The credential captured in a request's extensions, if any.
pub fn auth_from_extensions(ext: &Extensions) -> (res: Option<AuthValue>)
    ensures
        auth_content(res) == captured_auth(*ext),
        captured_auth(*ext) matches Some(content) ==> {
            &&& res matches Some(value)
            &&& value@ == content
        },
        captured_auth(*ext) is None ==> res is None,
{
    match get_auth(ext) {
        Some(value) => Some(value.clone()),
        None => None,
    }
}

/// Layer that puts the captured credential in scope for each JSON-RPC call.
#[derive(Clone, Copy, Debug, Default)]
pub struct AuthScopeLayer;

/// A service behind [`AuthScopeLayer`].
#[derive(Clone, Debug)]
pub struct AuthScopeService<S> {
    pub service: S,
}

impl AuthScopeLayer {
    /// Puts a service behind the layer.
    pub fn layer<S>(&self, service: S) -> (res: AuthScopeService<S>)
        ensures
            res.service == service,
    {
        AuthScopeService { service }
    }
}

impl<S> AuthScopeService<S> {
    /// The credential to put in scope for a call that carries these extensions. A call without a
    /// captured credential runs with none in scope, whatever was in scope around it.
    pub fn scope(&self, extensions: &Extensions) -> (res: Option<AuthValue>)
        ensures
            auth_content(res) == captured_auth(*extensions),
            captured_auth(*extensions) matches Some(content) ==> {
                &&& res matches Some(value)
                &&& value@ == content
            },
            captured_auth(*extensions) is None ==> res is None,
    {
        auth_from_extensions(extensions)
    }
}

// ---------- Outbound forwarding ----------

/// The headers that carry a credential upstream: the one `Authorization` header and nothing else.
pub open spec fn auth_headers(auth: HeaderContent) -> Map<Seq<char>, Seq<HeaderContent>> {
    no_headers().insert("authorization"@, seq![auth])
}

/// Whether `after` is `before` with exactly the credential as its headers: what it says, its
/// identifier and its other extensions are the same.
pub open spec fn request_forwarded(
    before: SerializedRequest,
    after: SerializedRequest,
    auth: HeaderContent,
) -> bool {
    &&& request_headers(after) == Some(auth_headers(auth))
    &&& request_content(after) == request_content(before)
    &&& other_request_extensions(after) == other_request_extensions(before)
}

/// Whether every request of `after` is the one of `before` at its place, with exactly the credential
/// as its headers.
pub open spec fn requests_forwarded(
    before: Seq<SerializedRequest>,
    after: Seq<SerializedRequest>,
    auth: HeaderContent,
) -> bool {
    &&& after.len() == before.len()
    &&& forall|i: int|
        0 <= i < after.len() ==> request_forwarded(before[i], #[trigger] after[i], auth)
}

/// Whether `after` is what becomes of the packet `before` on its way upstream: of the same shape, and
/// with the credential on every request, or, where none is in scope, the packet itself.
pub open spec fn packet_forwarded(
    before: RequestPacket,
    after: RequestPacket,
    auth: Option<HeaderContent>,
) -> bool {
    &&& packet_is_batch(after) == packet_is_batch(before)
    &&& match auth {
        Some(content) => requests_forwarded(
            packet_requests(before),
            packet_requests(after),
            content,
        ),
        None => after == before,
    }
}

/// Layer that attaches the credential in scope to every outbound request.
#[derive(Clone, Copy, Debug, Default)]
pub struct AuthForwardLayer;

/// A service behind [`AuthForwardLayer`].
#[derive(Clone, Debug)]
pub struct AuthForwardService<S> {
    pub inner: S,
}

impl AuthForwardLayer {
    /// Puts a service behind the layer.
    pub fn layer<S>(&self, inner: S) -> (res: AuthForwardService<S>)
        ensures
            res.inner == inner,
    {
        AuthForwardService { inner }
    }
}

fn forward_request(request: &mut SerializedRequest, auth: &AuthValue)
    ensures
        request_forwarded(*old(request), *final(request), auth@),
{
    let mut headers = one_header_map();
    let _ = insert_authorization(&mut headers, auth.header().clone());
    set_request_headers(request, headers);
}

impl<S> AuthForwardService<S> {
    /// Attaches the credential in scope to every request of a packet, single or batch, before the
    /// packet goes on to the inner service. Headers that a request already carries are replaced.
    pub fn forward(&self, auth: Option<&AuthValue>, packet: RequestPacket) -> (res: RequestPacket)
        ensures
            packet_forwarded(
                packet,
                res,
                match auth {
                    Some(value) => Some(value@),
                    None => None,
                },
            ),
            auth is None ==> res == packet,
            auth matches Some(value) ==> {
                &&& packet_is_batch(res) == packet_is_batch(packet)
                &&& packet_requests(res).len() == packet_requests(packet).len()
                &&& forall|i: int|
                    0 <= i < packet_requests(res).len() ==> {
                        &&& request_headers(#[trigger] packet_requests(res)[i]) matches Some(headers)
                        &&& headers.dom() == set!["authorization"@]
                        &&& headers["authorization"@] == seq![value@]
                        &&& request_content(packet_requests(res)[i]) == request_content(
                            packet_requests(packet)[i],
                        )
                        &&& other_request_extensions(packet_requests(res)[i])
                            == other_request_extensions(packet_requests(packet)[i])
                    }
            },
    {
        proof {
            if let Some(value) = auth {
                credential_is_the_only_header(value@);
            }
        }
        let value = match auth {
            Some(value) => value,
            None => return packet,
        };
        match open_packet(packet) {
            Packet::Single(request) => {
                let mut request = request;
                forward_request(&mut request, value);
                close_packet(Packet::Single(request))
            },
            Packet::Batch(requests) => {
                let mut requests = requests;
                let ghost before = requests@;
                let n = requests.len();
                let mut i: usize = 0;
                while i < n
                    invariant
                        i <= n,
                        n == before.len(),
                        n == requests.len(),
                        forall|j: int|
                            0 <= j < i ==> request_forwarded(
                                before[j],
                                #[trigger] requests@[j],
                                value@,
                            ),
                        forall|j: int| i <= j < n ==> #[trigger] requests@[j] == before[j],
                    decreases n - i,
                {
                    forward_request(&mut requests[i], value);
                    i += 1;
                }
                close_packet(Packet::Batch(requests))
            },
        }
    }
}

// ---------- Laws ----------

/// The header wins over the query: with an `Authorization` header, the credential is the first such
/// header, whatever the query holds.
pub proof fn header_wins_over_query(
    headers: Map<Seq<char>, Seq<HeaderContent>>,
    query: Option<Seq<char>>,
)
    requires
        headers.contains_key("authorization"@),
    ensures
        inbound_auth(headers, query) == Some(headers["authorization"@][0]),
{
}

/// Without an `Authorization` header the credential is the one in the query, and there is none without
/// a query.
pub proof fn query_is_the_fallback(
    headers: Map<Seq<char>, Seq<HeaderContent>>,
    query: Seq<char>,
)
    requires
        !headers.contains_key("authorization"@),
    ensures
        inbound_auth(headers, Some(query)) == query_auth(query),
        inbound_auth(headers, None) is None,
{
}

/// The first pair named `authorization` decides, whatever stands behind it.
pub proof fn first_named_pair_decides(pairs: Seq<(Seq<char>, Seq<char>)>, i: int)
    requires
        0 <= i < pairs.len(),
        names_auth(pairs[i].0),
        forall|j: int| 0 <= j < i ==> !names_auth((#[trigger] pairs[j]).0),
    ensures
        pairs_auth(pairs) == header_from_text(pairs[i].1),
    decreases i,
{
    if i > 0 {
        assert(!names_auth(pairs[0].0));
        first_named_pair_decides(pairs.drop_first(), i - 1);
    }
}

/// Pairs of which none is named `authorization` hold no credential.
pub proof fn unnamed_pairs_hold_no_credential(pairs: Seq<(Seq<char>, Seq<char>)>)
    requires
        forall|i: int| 0 <= i < pairs.len() ==> !names_auth((#[trigger] pairs[i]).0),
    ensures
        pairs_auth(pairs) is None,
    decreases pairs.len(),
{
    if pairs.len() > 0 {
        assert(!names_auth(pairs[0].0));
        unnamed_pairs_hold_no_credential(pairs.drop_first());
    }
}

/// The case in which the names of a query are spelled does not matter.
pub proof fn case_of_names_does_not_matter(
    pairs: Seq<(Seq<char>, Seq<char>)>,
    others: Seq<(Seq<char>, Seq<char>)>,
)
    requires
        pairs.len() == others.len(),
        forall|i: int|
            0 <= i < pairs.len() ==> same_ignoring_ascii_case(
                (#[trigger] pairs[i]).0,
                others[i].0,
            ) && pairs[i].1 == others[i].1,
    ensures
        pairs_auth(pairs) == pairs_auth(others),
    decreases pairs.len(),
{
    if pairs.len() > 0 {
        let name = "authorization"@;
        let a = pairs[0].0;
        let b = others[0].0;
        assert(same_ignoring_ascii_case(a, b));
        if same_ignoring_ascii_case(a, name) {
            assert forall|i: int| 0 <= i < b.len() implies ascii_lower(#[trigger] b[i])
                == ascii_lower(name[i]) by {
                assert(ascii_lower(a[i]) == ascii_lower(b[i]));
            }
        }
        if same_ignoring_ascii_case(b, name) {
            assert forall|i: int| 0 <= i < a.len() implies ascii_lower(#[trigger] a[i])
                == ascii_lower(name[i]) by {
                assert(ascii_lower(b[i]) == ascii_lower(name[i]));
            }
        }
        assert forall|i: int| 0 <= i < pairs.len() - 1 implies same_ignoring_ascii_case(
            (#[trigger] pairs.drop_first()[i]).0,
            others.drop_first()[i].0,
        ) && pairs.drop_first()[i].1 == others.drop_first()[i].1 by {
            assert(same_ignoring_ascii_case(pairs[i + 1].0, others[i + 1].0));
        }
        case_of_names_does_not_matter(pairs.drop_first(), others.drop_first());
    }
}

/// A credential from a query can always stand in a header, and is not marked sensitive.
pub proof fn query_credential_can_be_sent(query: Seq<char>)
    ensures
        query_auth(query) matches Some(content) ==> header_text_allowed(content.bytes)
            && !content.sensitive,
{
    pairs_credential_can_be_sent(form_pairs(vstd::utf8::encode_utf8(query)));
}

proof fn pairs_credential_can_be_sent(pairs: Seq<(Seq<char>, Seq<char>)>)
    ensures
        pairs_auth(pairs) matches Some(content) ==> header_text_allowed(content.bytes)
            && !content.sensitive,
    decreases pairs.len(),
{
    if pairs.len() > 0 {
        pairs_credential_can_be_sent(pairs.drop_first());
    }
}

/// The credential of an inbound request reaches the upstream unchanged: captured, put in scope and
/// forwarded, it is the one header of every request of a packet, single or batch, and the requests
/// are otherwise as they were.
pub proof fn credential_reaches_upstream(
    headers: Map<Seq<char>, Seq<HeaderContent>>,
    query: Option<Seq<char>>,
    earlier: Option<HeaderContent>,
    before: RequestPacket,
    after: RequestPacket,
)
    requires
        inbound_auth(headers, query) is Some,
        packet_forwarded(before, after, captured_after(earlier, inbound_auth(headers, query))),
    ensures
        packet_is_batch(after) == packet_is_batch(before),
        packet_requests(after).len() == packet_requests(before).len(),
        forall|i: int|
            0 <= i < packet_requests(after).len() ==> {
                &&& request_headers(#[trigger] packet_requests(after)[i]) == Some(
                    auth_headers(inbound_auth(headers, query)->0),
                )
                &&& request_content(packet_requests(after)[i]) == request_content(
                    packet_requests(before)[i],
                )
                &&& other_request_extensions(packet_requests(after)[i])
                    == other_request_extensions(packet_requests(before)[i])
            },
{
}

/// Without a credential nothing is attached: the packet goes upstream as it is.
pub proof fn no_credential_changes_nothing(
    headers: Map<Seq<char>, Seq<HeaderContent>>,
    query: Option<Seq<char>>,
    before: RequestPacket,
    after: RequestPacket,
)
    requires
        inbound_auth(headers, query) is None,
        packet_forwarded(before, after, captured_after(None, inbound_auth(headers, query))),
    ensures
        after == before,
{
}

/// The credential that is attached last counts: a packet that has passed the layer before goes
/// upstream as if it had passed only once.
pub proof fn last_credential_counts(
    before: RequestPacket,
    between: RequestPacket,
    after: RequestPacket,
    first: Option<HeaderContent>,
    last: HeaderContent,
)
    requires
        packet_forwarded(before, between, first),
        packet_forwarded(between, after, Some(last)),
    ensures
        packet_forwarded(before, after, Some(last)),
{
    let sent = packet_requests(after);
    assert forall|i: int| 0 <= i < sent.len() implies request_forwarded(
        packet_requests(before)[i],
        #[trigger] sent[i],
        last,
    ) by {
        if first is Some {
            assert(request_forwarded(
                packet_requests(before)[i],
                packet_requests(between)[i],
                first->0,
            ));
        }
    }
}

/// Two texts are the same but for the case of ASCII letters exactly where they are equally long and
/// their characters at each place are equal, or a capital ASCII letter and its small letter.
pub proof fn case_is_that_of_ascii_letters(a: Seq<char>, b: Seq<char>)
    ensures
        same_ignoring_ascii_case(a, b) <==> a.len() == b.len() && forall|i: int|
            0 <= i < a.len() ==> {
                ||| #[trigger] a[i] == b[i]
                ||| 'A' <= a[i] <= 'Z' && b[i] as int == a[i] as int + 32
                ||| 'A' <= b[i] <= 'Z' && a[i] as int == b[i] as int + 32
            },
{
    if same_ignoring_ascii_case(a, b) {
        assert forall|i: int| 0 <= i < a.len() implies {
            ||| #[trigger] a[i] == b[i]
            ||| 'A' <= a[i] <= 'Z' && b[i] as int == a[i] as int + 32
            ||| 'A' <= b[i] <= 'Z' && a[i] as int == b[i] as int + 32
        } by {
            assert(ascii_lower(a[i]) == ascii_lower(b[i]));
            if ascii_lower(a[i]) == a[i] as int && ascii_lower(b[i]) == b[i] as int {
                assert(a[i] as int == b[i] as int);
            }
        }
    }
}

/// The name of a credential is `authorization`, each letter in either case, and nothing else.
pub proof fn credential_is_named_authorization(name: Seq<char>)
    ensures
        names_auth(name) <==> name.len() == 13 && forall|i: int|
            0 <= i < 13 ==> (#[trigger] name[i] == "authorization"@[i] || name[i] as int + 32
                == "authorization"@[i] as int),
{
    reveal_strlit("authorization");
    let full = "authorization"@;
    assert(forall|i: int| 0 <= i < 13 ==> 'a' <= #[trigger] full[i] <= 'z');
    case_is_that_of_ascii_letters(name, full);
    if names_auth(name) {
        assert forall|i: int| 0 <= i < 13 implies (#[trigger] name[i] == full[i] || name[i] as int
            + 32 == full[i] as int) by {
            assert('a' <= full[i] <= 'z');
        }
    }
    if name.len() == 13 && forall|i: int|
        0 <= i < 13 ==> (#[trigger] name[i] == full[i] || name[i] as int + 32 == full[i] as int) {
        assert forall|i: int| 0 <= i < name.len() implies {
            ||| #[trigger] name[i] == full[i]
            ||| 'A' <= name[i] <= 'Z' && full[i] as int == name[i] as int + 32
            ||| 'A' <= full[i] <= 'Z' && name[i] as int == full[i] as int + 32
        } by {
            assert('a' <= full[i] <= 'z');
        }
    }
}

/// The value of the first pair that is named as a credential is the credential, byte for byte and
/// however long it is, exactly where every byte of it is allowed in a header; else there is none.
pub proof fn first_named_value_is_the_credential(pairs: Seq<(Seq<char>, Seq<char>)>, i: int)
    requires
        0 <= i < pairs.len(),
        names_auth(pairs[i].0),
        forall|j: int| 0 <= j < i ==> !names_auth((#[trigger] pairs[j]).0),
    ensures
        pairs_auth(pairs) is Some <==> header_text_allowed(vstd::utf8::encode_utf8(pairs[i].1)),
        pairs_auth(pairs) matches Some(content) ==> content.bytes == vstd::utf8::encode_utf8(
            pairs[i].1,
        ) && !content.sensitive,
{
    first_named_pair_decides(pairs, i);
}

/// A text is a header value, byte for byte and however long it is, exactly where every byte of it is
/// allowed there.
pub proof fn allowed_text_is_a_header_value(text: Seq<char>)
    ensures
        header_from_text(text) is Some <==> header_text_allowed(vstd::utf8::encode_utf8(text)),
        header_from_text(text) matches Some(content) ==> content.bytes == vstd::utf8::encode_utf8(
            text,
        ) && !content.sensitive,
{
}

/// The credential of a request without an `Authorization` header is the value of the first pair of its
/// query that is named as one, byte for byte and however long it is, where every byte of it is allowed
/// in a header; else there is none.
pub proof fn query_value_is_the_credential(
    headers: Map<Seq<char>, Seq<HeaderContent>>,
    query: Seq<char>,
    i: int,
)
    requires
        !headers.contains_key("authorization"@),
        0 <= i < form_pairs(vstd::utf8::encode_utf8(query)).len(),
        names_auth(form_pairs(vstd::utf8::encode_utf8(query))[i].0),
        forall|j: int|
            0 <= j < i ==> !names_auth(
                (#[trigger] form_pairs(vstd::utf8::encode_utf8(query))[j]).0,
            ),
    ensures
        inbound_auth(headers, Some(query)) is Some <==> header_text_allowed(
            vstd::utf8::encode_utf8(form_pairs(vstd::utf8::encode_utf8(query))[i].1),
        ),
        inbound_auth(headers, Some(query)) matches Some(content) ==> content.bytes
            == vstd::utf8::encode_utf8(form_pairs(vstd::utf8::encode_utf8(query))[i].1)
            && !content.sensitive,
{
    first_named_value_is_the_credential(form_pairs(vstd::utf8::encode_utf8(query)), i);
}

/// A request without an `Authorization` header has no credential where no pair of its query is named
/// as one.
pub proof fn query_without_a_named_pair_has_no_credential(
    headers: Map<Seq<char>, Seq<HeaderContent>>,
    query: Seq<char>,
)
    requires
        !headers.contains_key("authorization"@),
        forall|i: int|
            0 <= i < form_pairs(vstd::utf8::encode_utf8(query)).len() ==> !names_auth(
                (#[trigger] form_pairs(vstd::utf8::encode_utf8(query))[i]).0,
            ),
    ensures
        inbound_auth(headers, Some(query)) is None,
{
    unnamed_pairs_hold_no_credential(form_pairs(vstd::utf8::encode_utf8(query)));
}

/// What an optional header value carries are its octets and its mark, and there is none without a
/// value.
pub proof fn optional_value_carries_the_value(value: HeaderValue)
    ensures
        optional_content(Some(value)) matches Some(content) && content.bytes == header_bytes(value)
            && content.sensitive == header_is_sensitive(value),
        optional_content(None) is None,
{
}

/// The credential of a request takes the place of whatever was captured before, and a request without
/// one leaves it.
pub proof fn newest_credential_is_captured(
    earlier: Option<HeaderContent>,
    content: HeaderContent,
)
    ensures
        captured_after(earlier, Some(content)) == Some(content),
        captured_after(earlier, None) == earlier,
{
}

/// The headers that carry a credential are the `Authorization` header alone, with the credential as
/// its only value.
pub proof fn credential_is_the_only_header(auth: HeaderContent)
    ensures
        auth_headers(auth).dom() == set!["authorization"@],
        auth_headers(auth)["authorization"@] == seq![auth],
{
    assert(auth_headers(auth).dom() =~= set!["authorization"@]);
}

/// A packet that passes with a credential in scope keeps its shape, its length and its order, and what
/// its requests say. Each of them then carries the `Authorization` header alone, with the credential
/// as its only value.
pub proof fn every_request_carries_the_credential(
    before: RequestPacket,
    after: RequestPacket,
    auth: HeaderContent,
)
    requires
        packet_forwarded(before, after, Some(auth)),
    ensures
        packet_is_batch(after) == packet_is_batch(before),
        packet_requests(after).len() == packet_requests(before).len(),
        forall|i: int|
            0 <= i < packet_requests(after).len() ==> {
                &&& request_headers(#[trigger] packet_requests(after)[i]) matches Some(headers)
                &&& headers.dom() == set!["authorization"@]
                &&& headers["authorization"@] == seq![auth]
                &&& request_content(packet_requests(after)[i]) == request_content(
                    packet_requests(before)[i],
                )
                &&& other_request_extensions(packet_requests(after)[i])
                    == other_request_extensions(packet_requests(before)[i])
            },
{
    credential_is_the_only_header(auth);
}

/// Only the one character `1` switches forwarding on: no other text does, and neither does none.
pub proof fn only_one_switches_on(text: Seq<char>)
    ensures
        switches_on(Some(text)) <==> text.len() == 1 && text[0] == '1',
        !switches_on(None),
{
    reveal_strlit("1");
    if text.len() == 1 && text[0] == '1' {
        assert(text =~= "1"@);
    }
}

} // verus!
