//! What this crate relies on from `http` and `alloy` for requests in flight: the typed extensions
//! of an inbound request and the serialized requests of an outbound packet.

use crate::auth_forwarding::AuthValue;
use crate::headers::{header_contents, HeaderContent};
use alloy::rpc::json_rpc::{RequestPacket, SerializedRequest};
use http::{Extensions, HeaderMap, HeaderValue};
use vstd::prelude::*;

verus! {

/// A map that holds at most one value of each type.
#[verifier::external_type_specification]
#[verifier::external_body]
pub struct ExExtensions(http::Extensions);

/// A serialized JSON-RPC request with its metadata.
#[verifier::external_type_specification]
#[verifier::external_body]
pub struct ExSerializedRequest(alloy::rpc::json_rpc::SerializedRequest);

/// One serialized request, or a batch of them.
#[verifier::external_type_specification]
#[verifier::external_body]
pub struct ExRequestPacket(alloy::rpc::json_rpc::RequestPacket);

/// What the [`AuthValue`] in a set of extensions carries, if there is one.
pub uninterp spec fn captured_auth(extensions: Extensions) -> Option<HeaderContent>;

/// What a set of extensions holds besides an [`AuthValue`]: under a number for each type of value, a
/// number for the value of that type.
pub uninterp spec fn other_extensions(extensions: Extensions) -> Map<int, int>;

/// What a serialized request holds besides its extensions.
pub uninterp spec fn request_content(request: SerializedRequest) -> RequestContent;

/// The headers in the extensions of a serialized request, if a header map is there.
pub uninterp spec fn request_headers(request: SerializedRequest) -> Option<
    Map<Seq<char>, Seq<HeaderContent>>,
>;

/// What the extensions of a serialized request hold besides a header map: under a number for each
/// type of value, a number for the value of that type.
pub uninterp spec fn other_request_extensions(request: SerializedRequest) -> Map<int, int>;

/// Whether a packet is a batch.
pub uninterp spec fn packet_is_batch(packet: RequestPacket) -> bool;

/// The requests of a packet, in order.
pub uninterp spec fn packet_requests(packet: RequestPacket) -> Seq<SerializedRequest>;

/// The identifier by which the response to a JSON-RPC request is told.
pub enum RequestId {
    Number(u64),
    Text(Seq<char>),
    Null,
}

/// A JSON-RPC request without its extensions: the JSON text that is sent, and of its metadata the
/// identifier, the method, and whether it opens a subscription.
pub struct RequestContent {
    pub text: Seq<char>,
    pub id: RequestId,
    pub method: Seq<char>,
    pub subscription: bool,
}

/// The two shapes of an outbound packet.
pub enum Packet {
    Single(SerializedRequest),
    Batch(Vec<SerializedRequest>),
}

impl Packet {
    /// The requests of the packet, in order.
    pub open spec fn requests(self) -> Seq<SerializedRequest> {
        match self {
            Packet::Single(request) => seq![request],
            Packet::Batch(requests) => requests@,
        }
    }
}

/// What an optional credential carries.
pub open spec fn auth_content(auth: Option<AuthValue>) -> Option<HeaderContent> {
    match auth {
        Some(value) => Some(value@),
        None => None,
    }
}

/// `Extensions::insert` of an [`AuthValue`] puts it in place of the one that was there, which is
/// handed back, and leaves values of other types alone.
#[verifier::external_body]
pub(crate) fn insert_auth(extensions: &mut Extensions, value: AuthValue) -> (res: Option<AuthValue>)
    ensures
        captured_auth(*final(extensions)) == Some(value@),
        other_extensions(*final(extensions)) == other_extensions(*old(extensions)),
        auth_content(res) == captured_auth(*old(extensions)),
{
    extensions.insert(value)
}

/// `Extensions::get` of an [`AuthValue`] lends the one that was inserted last, if any.
#[verifier::external_body]
pub(crate) fn get_auth(extensions: &Extensions) -> (res: Option<&AuthValue>)
    ensures
        res is Some <==> captured_auth(*extensions) is Some,
        res matches Some(value) ==> captured_auth(*extensions) == Some(value@),
{
    extensions.get::<AuthValue>()
}

/// `SerializedRequest::meta_mut`, `RequestMeta::extensions_mut` and `Extensions::insert`: the header
/// map takes the place of the one in the extensions of the request, values of other types there are
/// left alone, and so is the rest of the request.
#[verifier::external_body]
pub(crate) fn set_request_headers(
    request: &mut SerializedRequest,
    headers: HeaderMap<HeaderValue>,
)
    ensures
        request_headers(*final(request)) == Some(header_contents(headers)),
        other_request_extensions(*final(request)) == other_request_extensions(*old(request)),
        request_content(*final(request)) == request_content(*old(request)),
{
    request.meta_mut().extensions_mut().insert(headers);
}

/// Takes a `RequestPacket` apart: its variant and its requests.
#[verifier::external_body]
pub(crate) fn open_packet(packet: RequestPacket) -> (res: Packet)
    ensures
        res is Batch <==> packet_is_batch(packet),
        res.requests() == packet_requests(packet),
{
    match packet {
        RequestPacket::Single(request) => Packet::Single(request),
        RequestPacket::Batch(requests) => Packet::Batch(requests),
    }
}

/// Puts a `RequestPacket` together from a variant and its requests.
#[verifier::external_body]
pub(crate) fn close_packet(packet: Packet) -> (res: RequestPacket)
    ensures
        packet_is_batch(res) <==> packet is Batch,
        packet_requests(res) == packet.requests(),
{
    match packet {
        Packet::Single(request) => RequestPacket::Single(request),
        Packet::Batch(requests) => RequestPacket::Batch(requests),
    }
}

/// An optional credential carries what the credential carries, and nothing where there is none.
pub proof fn optional_credential_carries_the_credential(auth: AuthValue)
    ensures
        auth_content(Some(auth)) == Some(auth@),
        auth_content(None) is None,
{
}

/// A single request is the only one of its packet, and a batch holds its requests in order.
pub proof fn packet_holds_its_requests(request: SerializedRequest, requests: Vec<SerializedRequest>)
    ensures
        Packet::Single(request).requests().len() == 1,
        Packet::Single(request).requests()[0] == request,
        Packet::Batch(requests).requests() == requests@,
{
}

} // verus!
