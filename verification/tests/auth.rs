use alloy::rpc::json_rpc::{Id, Request, RequestPacket, SerializedRequest};
use helios_rpc::auth_forwarding::{
    auth_from_extensions, auth_from_pairs, extract_auth_from_query, extract_auth_from_request,
    is_enabled, AuthCaptureLayer, AuthForwardLayer, AuthScopeLayer, AuthValue, ENV_VAR_NAME,
};
use http::header::AUTHORIZATION;
use http::{Extensions, HeaderMap, HeaderValue};

fn captured<B>(req: http::Request<B>) -> Extensions {
    let service = AuthCaptureLayer.layer(());
    let (parts, _) = req.into_parts();
    let mut extensions = parts.extensions;
    service.capture(&parts.headers, &parts.uri, &mut extensions);
    extensions
}

fn captured_text<B>(req: http::Request<B>) -> Option<String> {
    auth_from_extensions(&captured(req)).map(|auth| auth.header().to_str().unwrap().to_string())
}

fn request(method: &'static str, id: u64) -> SerializedRequest {
    Request::<()>::new(method, id.into(), ()).serialize().unwrap()
}

fn make_packet() -> RequestPacket {
    RequestPacket::Single(request("eth_blockNumber", 1))
}

fn headers_of(packet: &RequestPacket) -> Vec<Option<HeaderMap>> {
    match packet {
        RequestPacket::Single(s) => vec![s.meta().extensions().get::<HeaderMap>().cloned()],
        RequestPacket::Batch(b) => {
            b.iter().map(|s| s.meta().extensions().get::<HeaderMap>().cloned()).collect()
        }
    }
}

/// What the upstream sees of the credential of an inbound request: one entry for each request that
/// is made on its behalf.
fn seen_upstream<B>(req: http::Request<B>) -> Vec<Option<String>> {
    let extensions = captured(req);
    let auth = AuthScopeLayer.layer(()).scope(&extensions);
    let packet = AuthForwardLayer.layer(()).forward(auth.as_ref(), make_packet());
    headers_of(&packet)
        .into_iter()
        .map(|headers| {
            headers.and_then(|headers| {
                headers.get(AUTHORIZATION).map(|value| value.to_str().unwrap().to_string())
            })
        })
        .collect()
}

#[test]
fn extract_query_finds_authorization_case_insensitive() {
    let v = extract_auth_from_query("foo=bar&Authorization=Bearer%20xyz&baz=qux").unwrap();
    assert_eq!(v.to_str().unwrap(), "Bearer xyz");
}

#[test]
fn extract_query_decodes_plus_as_space() {
    let v = extract_auth_from_query("authorization=Bearer+abc").unwrap();
    assert_eq!(v.to_str().unwrap(), "Bearer abc");
}

#[test]
fn extract_query_missing_returns_none() {
    assert!(extract_auth_from_query("foo=bar").is_none());
}

#[test]
fn capture_layer_extracts_from_header() {
    let req = http::Request::builder()
        .header(AUTHORIZATION, "Bearer token-xyz")
        .body(())
        .unwrap();
    assert_eq!(captured_text(req).unwrap(), "Bearer token-xyz");
}

#[test]
fn capture_layer_extracts_from_query() {
    let req = http::Request::builder()
        .uri("/?authorization=Bearer%20abc")
        .body(())
        .unwrap();
    assert_eq!(captured_text(req).unwrap(), "Bearer abc");
}

#[test]
fn capture_layer_prefers_header_over_query() {
    let req = http::Request::builder()
        .uri("/?authorization=from-query")
        .header(AUTHORIZATION, "from-header")
        .body(())
        .unwrap();
    assert_eq!(captured_text(req).unwrap(), "from-header");
}

#[test]
fn capture_layer_absent_is_none() {
    let req = http::Request::builder().body(()).unwrap();
    assert_eq!(captured_text(req), None);
}

#[test]
fn forward_layer_injects_header_when_task_local_set() {
    let service = AuthForwardLayer.layer(());
    let value = HeaderValue::from_static("Bearer token-xyz");
    let packet = service.forward(Some(&AuthValue::new(value.clone())), make_packet());
    let observed = headers_of(&packet)[0].clone().expect("HeaderMap injected");
    assert_eq!(observed.get(AUTHORIZATION), Some(&value));
}

#[test]
fn forward_layer_noop_when_task_local_unset() {
    let service = AuthForwardLayer.layer(());
    let packet = service.forward(None, make_packet());
    assert!(headers_of(&packet)[0].is_none());
}

#[test]
fn forward_layer_injects_for_each_batch_entry() {
    let service = AuthForwardLayer.layer(());
    let mut packet = make_packet();
    packet.push(request("eth_chainId", 2));

    let value = HeaderValue::from_static("Bearer batch-token");
    let packet = service.forward(Some(&AuthValue::new(value.clone())), packet);

    let observed = headers_of(&packet);
    assert_eq!(observed.len(), 2);
    for hm in observed {
        assert_eq!(hm.unwrap().get(AUTHORIZATION), Some(&value));
    }
}

#[test]
fn is_enabled_reads_env_var() {
    assert_eq!(ENV_VAR_NAME, "HELIOS_FORWARD_AUTH");
    assert!(is_enabled(Some("1".to_string())));
    assert!(!is_enabled(Some("0".to_string())));
    assert!(!is_enabled(None));
}

#[test]
fn only_the_exact_value_enables() {
    for value in ["", " 1", "1 ", "11", "true", "01"] {
        assert!(!is_enabled(Some(value.to_string())), "{value:?}");
    }
}

#[test]
fn http_call_forwards_auth_header_to_upstream() {
    let req = http::Request::builder()
        .method("POST")
        .uri("/")
        .header(AUTHORIZATION, "Bearer http-token")
        .body(())
        .unwrap();
    assert_eq!(seen_upstream(req), vec![Some("Bearer http-token".to_string())]);
}

#[test]
fn http_call_forwards_query_auth_to_upstream() {
    let req = http::Request::builder()
        .method("POST")
        .uri("/?authorization=Bearer%20query-token")
        .body(())
        .unwrap();
    assert_eq!(seen_upstream(req), vec![Some("Bearer query-token".to_string())]);
}

#[test]
fn http_call_without_auth_propagates_no_header() {
    let req = http::Request::builder().method("POST").uri("/").body(()).unwrap();
    assert_eq!(seen_upstream(req), vec![None]);
}

#[test]
fn ws_subscription_forwards_auth_inside_spawn() {
    let req = http::Request::builder()
        .uri("ws://127.0.0.1/")
        .header(AUTHORIZATION, HeaderValue::from_static("Bearer ws-token"))
        .body(())
        .unwrap();
    // Every frame of the connection carries a copy of the extensions of the upgrade request.
    let frame = captured(req).clone();
    let auth = auth_from_extensions(&frame);
    let packet = AuthForwardLayer.layer(()).forward(auth.as_ref(), make_packet());
    let observed = headers_of(&packet)[0].clone().unwrap();
    assert_eq!(observed.get(AUTHORIZATION).unwrap(), "Bearer ws-token");
}

#[test]
fn first_named_pair_of_a_query_decides() {
    let v = extract_auth_from_query("a=b&AUTHORIZATION=one&authorization=two").unwrap();
    assert_eq!(v.to_str().unwrap(), "one");
    // A first match that cannot stand in a header ends the search.
    assert!(extract_auth_from_query("authorization=a%0Ab&authorization=two").is_none());
    // Only whole names match.
    assert!(extract_auth_from_query("authorizations=one&xauthorization=two").is_none());
    assert!(extract_auth_from_query("").is_none());
    // A name without a value has the empty value.
    assert_eq!(extract_auth_from_query("authorization").unwrap().as_bytes(), b"");
}

#[test]
fn case_is_ignored_for_ascii_letters_only() {
    let pair = |name: &str| vec![(name.to_string(), "t".to_string())];
    assert!(auth_from_pairs(&pair("aUtHoRiZaTiOn")).is_some());
    // The dotless i is no ASCII letter, though its capital is one.
    assert!(auth_from_pairs(&pair("author\u{131}zation")).is_none());
    assert!(auth_from_pairs(&pair("authorization ")).is_none());
    assert!(auth_from_pairs(&vec![]).is_none());
}

#[test]
fn query_values_that_cannot_stand_in_a_header_are_dropped() {
    for escaped in ["%00", "%0D", "%0A", "%1F", "%7F"] {
        let query = format!("authorization=a{escaped}b");
        assert!(extract_auth_from_query(&query).is_none(), "{escaped}");
    }
    let tab = extract_auth_from_query("authorization=a%09b").unwrap();
    assert_eq!(tab.as_bytes(), b"a\tb");
    let tilde = extract_auth_from_query("authorization=%7E%20").unwrap();
    assert_eq!(tilde.as_bytes(), b"~ ");
    let accent = extract_auth_from_query("authorization=%C3%A9").unwrap();
    assert_eq!(accent.as_bytes(), "\u{e9}".as_bytes());
    assert!(!accent.is_sensitive());
}

#[test]
fn first_of_several_headers_counts() {
    let mut headers = HeaderMap::new();
    headers.append(AUTHORIZATION, HeaderValue::from_static("first"));
    headers.append(AUTHORIZATION, HeaderValue::from_static("second"));
    let uri = "/".parse().unwrap();
    assert_eq!(extract_auth_from_request(&headers, &uri).unwrap(), "first");
}

#[test]
fn other_headers_are_no_credential() {
    let mut headers = HeaderMap::new();
    headers.insert("proxy-authorization", HeaderValue::from_static("proxy"));
    let with_query = "/path?authorization=query#fragment".parse().unwrap();
    assert_eq!(extract_auth_from_request(&headers, &with_query).unwrap(), "query");
    let without = "/authorization=query".parse().unwrap();
    assert!(extract_auth_from_request(&headers, &without).is_none());
}

#[test]
fn a_header_that_is_no_text_is_captured_as_it_is() {
    let mut headers = HeaderMap::new();
    headers.insert(AUTHORIZATION, HeaderValue::from_bytes(b"Bearer \xff\xfe").unwrap());
    let uri = "/?authorization=query".parse().unwrap();
    assert_eq!(extract_auth_from_request(&headers, &uri).unwrap().as_bytes(), b"Bearer \xff\xfe");
}

#[test]
fn capture_replaces_and_keeps() {
    let service = AuthCaptureLayer.layer(7u8);
    assert_eq!(service.inner, 7);
    let mut headers = HeaderMap::new();
    let uri = "/".parse().unwrap();
    let mut extensions = Extensions::new();
    extensions.insert(42u32);
    extensions.insert(AuthValue::new(HeaderValue::from_static("old")));

    service.capture(&headers, &uri, &mut extensions);
    assert_eq!(auth_from_extensions(&extensions).unwrap().header(), "old");

    headers.insert(AUTHORIZATION, HeaderValue::from_static("new"));
    service.capture(&headers, &uri, &mut extensions);
    assert_eq!(auth_from_extensions(&extensions).unwrap().header(), "new");
    assert_eq!(extensions.get::<u32>(), Some(&42));
}

#[test]
fn scope_is_what_was_captured() {
    let service = AuthScopeLayer.layer("inner");
    assert_eq!(service.service, "inner");
    let mut extensions = Extensions::new();
    assert!(service.scope(&extensions).is_none());
    extensions.insert(AuthValue::new(HeaderValue::from_static("token")));
    assert_eq!(service.scope(&extensions).unwrap().header(), "token");
}

#[test]
fn sensitivity_travels_with_the_credential() {
    let mut value = HeaderValue::from_static("Bearer secret");
    value.set_sensitive(true);
    let auth = AuthValue::new(value);
    assert!(auth.clone().header().is_sensitive());
    let packet = AuthForwardLayer.layer(()).forward(Some(&auth), make_packet());
    let headers = headers_of(&packet)[0].clone().unwrap();
    assert!(headers.get(AUTHORIZATION).unwrap().is_sensitive());
}

#[test]
fn credential_is_the_only_header_and_the_request_stays() {
    let mut stale = HeaderMap::new();
    stale.insert("x-trace", HeaderValue::from_static("1"));
    stale.insert(AUTHORIZATION, HeaderValue::from_static("stale"));
    let mut single = request("eth_blockNumber", 1);
    single.meta_mut().extensions_mut().insert(stale);
    single.meta_mut().extensions_mut().insert(5u64);
    let text = single.serialized().get().to_string();

    let auth = AuthValue::new(HeaderValue::from_static("fresh"));
    let packet = AuthForwardLayer.layer(()).forward(Some(&auth), RequestPacket::Single(single));
    let headers = headers_of(&packet)[0].clone().unwrap();
    assert_eq!(headers.len(), 1);
    assert_eq!(headers.get(AUTHORIZATION).unwrap(), "fresh");
    match packet {
        RequestPacket::Single(s) => {
            assert_eq!(s.serialized().get(), text);
            assert_eq!(s.method(), "eth_blockNumber");
            assert_eq!(s.id(), &Id::Number(1));
            assert!(!s.is_subscription());
            assert_eq!(s.meta().extensions().get::<u64>(), Some(&5));
        }
        RequestPacket::Batch(_) => panic!("a single request became a batch"),
    }
}

#[test]
fn last_credential_wins_over_an_earlier_one() {
    let service = AuthForwardLayer.layer(());
    let first = AuthValue::new(HeaderValue::from_static("first"));
    let last = AuthValue::new(HeaderValue::from_static("last"));
    let packet = service.forward(Some(&last), service.forward(Some(&first), make_packet()));
    let headers = headers_of(&packet)[0].clone().unwrap();
    assert_eq!(headers.get_all(AUTHORIZATION).iter().count(), 1);
    assert_eq!(headers.get(AUTHORIZATION).unwrap(), "last");
}

#[test]
fn batches_keep_their_order_and_shape() {
    let service = AuthForwardLayer.layer(());
    let auth = AuthValue::new(HeaderValue::from_static("token"));
    let methods = ["eth_a", "eth_b", "eth_c"];
    let batch: Vec<SerializedRequest> =
        methods.iter().enumerate().map(|(i, m)| request(m, i as u64)).collect();
    match service.forward(Some(&auth), RequestPacket::Batch(batch)) {
        RequestPacket::Batch(b) => {
            let found: Vec<&str> = b.iter().map(|s| s.method()).collect();
            assert_eq!(found, methods);
        }
        RequestPacket::Single(_) => panic!("a batch became a single request"),
    }
    match service.forward(Some(&auth), RequestPacket::Batch(Vec::new())) {
        RequestPacket::Batch(b) => assert!(b.is_empty()),
        RequestPacket::Single(_) => panic!("a batch became a single request"),
    }
}
