use axum::http::{HeaderMap, HeaderValue};
use nostr_gateway::api::{
    authorization_decision, authorize_url, commit_url, is_success, note_publication_outcome,
    note_publications_url, release_url, reservation_outcome, reservation_url, reservations_url,
    retry_internal_request, AuthorizationResponse, NotePublicationError, ReserveError,
    ReserveUploadResponse, RetryStep,
};
use nostr_gateway::config::{
    bind_address, positive_i64_env, required_env, BindVariable, ConfigFault, GatewayConfig, GatewayVariables,
};
use nostr_gateway::headers::{
    copy_response_headers, header_text, is_hop_by_hop, request_headers, response_headers,
    streamed_headers,
};
use nostr_gateway::proxy::{
    method_forwards_body, upstream_failed, upstream_request, BufferedUpstreamResponse,
};
use nostr_gateway::route::{
    health, is_websocket_upgrade, relay_request, route_request, unknown_service, RelayRoute,
    Service,
};

fn fields(pairs: &[(&'static str, &'static str)]) -> HeaderMap {
    let mut headers = HeaderMap::new();
    for (name, value) in pairs {
        headers.append(*name, HeaderValue::from_static(value));
    }
    headers
}

fn values(headers: &HeaderMap, name: &str) -> Vec<String> {
    headers
        .get_all(name)
        .iter()
        .map(|value| value.to_str().unwrap().to_owned())
        .collect()
}

fn many(names: usize) -> HeaderMap {
    let mut headers = HeaderMap::new();
    for i in 0..names {
        let name = axum::http::HeaderName::from_bytes(format!("x-{i}").as_bytes()).unwrap();
        headers.append(name, HeaderValue::from_static("v"));
    }
    headers
}

#[test]
fn bodyless_proxy_methods_do_not_forward_streaming_bodies() {
    assert!(!method_forwards_body(reqwest::Method::GET.as_str()));
    assert!(!method_forwards_body(reqwest::Method::HEAD.as_str()));
    assert!(method_forwards_body(reqwest::Method::POST.as_str()));
    assert!(method_forwards_body(reqwest::Method::PUT.as_str()));
    assert!(method_forwards_body(reqwest::Method::DELETE.as_str()));
}

#[test]
fn fields_of_a_single_connection_do_not_pass() {
    for name in [
        "connection",
        "keep-alive",
        "proxy-authenticate",
        "proxy-authorization",
        "te",
        "trailer",
        "transfer-encoding",
        "upgrade",
        "Upgrade",
        "TE",
    ] {
        assert!(is_hop_by_hop(name), "{name}");
    }
    for name in ["", "host", "t", "trailers", "content-length", "keepalive"] {
        assert!(!is_hop_by_hop(name), "{name}");
    }
}

#[test]
fn requests_pass_without_host_and_without_the_length_of_no_body() {
    let source = fields(&[
        ("host", "media.example"),
        ("content-length", "5"),
        ("x-a", "1"),
        ("te", "trailers"),
        ("x-a", "2"),
    ]);
    let with_body = request_headers(&source, true).unwrap();
    assert_eq!(with_body.len(), 3);
    assert_eq!(values(&with_body, "x-a"), ["1", "2"]);
    assert_eq!(values(&with_body, "content-length"), ["5"]);
    let without_body = request_headers(&source, false).unwrap();
    assert_eq!(without_body.len(), 2);
    assert_eq!(values(&without_body, "x-a"), ["1", "2"]);
}

#[test]
fn buffered_responses_keep_every_value_and_streamed_ones_the_first() {
    let source = fields(&[
        ("set-cookie", "a"),
        ("host", "kept"),
        ("set-cookie", "b"),
        ("connection", "close"),
    ]);
    let buffered = response_headers(&source).unwrap();
    assert_eq!(values(&buffered, "set-cookie"), ["a", "b"]);
    assert_eq!(values(&buffered, "host"), ["kept"]);
    assert_eq!(buffered.len(), 3);
    let streamed = streamed_headers(&source).unwrap();
    assert_eq!(values(&streamed, "set-cookie"), ["a"]);
    assert_eq!(values(&streamed, "host"), ["kept"]);
    assert_eq!(streamed.len(), 2);
}

#[test]
fn streamed_fields_keep_the_first_value_whatever_the_name() {
    let name = axum::http::HeaderName::from_lowercase(b"x\"y").unwrap();
    let mut source = HeaderMap::new();
    source.append(&name, HeaderValue::from_static("1"));
    source.append(&name, HeaderValue::from_static("2"));
    let streamed = streamed_headers(&source).unwrap();
    assert_eq!(streamed.len(), 1);
    assert_eq!(streamed.get(&name).unwrap(), "1");
    assert_eq!(response_headers(&source).unwrap().len(), 2);
}

#[test]
fn copied_fields_follow_those_that_are_there() {
    let mut destination = fields(&[("x-a", "0"), ("te", "stays")]);
    assert!(copy_response_headers(&fields(&[("x-a", "1"), ("te", "goes"), ("x-b", "2")]), &mut destination));
    assert_eq!(values(&destination, "x-a"), ["0", "1"]);
    assert_eq!(values(&destination, "te"), ["stays"]);
    assert_eq!(values(&destination, "x-b"), ["2"]);
}

#[test]
fn thousands_of_fields_pass() {
    let source = many(6553);
    assert_eq!(response_headers(&source).unwrap().len(), 6553);
    assert_eq!(streamed_headers(&source).unwrap().len(), 6553);
    assert_eq!(request_headers(&source, true).unwrap().len(), 6553);
}

#[test]
fn too_many_fields_are_noticed() {
    let mut destination = many(24_000);
    let mut source = HeaderMap::new();
    for i in 0..2_000 {
        let name = axum::http::HeaderName::from_bytes(format!("y-{i}").as_bytes()).unwrap();
        source.append(name, HeaderValue::from_static("v"));
    }
    assert!(!copy_response_headers(&source, &mut destination));
}

#[test]
fn field_texts_are_those_of_the_first_visible_value() {
    let headers = fields(&[("x-a", "one two"), ("x-a", "three")]);
    assert_eq!(header_text(&headers, "x-a"), Some("one two"));
    assert_eq!(header_text(&headers, "x-b"), None);
    let mut opaque = HeaderMap::new();
    opaque.append("x-a", HeaderValue::from_bytes(b"\xc3\xa9").unwrap());
    opaque.append("x-a", HeaderValue::from_static("e"));
    assert_eq!(header_text(&opaque, "x-a"), None);
}

#[test]
fn requests_go_on_to_the_same_path() {
    let source = fields(&[("x-a", "1"), ("content-length", "3")]);
    let request =
        upstream_request("PUT", "http://10.0.0.1:3000//", Some("/upload?x=1"), &source).unwrap();
    assert_eq!(request.method, "PUT");
    assert_eq!(request.url, "http://10.0.0.1:3000/upload?x=1");
    assert!(request.forwards_body);
    assert_eq!(request.headers.len(), 2);

    let request = upstream_request("GET", "http://o", None, &source).unwrap();
    assert_eq!(request.url, "http://o/");
    assert!(!request.forwards_body);
    assert_eq!(request.headers.len(), 1);
}

#[test]
fn buffered_responses_are_passed_on() {
    let response = BufferedUpstreamResponse {
        status: 418,
        headers: fields(&[("x-a", "1"), ("trailer", "x")]),
        body: vec![1, 2, 3],
    }
    .into_response()
    .unwrap();
    assert_eq!(response.status, 418);
    assert_eq!(response.body, [1, 2, 3]);
    assert_eq!(response.headers.len(), 1);
    let answer = upstream_failed();
    assert_eq!(
        (answer.status, answer.text),
        (502, "service temporarily unavailable")
    );
}

#[test]
fn services_go_by_host() {
    let at = |host: &'static str| {
        route_request(&fields(&[("host", host)]), "relay.example", "media.example")
    };
    assert_eq!(at("relay.example"), Service::Relay);
    assert_eq!(at("relay.example:443"), Service::Relay);
    assert_eq!(at("media.example"), Service::Blossom);
    assert_eq!(at("Relay.example"), Service::Unknown);
    assert_eq!(at(":443"), Service::Unknown);
    assert_eq!(route_request(&HeaderMap::new(), "r", "m"), Service::Unknown);
    assert_eq!(route_request(&HeaderMap::new(), "r", ""), Service::Blossom);
    assert_eq!(
        route_request(&fields(&[("host", "one")]), "one", "one"),
        Service::Relay
    );
    let answer = unknown_service();
    assert_eq!((answer.status, answer.text), (404, "unknown Drum service"));
}

#[test]
fn relay_requests_are_sessions_documents_or_proxied() {
    let socket = fields(&[("upgrade", "WebSocket"), ("accept", "application/nostr+json")]);
    assert!(is_websocket_upgrade(&socket));
    assert!(!is_websocket_upgrade(&fields(&[("upgrade", "h2c")])));
    assert!(!is_websocket_upgrade(&HeaderMap::new()));
    assert_eq!(relay_request("GET", "/", &socket), RelayRoute::Session);
    let document = fields(&[("accept", "application/nostr+json")]);
    assert_eq!(relay_request("GET", "/", &document), RelayRoute::Information);
    assert_eq!(relay_request("POST", "/", &document), RelayRoute::Proxy);
    assert_eq!(relay_request("GET", "/", &HeaderMap::new()), RelayRoute::Proxy);
}

#[test]
fn health_names_the_build() {
    assert_eq!(health("abc"), br#"{"build":"abc","status":"ok"}"#);
}

#[test]
fn grants_need_a_reached_api_success_and_a_readable_answer() {
    let yes = || {
        Some(AuthorizationResponse {
            authorized: true,
            account_identity_id: Some("acc".to_string()),
        })
    };
    assert_eq!(authorization_decision(Some(200), yes()), yes().unwrap());
    assert_eq!(authorization_decision(Some(299), yes()), yes().unwrap());
    for (status, body) in [
        (None, yes()),
        (Some(199), yes()),
        (Some(300), yes()),
        (Some(500), yes()),
        (Some(200), None),
    ] {
        assert_eq!(authorization_decision(status, body), AuthorizationResponse::denied());
    }
    assert!(!AuthorizationResponse::denied().authorized);
    assert_eq!(AuthorizationResponse::denied().account_identity_id, None);
    assert!(is_success(204) && !is_success(404));
}

#[test]
fn notes_are_counted_by_status() {
    assert_eq!(note_publication_outcome(Some(201)), Ok(()));
    assert_eq!(note_publication_outcome(Some(429)), Err(NotePublicationError::LimitReached));
    assert_eq!(note_publication_outcome(Some(503)), Err(NotePublicationError::Unavailable));
    assert_eq!(note_publication_outcome(None), Err(NotePublicationError::Unavailable));
}

#[test]
fn reservations_are_made_by_status_code_and_body() {
    let made = || Some(ReserveUploadResponse { reservation_id: "r".to_string() });
    let limit = Some("blossom_upload_limit_reached");
    assert_eq!(reservation_outcome(Some(200), None, made()), Ok(made().unwrap()));
    assert_eq!(reservation_outcome(Some(200), limit, made()), Ok(made().unwrap()));
    assert_eq!(reservation_outcome(Some(200), None, None), Err(ReserveError::Unavailable));
    assert_eq!(
        reservation_outcome(Some(413), limit, made()),
        Err(ReserveError::UploadLimitReached)
    );
    assert_eq!(
        reservation_outcome(Some(413), Some("other"), None),
        Err(ReserveError::StorageLimitReached)
    );
    assert_eq!(
        reservation_outcome(Some(413), None, None),
        Err(ReserveError::StorageLimitReached)
    );
    assert_eq!(reservation_outcome(Some(500), limit, made()), Err(ReserveError::Unavailable));
    assert_eq!(reservation_outcome(None, None, None), Err(ReserveError::Unavailable));
}

#[test]
fn requests_that_have_to_arrive_are_tried_three_times() {
    assert_eq!(retry_internal_request(0, Some(200)), RetryStep::Succeeded);
    assert_eq!(retry_internal_request(2, Some(204)), RetryStep::Succeeded);
    assert_eq!(retry_internal_request(0, None), RetryStep::Wait(50));
    assert_eq!(retry_internal_request(1, Some(500)), RetryStep::Wait(100));
    assert_eq!(retry_internal_request(2, Some(500)), RetryStep::Failed);
    assert_eq!(retry_internal_request(u64::MAX, None), RetryStep::Failed);
}

#[test]
fn addresses_of_the_internal_api_are_exact() {
    let origin = "https://api.example";
    assert_eq!(authorize_url(origin), "https://api.example/v1/internal/nostr/authorize");
    assert_eq!(
        note_publications_url(origin),
        "https://api.example/v1/internal/nostr/note-publications"
    );
    assert_eq!(
        reservations_url(origin),
        "https://api.example/v1/internal/blossom/reservations"
    );
    assert_eq!(
        reservation_url(origin, "r1"),
        "https://api.example/v1/internal/blossom/reservations/r1"
    );
    assert_eq!(
        commit_url(origin, "r1"),
        "https://api.example/v1/internal/blossom/reservations/r1/commit"
    );
    assert_eq!(
        release_url(origin),
        "https://api.example/v1/internal/blossom/owners/release"
    );
}

fn variables() -> GatewayVariables {
    let set = |value: &str| Some(value.to_string());
    GatewayVariables {
        bind_addr: None,
        api_origin: set("https://api.example//"),
        shared_secret: set("SECRET-REDACTED"),
        relay_hostname: None,
        relay_public_url: None,
        relay_upstream_ws: set("ws://10.0.0.1"),
        relay_upstream_http: set("http://10.0.0.1/"),
        blossom_hostname: None,
        blossom_upstream_http: set("http://10.0.0.2"),
        blossom_max_write_bytes: None,
    }
}

#[test]
fn settings_have_defaults() {
    let config = GatewayConfig::from_env(variables()).ok().unwrap();
    assert_eq!(config.bind_addr, "127.0.0.1:3100");
    assert_eq!(config.api_origin, "https://api.example");
    assert_eq!(config.shared_secret, "SECRET-REDACTED");
    assert_eq!(config.relay_hostname, "relay.drum.dev");
    assert_eq!(config.relay_public_url, "wss://relay.drum.dev/");
    assert_eq!(config.relay_upstream_ws, "ws://10.0.0.1");
    assert_eq!(config.relay_upstream_http, "http://10.0.0.1/");
    assert_eq!(config.blossom_hostname, "media.drum.dev");
    assert_eq!(config.blossom_upstream_http, "http://10.0.0.2");
    assert_eq!(config.blossom_max_write_bytes, 25_000_000);
}

#[test]
fn settings_can_be_given() {
    let set = |value: &str| Some(value.to_string());
    let config = GatewayConfig::from_env(GatewayVariables {
        bind_addr: Some(BindVariable { text: "[::]:1".to_string(), is_address: true }),
        relay_hostname: set("r"),
        relay_public_url: set("wss://r"),
        blossom_hostname: set("m"),
        blossom_max_write_bytes: set("1"),
        ..variables()
    })
    .ok()
    .unwrap();
    assert_eq!(config.bind_addr, "[::]:1");
    assert_eq!(config.relay_hostname, "r");
    assert_eq!(config.relay_public_url, "wss://r");
    assert_eq!(config.blossom_hostname, "m");
    assert_eq!(config.blossom_max_write_bytes, 1);
}

#[test]
fn settings_are_refused_in_order() {
    let refused = |variables: GatewayVariables| {
        GatewayConfig::from_env(variables).err().unwrap().message()
    };
    let none = || GatewayVariables {
        bind_addr: None,
        api_origin: None,
        shared_secret: None,
        relay_hostname: None,
        relay_public_url: None,
        relay_upstream_ws: None,
        relay_upstream_http: None,
        blossom_hostname: None,
        blossom_upstream_http: None,
        blossom_max_write_bytes: Some("x".to_string()),
    };
    let mut given = none();
    let bad = || Some(BindVariable { text: "nowhere".to_string(), is_address: false });
    assert_eq!(
        refused(GatewayVariables { bind_addr: bad(), ..none() }),
        "GATEWAY_BIND_ADDR must be a socket address"
    );
    assert_eq!(
        refused(GatewayVariables { bind_addr: bad(), ..variables() }),
        "GATEWAY_BIND_ADDR must be a socket address"
    );
    assert_eq!(refused(none()), "DRUM_API_ORIGIN must be set");
    given.api_origin = Some(String::new());
    assert_eq!(
        refused(GatewayVariables { api_origin: Some(String::new()), ..none() }),
        "GATEWAY_SHARED_SECRET must be set"
    );
    given.shared_secret = Some(String::new());
    given.relay_upstream_http = Some(String::new());
    assert_eq!(refused(given), "RELAY_UPSTREAM_WS must be set");
    assert_eq!(
        refused(GatewayVariables { relay_upstream_http: None, ..variables() }),
        "RELAY_UPSTREAM_HTTP must be set"
    );
    assert_eq!(
        refused(GatewayVariables {
            blossom_upstream_http: None,
            blossom_max_write_bytes: Some("x".to_string()),
            ..variables()
        }),
        "BLOSSOM_UPSTREAM_HTTP must be set"
    );
    for (value, message) in [
        ("x", "BLOSSOM_MAX_WRITE_BYTES must be a valid i64"),
        ("", "BLOSSOM_MAX_WRITE_BYTES must be a valid i64"),
        ("9223372036854775808", "BLOSSOM_MAX_WRITE_BYTES must be a valid i64"),
        ("0", "BLOSSOM_MAX_WRITE_BYTES must be greater than zero"),
        ("-9223372036854775808", "BLOSSOM_MAX_WRITE_BYTES must be greater than zero"),
    ] {
        assert_eq!(
            refused(GatewayVariables {
                blossom_max_write_bytes: Some(value.to_string()),
                ..variables()
            }),
            message
        );
    }
}

#[test]
fn single_variables_are_read() {
    assert_eq!(bind_address(None), Ok("127.0.0.1:3100".to_string()));
    let given = |is_address: bool| Some(BindVariable { text: "a".to_string(), is_address });
    assert_eq!(bind_address(given(true)), Ok("a".to_string()));
    assert_eq!(bind_address(given(false)).unwrap_err().fault, ConfigFault::NotAnAddress);
    assert_eq!(bind_address(given(false)).unwrap_err().name, "GATEWAY_BIND_ADDR");
    assert_eq!(required_env("A", Some("b".to_string())), Ok("b".to_string()));
    assert_eq!(required_env("A", None).unwrap_err().fault, ConfigFault::Missing);
    assert_eq!(required_env("A", None).unwrap_err().name, "A");
    assert_eq!(positive_i64_env("A", None, "7"), Ok(7));
    assert_eq!(positive_i64_env("A", Some("8".to_string()), "7"), Ok(8));
    assert_eq!(
        positive_i64_env("A", None, "none").unwrap_err().fault,
        ConfigFault::NotANumber
    );
    assert_eq!(
        positive_i64_env("A", Some("-1".to_string()), "7").unwrap_err().fault,
        ConfigFault::NotPositive
    );
}
