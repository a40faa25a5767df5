use axum::http::{header, HeaderMap, HeaderValue};
use nostr_gateway::information::{
    describe, information_answer, is_relay_information_request, relay_information_response,
    rewrite_relay_information,
};
use nostr_gateway::json::Json;
use nostr_gateway::proxy::BufferedUpstreamResponse;

fn rewritten(text: &str) -> Json {
    Json::parse_bytes(&rewrite_relay_information(text.as_bytes()).unwrap()).unwrap()
}

fn accepting(accept: &'static str) -> HeaderMap {
    let mut headers = HeaderMap::new();
    headers.insert(header::ACCEPT, HeaderValue::from_static(accept));
    headers
}

#[test]
fn relay_information_advertises_nip42_and_restricted_writes() {
    let rewritten = rewrite_relay_information(
        br#"{"name":"Drum Relay","supported_nips":[1,11],"limitation":{"payment_required":false}}"#,
    )
    .unwrap();
    let information: serde_json::Value = serde_json::from_slice(&rewritten).unwrap();

    assert_eq!(information["name"], "Drum Relay");
    assert_eq!(
        information["supported_nips"],
        serde_json::Value::from(vec![1, 11, 42])
    );
    assert_eq!(information["limitation"]["payment_required"], false);
    assert_eq!(information["limitation"]["restricted_writes"], true);
}

#[test]
fn rewritten_relay_information_uses_its_new_content_length() {
    let original = br#"{"supported_nips":[1]}"#;
    let rewritten = rewrite_relay_information(original).unwrap();
    let original_length = original.len().to_string();
    let rewritten_length = rewritten.len().to_string();

    assert_ne!(original_length, rewritten_length);
    let mut headers = HeaderMap::new();
    headers.insert(
        header::CONTENT_LENGTH,
        header::HeaderValue::from_str(&original_length).unwrap(),
    );
    let response = relay_information_response(200, &headers, rewritten).unwrap();

    assert_eq!(
        response.headers.get(header::CONTENT_LENGTH).unwrap(),
        rewritten_length.as_str()
    );
}

#[test]
fn information_is_rewritten_to_exact_bytes() {
    assert_eq!(
        rewrite_relay_information(b"{}").unwrap(),
        br#"{"limitation":{"restricted_writes":true},"supported_nips":[42]}"#
    );
    assert_eq!(
        rewrite_relay_information(br#"{"z":[-1,0.5],"supported_nips":[]}"#).unwrap(),
        br#"{"limitation":{"restricted_writes":true},"supported_nips":[42],"z":[-1,0.5]}"#
    );
}

#[test]
fn a_list_with_authentication_stays_as_it_is() {
    assert_eq!(
        rewritten(r#"{"supported_nips":[50,42,1]}"#).get("supported_nips"),
        Some(&Json::parse_text("[50,42,1]").unwrap())
    );
}

#[test]
fn a_list_that_gets_authentication_is_ordered_and_stable() {
    assert_eq!(
        rewritten(r#"{"supported_nips":["b",50,"a",7,null,7,-3,18446744073709551615]}"#)
            .get("supported_nips"),
        Some(
            &Json::parse_text(r#"[7,7,42,50,"b","a",null,-3,18446744073709551615]"#).unwrap()
        )
    );
}

#[test]
fn rewriting_twice_is_rewriting_once() {
    let once = rewrite_relay_information(br#"{"name":"x","supported_nips":[9,1]}"#).unwrap();
    assert_eq!(rewrite_relay_information(&once).unwrap(), once);
    let negative = br#"{"a":[-1,{"b":-9223372036854775808}],"supported_nips":[-5,18446744073709551615]}"#;
    let once = rewrite_relay_information(negative).unwrap();
    assert_eq!(rewrite_relay_information(&once).unwrap(), once);
    assert_eq!(
        Json::parse_bytes(&once).unwrap().get("supported_nips"),
        Some(&Json::parse_text("[42,-5,18446744073709551615]").unwrap())
    );
}

#[test]
fn a_signed_item_counts_by_its_value() {
    let document = |nips: Vec<Json>| {
        Json::Object(vec![("supported_nips".to_string(), Json::Array(nips))])
    };
    let nips = |json: Option<Json>| json.unwrap().get("supported_nips").unwrap().to_text();
    assert_eq!(nips(describe(document(vec![Json::Signed(50), Json::Signed(42)]))), "[50,42]");
    assert_eq!(
        nips(describe(document(vec![Json::Signed(50), Json::Signed(-1), Json::Signed(1)]))),
        "[1,42,50,-1]"
    );
}

#[test]
fn restricted_writes_are_always_told() {
    let information = rewritten(r#"{"limitation":{"restricted_writes":false,"max":5}}"#);
    let limits = information.get("limitation").unwrap();
    assert_eq!(limits.get("restricted_writes"), Some(&Json::Bool(true)));
    assert_eq!(limits.get("max"), Some(&Json::Unsigned(5)));
}

#[test]
fn documents_of_another_shape_are_not_rewritten() {
    for text in [
        "",
        "[]",
        "null",
        "{",
        r#"{"supported_nips":1}"#,
        r#"{"supported_nips":null}"#,
        r#"{"limitation":[]}"#,
        r#"{"limitation":null}"#,
    ] {
        assert_eq!(rewrite_relay_information(text.as_bytes()), None, "{text}");
    }
}

#[test]
fn the_response_with_a_document_has_its_type_and_length_alone() {
    let mut headers = HeaderMap::new();
    headers.append("x-kept", HeaderValue::from_static("1"));
    headers.append("x-kept", HeaderValue::from_static("2"));
    headers.append("connection", HeaderValue::from_static("close"));
    headers.append("content-type", HeaderValue::from_static("application/json"));
    headers.append("content-length", HeaderValue::from_static("5"));
    headers.append("content-length", HeaderValue::from_static("6"));
    let response = relay_information_response(203, &headers, b"0123456789".to_vec()).unwrap();

    assert_eq!(response.status, 203);
    assert_eq!(response.body, b"0123456789");
    let all = |name: &str| {
        response
            .headers
            .get_all(name)
            .iter()
            .map(|value| value.to_str().unwrap().to_owned())
            .collect::<Vec<_>>()
    };
    assert_eq!(all("x-kept"), ["1", "2"]);
    assert_eq!(all("connection"), Vec::<String>::new());
    assert_eq!(all("content-type"), ["application/nostr+json"]);
    assert_eq!(all("content-length"), ["10"]);
    assert_eq!(response.headers.len(), 4);
}

#[test]
fn the_answer_passes_on_what_it_cannot_rewrite() {
    let respond = |status: u16, body: &str| {
        let mut headers = HeaderMap::new();
        headers.insert("upgrade", HeaderValue::from_static("no"));
        headers.insert("content-type", HeaderValue::from_static("text/plain"));
        information_answer(BufferedUpstreamResponse {
            status,
            headers,
            body: body.as_bytes().to_vec(),
        })
        .unwrap()
    };

    let failed = respond(500, "{}");
    assert_eq!((failed.status, failed.body.as_slice()), (500, "{}".as_bytes()));
    assert_eq!(failed.headers.get("content-type").unwrap(), "text/plain");
    assert!(failed.headers.get("upgrade").is_none());

    let odd = respond(200, "hello");
    assert_eq!(odd.body, b"hello");
    assert_eq!(odd.headers.get("content-type").unwrap(), "text/plain");

    let good = respond(200, "{}");
    assert_eq!(
        good.body,
        br#"{"limitation":{"restricted_writes":true},"supported_nips":[42]}"#
    );
    assert_eq!(good.headers.get("content-type").unwrap(), "application/nostr+json");
    assert_eq!(good.headers.get("content-length").unwrap(), "63");
}

#[test]
fn the_document_is_asked_for_at_the_root_by_its_media_type() {
    let asks = |accept: &'static str| is_relay_information_request("GET", "/", &accepting(accept));
    assert!(asks("application/nostr+json"));
    assert!(asks("text/html, application/nostr+json;q=0.9"));
    assert!(asks("text/html,\tapplication/nostr+json ; q=1,*/*"));
    assert!(!asks("application/json"));
    assert!(!asks("Application/Nostr+Json"));
    assert!(!asks("application/nostr+json2"));
    assert!(!asks(""));
    let accept = accepting("application/nostr+json");
    assert!(!is_relay_information_request("HEAD", "/", &accept));
    assert!(!is_relay_information_request("GET", "/x", &accept));
    assert!(!is_relay_information_request("GET", "/", &HeaderMap::new()));
    let mut opaque = HeaderMap::new();
    opaque.insert(
        header::ACCEPT,
        HeaderValue::from_bytes(b"application/nostr+json,\xff").unwrap(),
    );
    assert!(!is_relay_information_request("GET", "/", &opaque));
}

#[test]
fn a_document_in_hand_is_described() {
    let document = Json::parse_text(r#"{"name":"x","supported_nips":[50]}"#).unwrap();
    let described = describe(document).unwrap();
    assert_eq!(described.get("name").and_then(Json::as_text), Some("x"));
    assert_eq!(
        described.get("supported_nips"),
        Some(&Json::parse_text("[42,50]").unwrap())
    );
    assert_eq!(describe(Json::Null), None);
    assert_eq!(
        describe(Json::Object(vec![("limitation".to_string(), Json::Bool(true))])),
        None
    );
}
