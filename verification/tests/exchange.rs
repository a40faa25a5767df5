use axum::http::{header, HeaderMap, HeaderValue};
use base64::engine::general_purpose::URL_SAFE_NO_PAD;
use base64::Engine;
use nostr::{EventBuilder, Keys, Kind, Tag, Timestamp};
use nostr_gateway::api::{AuthorizationResponse, ReserveError, ReserveUploadResponse};
use nostr_gateway::blob::BlobDescriptor;
use nostr_gateway::blossom::BlossomAuthorization;
use nostr_gateway::exchange::{
    blossom_request, blossom_request_at, blossom_reservation_error, blossom_route, open_exchange, BlossomExchange,
    BlossomRoute, ExchangeAction, ExchangeEvent, Reply, UploadOutcome,
};
use nostr_gateway::proxy::Answer;

const NOW: u64 = 1_000_000;
const HOST: &str = "media.example";

fn hash(digit: &str) -> String {
    digit.repeat(64)
}

fn signed(keys: &Keys, action: &str, hashes: &[&str]) -> HeaderMap {
    let mut tags = vec![
        Tag::parse(["t", action]).unwrap(),
        Tag::parse(["expiration", "2000000"]).unwrap(),
    ];
    for hash in hashes {
        tags.push(Tag::parse(["x", hash]).unwrap());
    }
    let event = EventBuilder::new(Kind::Custom(24_242), "Authorize")
        .tags(tags)
        .custom_created_at(Timestamp::from(NOW))
        .sign_with_keys(keys)
        .unwrap();
    let encoded = URL_SAFE_NO_PAD.encode(serde_json::to_vec(&event).unwrap());
    let mut headers = HeaderMap::new();
    headers.insert(
        header::AUTHORIZATION,
        format!("Nostr {encoded}").parse().unwrap(),
    );
    headers
}

fn with(mut headers: HeaderMap, name: &'static str, value: &str) -> HeaderMap {
    headers.insert(name, HeaderValue::from_str(value).unwrap());
    headers
}

fn open(method: &str, path: &str, headers: &HeaderMap) -> BlossomExchange {
    blossom_request_at(method, path, headers, HOST, 77, NOW).unwrap().0
}

fn granted(account: Option<&str>) -> ExchangeEvent {
    ExchangeEvent::Granted(AuthorizationResponse {
        authorized: true,
        account_identity_id: account.map(str::to_string),
    })
}

fn reserved(id: &str) -> ExchangeEvent {
    ExchangeEvent::Reserved(Ok(ReserveUploadResponse {
        reservation_id: id.to_string(),
    }))
}

fn descriptor(size: i64) -> BlobDescriptor {
    BlobDescriptor {
        sha256: hash("d"),
        size,
        mime_type: "image/webp".to_string(),
        url: "https://cdn.example/d.webp".to_string(),
        uploaded: 7,
    }
}

fn uploaded(status: u16, descriptor: Option<BlobDescriptor>) -> ExchangeEvent {
    ExchangeEvent::Uploaded(UploadOutcome::Answered { status, descriptor })
}

fn answer(action: Option<ExchangeAction>) -> (u16, &'static str) {
    match action {
        Some(ExchangeAction::Reply(Reply::Own(Answer { status, text }))) => (status, text),
        other => panic!("no answer: {other:?}"),
    }
}

fn reserve(action: Option<ExchangeAction>) -> (String, i64, Option<String>) {
    match action {
        Some(ExchangeAction::Reserve(request)) => (
            request.account_identity_id,
            request.requested_bytes,
            request.sha256,
        ),
        other => panic!("nothing reserved: {other:?}"),
    }
}

fn cancel(action: Option<ExchangeAction>) -> String {
    match action {
        Some(ExchangeAction::Cancel(reservation)) => reservation,
        other => panic!("nothing cancelled: {other:?}"),
    }
}

/// An upload of ten bytes for which storage is set aside.
fn uploading() -> BlossomExchange {
    let headers = with(signed(&Keys::generate(), "upload", &[]), "content-length", "10");
    let mut exchange = open("PUT", "/upload", &headers);
    exchange.step(granted(Some("acc")));
    assert!(matches!(
        exchange.step(reserved("r1")),
        Some(ExchangeAction::Upload)
    ));
    exchange
}

#[test]
fn routes_go_by_method_and_path() {
    let path = format!("/{}.png", hash("a"));
    assert!(matches!(blossom_route("PUT", "/upload"), BlossomRoute::Upload));
    assert!(matches!(blossom_route("HEAD", "/upload"), BlossomRoute::UploadPreflight));
    assert!(matches!(blossom_route("PUT", "/mirror"), BlossomRoute::Mirror));
    assert!(matches!(blossom_route("PUT", "/media"), BlossomRoute::Media));
    assert!(matches!(blossom_route("HEAD", "/media"), BlossomRoute::Media));
    match blossom_route("DELETE", &path) {
        BlossomRoute::Delete(named) => assert_eq!(named, hash("a")),
        other => panic!("{other:?}"),
    }
    for (method, path, authorized) in [
        ("GET", path.as_str(), false),
        ("HEAD", path.as_str(), false),
        ("HEAD", "/mirror", false),
        ("GET", "/upload", false),
        ("PUT", "/report", false),
        ("DELETE", "/nothing", true),
        ("POST", "/upload", true),
        ("put", "/upload", true),
        ("PUT", "/upload/", true),
    ] {
        match blossom_route(method, path) {
            BlossomRoute::Other { authorized: found } => {
                assert_eq!(found, authorized, "{method} {path}")
            }
            other => panic!("{other:?}"),
        }
    }
}

#[test]
fn downloads_ask_whether_anybody_may_read() {
    let (mut exchange, request) =
        blossom_request("GET", "/x", &HeaderMap::new(), HOST, 77).unwrap();
    assert_eq!(
        (request.service, request.action, request.public_key),
        ("shared-blossom", "read", None)
    );
    assert!(matches!(exchange.step(granted(None)), Some(ExchangeAction::Forward)));
    assert!(matches!(
        exchange.step(ExchangeEvent::Forwarded(Some(404))),
        Some(ExchangeAction::Stream)
    ));
    assert!(exchange.step(ExchangeEvent::Forwarded(Some(404))).is_none());
}

#[test]
fn writes_ask_whether_their_signer_may_write() {
    let keys = Keys::generate();
    let headers = signed(&keys, "upload", &[]);
    let (_, request) = blossom_request_at("PUT", "/upload", &headers, HOST, 77, NOW).unwrap();
    assert_eq!(
        (request.service, request.action, request.public_key),
        ("shared-blossom", "write", Some(keys.public_key().to_hex()))
    );
}

#[test]
fn writes_without_a_good_authorization_are_answered_at_once() {
    let refused = |method: &str, path: &str, headers: &HeaderMap| {
        let answer = blossom_request_at(method, path, headers, HOST, 77, NOW).unwrap_err();
        (answer.status, answer.text)
    };
    assert_eq!(
        refused("PUT", "/upload", &HeaderMap::new()),
        (401, "missing Blossom Nostr authorization")
    );
    assert_eq!(
        refused("POST", "/else", &HeaderMap::new()),
        (401, "missing Blossom Nostr authorization")
    );
    let keys = Keys::generate();
    assert_eq!(
        refused("PUT", "/media", &signed(&keys, "upload", &[])),
        (401, "Blossom authorization action does not match request")
    );
    assert_eq!(
        refused("PUT", "/mirror", &signed(&keys, "upload", &[])),
        (401, "missing Blossom authorization hash")
    );
    let (a, b) = (hash("a"), hash("b"));
    assert_eq!(
        refused("DELETE", &format!("/{a}"), &signed(&keys, "delete", &[&b])),
        (401, "Blossom authorization hash does not match request")
    );
    let shown = with(signed(&keys, "upload", &[&b]), "x-sha-256", &a);
    assert_eq!(
        refused("PUT", "/upload", &shown),
        (401, "Blossom authorization hash does not match request")
    );
    let shown = with(signed(&keys, "delete", &[&a]), "x-sha-256", &b);
    assert!(blossom_request_at("DELETE", &format!("/{a}"), &shown, HOST, 77, NOW).is_ok());
}

#[test]
fn without_a_grant_there_is_only_an_answer() {
    let mut exchange = open("GET", "/x", &HeaderMap::new());
    assert!(exchange.step(ExchangeEvent::Forwarded(Some(200))).is_none());
    assert_eq!(
        answer(exchange.step(ExchangeEvent::Granted(AuthorizationResponse::denied()))),
        (403, "Nostr public key is not approved")
    );
    assert!(exchange.step(granted(Some("acc"))).is_none());
}

#[test]
fn uploads_need_an_account_and_a_length() {
    let keys = Keys::generate();
    let bare = signed(&keys, "upload", &[]);
    assert_eq!(
        answer(open("PUT", "/upload", &bare).step(granted(None))),
        (403, "Nostr identity is not linked to an account")
    );
    assert_eq!(
        answer(open("HEAD", "/upload", &bare).step(granted(None))),
        (403, "Nostr identity is not linked to an account")
    );
    assert_eq!(
        answer(open("PUT", "/upload", &bare).step(granted(Some("acc")))),
        (411, "Content-Length is required")
    );
    assert_eq!(
        answer(open("HEAD", "/upload", &bare).step(granted(Some("acc")))),
        (411, "X-Content-Length is required")
    );
    for bad in ["-1", "ten", "", "9223372036854775808", " 1"] {
        let headers = with(bare.clone(), "content-length", bad);
        assert_eq!(
            answer(open("PUT", "/upload", &headers).step(granted(Some("acc")))),
            (411, "Content-Length is required")
        );
    }
}

#[test]
fn uploads_reserve_their_length_under_a_hash() {
    let keys = Keys::generate();
    let (a, b) = (hash("a"), hash("b"));
    let ask = |method: &str, path: &str, headers: HeaderMap| {
        reserve(open(method, path, &headers).step(granted(Some("acc"))))
    };
    let acc = "acc".to_string();

    let plain = with(signed(&keys, "upload", &[]), "content-length", "+10");
    assert_eq!(ask("PUT", "/upload", plain), (acc.clone(), 10, None));
    let named = with(signed(&keys, "upload", &[&a, &b]), "content-length", "0");
    assert_eq!(ask("PUT", "/upload", named.clone()), (acc.clone(), 0, Some(a.clone())));
    assert_eq!(
        ask("PUT", "/upload", with(named.clone(), "x-sha-256", &b)),
        (acc.clone(), 0, Some(b.clone()))
    );
    assert_eq!(
        ask("PUT", "/upload", with(named.clone(), "x-sha-256", "ABC")),
        (acc.clone(), 0, Some(a.clone()))
    );
    assert_eq!(ask("PUT", "/mirror", named.clone()), (acc.clone(), 77, Some(a.clone())));

    let ahead = with(named, "x-content-length", "5");
    assert_eq!(ask("HEAD", "/upload", ahead.clone()), (acc.clone(), 5, None));
    assert_eq!(
        ask("HEAD", "/upload", with(ahead, "x-sha-256", &b)),
        (acc, 5, Some(b))
    );
}

#[test]
fn a_preflight_gives_back_what_it_reserved_and_goes_on() {
    let headers = with(signed(&Keys::generate(), "upload", &[]), "x-content-length", "5");
    let mut exchange = open("HEAD", "/upload", &headers);
    reserve(exchange.step(granted(Some("acc"))));
    assert_eq!(cancel(exchange.step(reserved("r9"))), "r9");
    assert!(matches!(
        exchange.step(ExchangeEvent::Cancelled),
        Some(ExchangeAction::Forward)
    ));
    assert!(matches!(
        exchange.step(ExchangeEvent::Forwarded(Some(200))),
        Some(ExchangeAction::Stream)
    ));
}

#[test]
fn refused_reservations_are_answered() {
    for (error, expected) in [
        (
            ReserveError::UploadLimitReached,
            (413, "Upload exceeds the account plan's file-size limit"),
        ),
        (
            ReserveError::StorageLimitReached,
            (413, "Account Blossom storage limit reached"),
        ),
        (
            ReserveError::Unavailable,
            (503, "Storage accounting unavailable"),
        ),
    ] {
        let own = blossom_reservation_error(error);
        assert_eq!((own.status, own.text), expected);

        let keys = Keys::generate();
        let headers = with(signed(&keys, "upload", &[]), "content-length", "1");
        let headers = with(headers, "x-content-length", "1");
        for method in ["PUT", "HEAD"] {
            let mut exchange = open(method, "/upload", &headers);
            exchange.step(granted(Some("acc")));
            assert_eq!(answer(exchange.step(ExchangeEvent::Reserved(Err(error)))), expected);
            assert!(exchange.step(reserved("late")).is_none());
        }
    }
}

#[test]
fn a_good_upload_is_committed_and_passed_on() {
    let mut exchange = uploading();
    match exchange.step(uploaded(201, Some(descriptor(10)))) {
        Some(ExchangeAction::Commit(reservation, request)) => {
            assert_eq!(reservation, "r1");
            assert_eq!(request.sha256, hash("d"));
            assert_eq!(request.size_bytes, 10);
            assert_eq!(request.mime_type, "image/webp");
            assert_eq!(request.public_url, "https://cdn.example/d.webp");
            assert_eq!(request.uploaded_at, 7);
        }
        other => panic!("nothing committed: {other:?}"),
    }
    assert!(matches!(
        exchange.step(ExchangeEvent::Committed(true)),
        Some(ExchangeAction::Reply(Reply::Upstream))
    ));
    assert!(exchange.step(ExchangeEvent::Cancelled).is_none());
}

#[test]
fn a_failed_upload_gives_its_reservation_back() {
    let mut exchange = uploading();
    assert_eq!(cancel(exchange.step(ExchangeEvent::Uploaded(UploadOutcome::Failed))), "r1");
    assert_eq!(
        answer(exchange.step(ExchangeEvent::Cancelled)),
        (502, "service temporarily unavailable")
    );

    let mut exchange = uploading();
    assert_eq!(cancel(exchange.step(uploaded(409, Some(descriptor(1))))), "r1");
    assert!(matches!(
        exchange.step(ExchangeEvent::Cancelled),
        Some(ExchangeAction::Reply(Reply::Upstream))
    ));

    let bad = BlobDescriptor { mime_type: "none".to_string(), ..descriptor(1) };
    for found in [None, Some(descriptor(11)), Some(bad)] {
        let mut exchange = uploading();
        assert_eq!(cancel(exchange.step(uploaded(200, found))), "r1");
        assert_eq!(
            answer(exchange.step(ExchangeEvent::Cancelled)),
            (502, "Invalid Blossom upload response")
        );
    }

    let mut exchange = uploading();
    exchange.step(uploaded(200, Some(descriptor(10))));
    assert_eq!(cancel(exchange.step(ExchangeEvent::Committed(false))), "r1");
    assert_eq!(
        answer(exchange.step(ExchangeEvent::Cancelled)),
        (503, "Storage accounting unavailable")
    );
}

#[test]
fn an_accepted_delete_releases_the_account_share() {
    let a = hash("a");
    let headers = signed(&Keys::generate(), "delete", &[&a]);
    let deleting = |account: Option<&str>| {
        let mut exchange = open("DELETE", &format!("/{a}"), &headers);
        assert!(matches!(exchange.step(granted(account)), Some(ExchangeAction::Forward)));
        exchange
    };
    for released in [true, false] {
        let mut exchange = deleting(Some("acc"));
        match exchange.step(ExchangeEvent::Forwarded(Some(204))) {
            Some(ExchangeAction::Release(request)) => {
                assert_eq!(request.account_identity_id, "acc");
                assert_eq!(request.sha256, a);
            }
            other => panic!("nothing released: {other:?}"),
        }
        assert!(matches!(
            exchange.step(ExchangeEvent::Released(released)),
            Some(ExchangeAction::Stream)
        ));
    }
    assert!(matches!(
        deleting(Some("acc")).step(ExchangeEvent::Forwarded(Some(404))),
        Some(ExchangeAction::Stream)
    ));
    assert!(matches!(
        deleting(None).step(ExchangeEvent::Forwarded(Some(200))),
        Some(ExchangeAction::Stream)
    ));
    assert_eq!(
        answer(deleting(Some("acc")).step(ExchangeEvent::Forwarded(None))),
        (502, "service temporarily unavailable")
    );
}

#[test]
fn an_exchange_opens_with_the_authorization_that_was_shown() {
    let headers = with(HeaderMap::new(), "content-length", "3");
    let authorization = BlossomAuthorization {
        public_key: "key".to_string(),
        hashes: vec![hash("e")],
    };
    let (mut exchange, request) =
        open_exchange(BlossomRoute::Upload, &headers, Some(authorization), 77);
    assert_eq!(
        (request.service, request.action, request.public_key.as_deref()),
        ("shared-blossom", "write", Some("key"))
    );
    assert_eq!(
        reserve(exchange.step(granted(Some("acc")))),
        ("acc".to_string(), 3, Some(hash("e")))
    );
}
