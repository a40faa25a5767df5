use axum::http::{header, HeaderMap};
use base64::engine::general_purpose::{STANDARD, STANDARD_NO_PAD, URL_SAFE, URL_SAFE_NO_PAD};
use base64::Engine;
use nostr::{Event, EventBuilder, Keys, Kind, Tag, Timestamp};
use nostr_gateway::blob::{check_blob_descriptor, valid_blob_descriptor, BlobDescriptor};
use nostr_gateway::blossom::{
    blossom_authorization, blossom_authorization_at, blossom_hash_from_path,
    blossom_server_matches, check_blossom_authorization, hosts_match, valid_sha256, Demand,
    ParsedUrl, BLOSSOM_AUTH_KIND,
};
use nostr_gateway::encoding::decode_blossom_authorization;
use nostr_gateway::event::signed_event_in_bytes;
use nostr_gateway::json::Json;

const CREATED: u64 = 1_000_000;

fn shows(scheme: &str, encoded: &str) -> HeaderMap {
    let mut headers = HeaderMap::new();
    headers.insert(
        header::AUTHORIZATION,
        format!("{scheme} {encoded}").parse().unwrap(),
    );
    headers
}

fn signed(kind: u16, tags: &[&[&str]]) -> Event {
    EventBuilder::new(Kind::from(kind), "Authorize")
        .tags(tags.iter().map(|tag| Tag::parse(tag.iter().copied()).unwrap()))
        .custom_created_at(Timestamp::from(CREATED))
        .sign_with_keys(&Keys::generate())
        .unwrap()
}

fn fields_of(event: &Event) -> HeaderMap {
    shows("Nostr", &URL_SAFE_NO_PAD.encode(serde_json::to_vec(event).unwrap()))
}

fn refused(headers: &HeaderMap, now: u64) -> &'static str {
    blossom_authorization_at(headers, Some("upload"), "media.example", None, false, now).unwrap_err()
}

#[test]
fn extracts_lowercase_hashes_from_paths() {
    let hash = "a".repeat(64);
    assert_eq!(blossom_hash_from_path(&format!("/{hash}.jpg")), Some(hash));
    assert_eq!(blossom_hash_from_path("/not-a-hash"), None);
}

#[test]
fn verifies_url_safe_blossom_authorization_and_request_bindings() {
    let keys = Keys::generate();
    let hash = "b".repeat(64);
    let expiration = (nostr::Timestamp::now().as_secs() + 60).to_string();
    let event = EventBuilder::new(Kind::Custom(BLOSSOM_AUTH_KIND), "Authorize upload")
        .tags([
            Tag::parse(["t", "upload"]).unwrap(),
            Tag::parse(["expiration", expiration.as_str()]).unwrap(),
            Tag::parse(["x", hash.as_str()]).unwrap(),
            Tag::parse(["server", "https://media.drum.dev/upload"]).unwrap(),
        ])
        .sign_with_keys(&keys)
        .unwrap();
    let encoded = URL_SAFE_NO_PAD.encode(serde_json::to_vec(&event).unwrap());
    let mut headers = HeaderMap::new();
    headers.insert(
        header::AUTHORIZATION,
        format!("nostr {encoded}").parse().unwrap(),
    );

    let authorization = blossom_authorization(
        &headers,
        Some("upload"),
        "media.drum.dev",
        Some(&hash),
        true,
    )
    .unwrap();
    assert_eq!(authorization.public_key, keys.public_key().to_hex());
    assert_eq!(authorization.hashes, vec![hash]);

    assert!(
        blossom_authorization(&headers, Some("delete"), "media.drum.dev", None, false,).is_err()
    );
    assert!(
        blossom_authorization(&headers, Some("upload"), "another.example", None, false,).is_err()
    );
    assert!(
        blossom_authorization(
            &headers,
            Some("upload"),
            "media.drum.dev",
            Some(&"c".repeat(64)),
            true,
        )
        .is_err()
    );
}

#[test]
fn accepts_legacy_standard_base64_blossom_authorization() {
    let expiration = (nostr::Timestamp::now().as_secs() + 60).to_string();
    let event = EventBuilder::new(Kind::Custom(BLOSSOM_AUTH_KIND), "Authorize upload")
        .tags([
            Tag::parse(["t", "upload"]).unwrap(),
            Tag::parse(["expiration", expiration.as_str()]).unwrap(),
        ])
        .sign_with_keys(&Keys::generate())
        .unwrap();
    let encoded = STANDARD.encode(serde_json::to_vec(&event).unwrap());
    let mut headers = HeaderMap::new();
    headers.insert(
        header::AUTHORIZATION,
        format!("Nostr {encoded}").parse().unwrap(),
    );

    assert!(
        blossom_authorization(&headers, Some("upload"), "media.drum.dev", None, false,).is_ok()
    );
}

#[test]
fn validates_gallery_metadata_from_blob_descriptors() {
    let descriptor = BlobDescriptor {
        sha256: "d".repeat(64),
        size: 42,
        mime_type: "image/webp".to_string(),
        url: format!("https://cdn.drum.dev/{}.webp", "d".repeat(64)),
        uploaded: 1_700_000_000,
    };
    assert!(valid_blob_descriptor(&descriptor));

    let invalid = BlobDescriptor {
        url: "file:///tmp/blob.webp".to_string(),
        ..descriptor
    };
    assert!(!valid_blob_descriptor(&invalid));
}

#[test]
fn hashes_are_sixty_four_lower_case_digits() {
    assert!(valid_sha256(&"0123456789abcdef".repeat(4)));
    assert!(!valid_sha256(&"A".repeat(64)));
    assert!(!valid_sha256(&"a".repeat(63)));
    assert!(!valid_sha256(&"a".repeat(65)));
    assert!(!valid_sha256(&"g".repeat(64)));
    assert!(!valid_sha256(&"é".repeat(32)));
    assert!(!valid_sha256(""));
}

#[test]
fn paths_name_a_blob_between_the_slash_and_the_first_dot() {
    let hash = "f".repeat(64);
    assert_eq!(blossom_hash_from_path(&format!("/{hash}")), Some(hash.clone()));
    assert_eq!(blossom_hash_from_path(&format!("/{hash}.tar.gz")), Some(hash.clone()));
    assert_eq!(blossom_hash_from_path(&hash), None);
    assert_eq!(blossom_hash_from_path(&format!("//{hash}")), None);
    assert_eq!(blossom_hash_from_path(&format!("/{hash}/")), None);
    assert_eq!(blossom_hash_from_path(&format!("/.{hash}")), None);
    assert_eq!(blossom_hash_from_path("/"), None);
    assert_eq!(blossom_hash_from_path(""), None);
}

#[test]
fn every_form_of_base64_is_decoded() {
    for bytes in [
        &b""[..],
        b"f",
        b"fo",
        b"foo",
        b"foob",
        &[0xfb, 0xff, 0xbf, 0x3e],
        &[0, 255, 254, 253, 62, 63],
    ] {
        for engine in [&URL_SAFE_NO_PAD, &URL_SAFE, &STANDARD_NO_PAD, &STANDARD] {
            let text = engine.encode(bytes);
            assert_eq!(decode_blossom_authorization(&text).as_deref(), Some(bytes), "{text}");
        }
    }
    assert_eq!(decode_blossom_authorization("Zm9vYg==").as_deref(), Some(&b"foob"[..]));
    assert_eq!(decode_blossom_authorization("-_-_").as_deref(), Some(&[0xfb, 0xff, 0xbf][..]));
    assert_eq!(decode_blossom_authorization("+/+/").as_deref(), Some(&[0xfb, 0xff, 0xbf][..]));
}

#[test]
fn what_is_no_base64_is_not_decoded() {
    for text in [
        "Z", "Zg=", "Zg===", "Zh", "Zh==", "Zm9", "-/-/", "Zm9v\n", "Zm 9v", "====", "=", "é", "Zg==Zg==",
    ] {
        assert_eq!(decode_blossom_authorization(text), None, "{text}");
    }
    assert_eq!(decode_blossom_authorization("Zm8").as_deref(), Some(&b"fo"[..]));
}

#[test]
fn servers_match_by_host() {
    assert!(blossom_server_matches("media.drum.dev", "media.drum.dev"));
    assert!(blossom_server_matches("MEDIA.drum.dev:443/upload", "media.drum.dev"));
    assert!(blossom_server_matches("https://Media.Drum.Dev:8443/x", "media.drum.dev/y"));
    assert!(blossom_server_matches("media.drum.dev", "https://media.drum.dev"));
    assert!(blossom_server_matches("", ""));
    assert!(blossom_server_matches("/upload", ""));
    assert!(!blossom_server_matches("https://media.drum.dev", "drum.dev"));
    assert!(!blossom_server_matches("https://", "media.drum.dev"));
    assert!(!blossom_server_matches("data://", "data://"));
    assert!(!blossom_server_matches("media.drum.dev", "nonsense ://x"));
}

#[test]
fn hosts_match_whatever_the_case() {
    assert!(hosts_match(Some("a.B"), Some("A.b")));
    assert!(!hosts_match(Some("a"), Some("b")));
    assert!(!hosts_match(None, Some("b")));
    assert!(!hosts_match(Some("a"), None));
    assert!(!hosts_match(None, None));
}

#[test]
fn authorization_fields_have_two_words_and_the_scheme() {
    let missing = "missing Blossom Nostr authorization";
    assert_eq!(refused(&HeaderMap::new(), CREATED), missing);
    let mut headers = HeaderMap::new();
    headers.insert(header::AUTHORIZATION, "Nostr".parse().unwrap());
    assert_eq!(refused(&headers, CREATED), missing);
    headers.insert(header::AUTHORIZATION, "".parse().unwrap());
    assert_eq!(refused(&headers, CREATED), missing);
    headers.insert(
        header::AUTHORIZATION,
        axum::http::HeaderValue::from_bytes(b"Nostr \xff").unwrap(),
    );
    assert_eq!(refused(&headers, CREATED), missing);

    let scheme = "invalid Blossom authorization scheme";
    assert_eq!(refused(&shows("Bearer", "e30"), CREATED), scheme);
    assert_eq!(refused(&shows("Nostr", "e30 e30"), CREATED), scheme);
    assert_eq!(
        refused(&shows("nOSTR", "?"), CREATED),
        "invalid Blossom authorization encoding"
    );
}

#[test]
fn authorization_events_verify_and_are_of_their_kind() {
    assert_eq!(
        refused(&shows("Nostr", &URL_SAFE_NO_PAD.encode("{}")), CREATED),
        "invalid Blossom authorization event"
    );
    let event = signed(BLOSSOM_AUTH_KIND, &[&["t", "upload"]]);
    let mut value = serde_json::to_value(&event).unwrap();
    value["content"] = serde_json::Value::from("changed");
    assert_eq!(
        refused(&shows("Nostr", &URL_SAFE.encode(value.to_string())), CREATED),
        "invalid Blossom authorization signature"
    );
    assert_eq!(
        refused(&fields_of(&signed(1, &[])), CREATED),
        "invalid Blossom authorization kind"
    );
}

#[test]
fn authorization_events_are_dated_and_expire() {
    let expiration = (CREATED + 100).to_string();
    let headers = fields_of(&signed(
        BLOSSOM_AUTH_KIND,
        &[&["expiration", "soon"], &["expiration", &expiration], &["expiration", "1"], &["t", "upload"]],
    ));
    let at = |now: u64| {
        blossom_authorization_at(&headers, Some("upload"), "media.example", None, false, now)
            .map(|authorization| authorization.hashes)
    };
    assert_eq!(at(CREATED), Ok(vec![]));
    assert_eq!(at(CREATED - 60), Ok(vec![]));
    assert_eq!(
        at(CREATED - 61),
        Err("Blossom authorization was created too far in the future")
    );
    assert_eq!(at(CREATED + 99), Ok(vec![]));
    assert_eq!(at(CREATED + 100), Err("expired Blossom authorization"));
    assert_eq!(at(u64::MAX), Err("expired Blossom authorization"));

    assert_eq!(
        refused(&fields_of(&signed(BLOSSOM_AUTH_KIND, &[&["expiration"], &["expiration", "-1"]])), CREATED),
        "missing Blossom authorization expiration"
    );
}

#[test]
fn authorizations_are_for_an_action_a_server_and_hashes() {
    let (a, b) = ("a".repeat(64), "b".repeat(64));
    let event = signed(
        BLOSSOM_AUTH_KIND,
        &[
            &["expiration", "2000000"],
            &["t"],
            &["t", "upload"],
            &["t", "delete"],
            &["server", "other.example"],
            &["server", "https://media.example/"],
            &["x", "short"],
            &["x", &b],
            &["x", &a],
        ],
    );
    let headers = fields_of(&event);
    let ask = |action: Option<&str>, server: &str, hash: Option<&str>, required: bool| {
        blossom_authorization_at(&headers, action, server, hash, required, CREATED)
            .map(|authorization| authorization.hashes)
    };
    let hashes = vec![b.clone(), a.clone()];
    assert_eq!(ask(None, "media.example", None, false), Ok(hashes.clone()));
    assert_eq!(ask(Some("upload"), "media.example", Some(&a), true), Ok(hashes.clone()));
    assert_eq!(ask(Some("upload"), "OTHER.example", Some(&b), true), Ok(hashes));
    assert_eq!(
        ask(Some("delete"), "media.example", None, false),
        Err("Blossom authorization action does not match request")
    );
    assert_eq!(
        ask(Some("upload"), "elsewhere.example", None, false),
        Err("Blossom authorization server does not match request")
    );
    assert_eq!(
        ask(Some("upload"), "media.example", Some("short"), false),
        Err("Blossom authorization hash does not match request")
    );

    let bare = fields_of(&signed(BLOSSOM_AUTH_KIND, &[&["expiration", "2000000"], &["t", "media"]]));
    let ask = |hash: Option<&str>, required: bool| {
        blossom_authorization_at(&bare, Some("media"), "anywhere", hash, required, CREATED)
            .map(|authorization| authorization.hashes)
    };
    assert_eq!(ask(Some(&a), false), Ok(vec![]));
    assert_eq!(ask(Some(&a), true), Err("missing Blossom authorization hash"));
    assert_eq!(ask(None, true), Err("missing Blossom authorization hash"));

    let idle = fields_of(&signed(BLOSSOM_AUTH_KIND, &[&["expiration", "2000000"]]));
    assert_eq!(refused(&idle, CREATED), "missing Blossom authorization action");
}

#[test]
fn an_event_without_its_document_authorizes_nothing() {
    let event = signed(BLOSSOM_AUTH_KIND, &[&["expiration", "2000000"], &["t", "upload"]]);
    let fields = signed_event_in_bytes(&serde_json::to_vec(&event).unwrap()).unwrap();
    let demand = Demand { action: None, server: "", hash: None, hash_required: false };
    assert_eq!(
        check_blossom_authorization(&fields, None, &demand, CREATED),
        Err("invalid Blossom authorization event")
    );
    for text in ["{}", r#"{"tags":{}}"#, "[]"] {
        let document = Json::parse_text(text).unwrap();
        assert_eq!(
            check_blossom_authorization(&fields, Some(&document), &demand, CREATED),
            Err("missing Blossom authorization tags")
        );
    }
}

#[test]
fn an_authorization_can_be_an_array_no_more_than_an_event_can() {
    let event = signed(BLOSSOM_AUTH_KIND, &[&["expiration", "2000000"], &["t", "upload"]]);
    let value = serde_json::to_value(&event).unwrap();
    let parts: Vec<serde_json::Value> = ["id", "pubkey", "created_at", "kind", "tags", "content", "sig"]
        .iter()
        .map(|name| value[name].clone())
        .collect();
    let headers = shows("Nostr", &URL_SAFE_NO_PAD.encode(serde_json::to_vec(&parts).unwrap()));
    assert_eq!(refused(&headers, CREATED), "missing Blossom authorization tags");
}

fn descriptor() -> BlobDescriptor {
    BlobDescriptor {
        sha256: "0".repeat(64),
        size: 0,
        mime_type: "a/b".to_string(),
        url: "http://h/".to_string(),
        uploaded: 0,
    }
}

#[test]
fn descriptors_have_bounds() {
    assert!(valid_blob_descriptor(&descriptor()));
    let bad = [
        BlobDescriptor { sha256: "0".repeat(63), ..descriptor() },
        BlobDescriptor { size: -1, ..descriptor() },
        BlobDescriptor { uploaded: -1, ..descriptor() },
        BlobDescriptor { mime_type: " \u{2003}\t".to_string(), ..descriptor() },
        BlobDescriptor { mime_type: "text".to_string(), ..descriptor() },
        BlobDescriptor { mime_type: format!("a/{}", "b".repeat(254)), ..descriptor() },
        BlobDescriptor { mime_type: format!("a/{}", "é".repeat(127)), ..descriptor() },
        BlobDescriptor { url: format!("http://h/{}", "x".repeat(2040)), ..descriptor() },
        BlobDescriptor { url: "ftp://h/".to_string(), ..descriptor() },
        BlobDescriptor { url: "mailto:me".to_string(), ..descriptor() },
        BlobDescriptor { url: "nowhere".to_string(), ..descriptor() },
        BlobDescriptor { url: String::new(), ..descriptor() },
    ];
    for one in &bad {
        assert!(!valid_blob_descriptor(one), "{one:?}");
    }
    let good = [
        BlobDescriptor { size: i64::MAX, uploaded: i64::MAX, ..descriptor() },
        BlobDescriptor { mime_type: "/".to_string(), ..descriptor() },
        BlobDescriptor { mime_type: format!("a/{}", "b".repeat(253)), ..descriptor() },
        BlobDescriptor { url: format!("http://h/{}", "x".repeat(2039)), ..descriptor() },
        BlobDescriptor { url: "HTTPS://H".to_string(), ..descriptor() },
    ];
    for one in &good {
        assert!(valid_blob_descriptor(one), "{one:?}");
    }
}

#[test]
fn descriptors_need_an_address_to_fetch_from() {
    let url = |scheme: &str, host: Option<&str>| ParsedUrl {
        scheme: scheme.to_string(),
        host: host.map(str::to_string),
    };
    assert!(check_blob_descriptor(&descriptor(), Some(&url("http", Some("h")))));
    assert!(check_blob_descriptor(&descriptor(), Some(&url("https", Some("h")))));
    assert!(!check_blob_descriptor(&descriptor(), Some(&url("https", None))));
    assert!(!check_blob_descriptor(&descriptor(), Some(&url("file", Some("h")))));
    assert!(!check_blob_descriptor(&descriptor(), None));
}
