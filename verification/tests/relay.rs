use nostr::{Event, EventBuilder, Keys, Kind, Tag, Timestamp};
use nostr_gateway::event::EventError;
use nostr_gateway::json::Json;
use nostr_gateway::relay::{
    author_may_publish, can_attempt_relay_command, check_relay_auth, has_json_tag, has_relay_tag,
    is_protected_event, relay_urls_match, verify_relay_auth, verify_relay_auth_at,
    verify_relay_event, RelayAuthError, RelayEventError,
};

fn document(event: &Event) -> Json {
    Json::parse_text(&serde_json::to_string(event).unwrap()).unwrap()
}

fn authentication(keys: &Keys, relay: &str, challenge: &str) -> Event {
    EventBuilder::new(Kind::Authentication, "")
        .tags([
            Tag::parse(["relay", relay]).unwrap(),
            Tag::parse(["challenge", challenge]).unwrap(),
        ])
        .sign_with_keys(keys)
        .unwrap()
}

#[test]
fn verifies_bound_nip42_event() {
    let challenge = "challenge";
    let relay = "wss://relay.drum.dev";
    let event = EventBuilder::new(Kind::Authentication, "")
        .tags([
            Tag::parse(["relay", relay]).unwrap(),
            Tag::parse(["challenge", challenge]).unwrap(),
        ])
        .sign_with_keys(&Keys::generate())
        .unwrap();
    let value = document(&event);

    assert!(verify_relay_auth(&value, challenge, "wss://relay.drum.dev/").is_ok());
    assert!(verify_relay_auth(&value, "another", "wss://relay.drum.dev/").is_err());
    assert!(verify_relay_auth(&value, challenge, "wss://another-relay.example/").is_err());
}

#[test]
fn signed_events_can_attempt_publish_without_nip42() {
    assert!(can_attempt_relay_command(Some("REQ"), true, false));
    assert!(can_attempt_relay_command(Some("CLOSE"), true, false));
    assert!(can_attempt_relay_command(Some("EVENT"), true, false));
    assert!(can_attempt_relay_command(Some("EVENT"), true, true));
    assert!(!can_attempt_relay_command(Some("REQ"), false, false));
}

#[test]
fn verifies_signed_event_without_nip42() {
    let event = EventBuilder::new(Kind::TextNote, "hello")
        .sign_with_keys(&Keys::generate())
        .unwrap();
    let value = document(&event);

    assert!(verify_relay_event(&value, None).is_ok());
}

#[test]
fn rejects_tampered_event_without_nip42() {
    let event = EventBuilder::new(Kind::TextNote, "hello")
        .sign_with_keys(&Keys::generate())
        .unwrap();
    let mut value = serde_json::to_value(event).unwrap();
    value["content"] = serde_json::Value::from("tampered");
    let value = Json::parse_text(&value.to_string()).unwrap();

    assert!(verify_relay_event(&value, None).is_err());
    assert_eq!(
        verify_relay_event(&value, None).unwrap_err(),
        RelayEventError::Event(EventError::Unverified)
    );
}

#[test]
fn identifies_nip70_protected_events() {
    assert!(is_protected_event(&Json::parse_text(r#"{ "tags": [["-"]] }"#).unwrap()));
    assert!(!is_protected_event(&Json::parse_text(r#"{ "tags": [] }"#).unwrap()));
    assert!(!is_protected_event(
        &Json::parse_text(r#"{ "tags": [["-", "unexpected"]] }"#).unwrap()
    ));
}

#[test]
fn authenticated_event_author_must_match_session() {
    let author = Keys::generate();
    let another_author = Keys::generate();
    let event = EventBuilder::new(Kind::TextNote, "hello")
        .sign_with_keys(&author)
        .unwrap();
    let value = document(&event);

    assert!(verify_relay_event(&value, Some(&author.public_key().to_hex())).is_ok());
    assert!(verify_relay_event(&value, Some(&another_author.public_key().to_hex())).is_err());
    assert_eq!(
        verify_relay_event(&value, Some(&another_author.public_key().to_hex())).unwrap_err(),
        RelayEventError::OtherAuthor
    );
}

#[test]
fn protection_needs_a_list_of_tags_with_a_lone_dash() {
    for text in [
        r#"{}"#,
        r#"{"tags":"-"}"#,
        r#"{"tags":["-"]}"#,
        r#"{"tags":[[]]}"#,
        r#"{"tags":[["x"],[1]]}"#,
        r#"["-"]"#,
        r#""-""#,
    ] {
        assert!(!is_protected_event(&Json::parse_text(text).unwrap()), "{text}");
    }
    assert!(is_protected_event(
        &Json::parse_text(r#"{"tags":[["e","-"],["-"]]}"#).unwrap()
    ));
}

#[test]
fn authentication_names_the_event_and_its_author() {
    let keys = Keys::generate();
    let event = authentication(&keys, "wss://relay.example//", "c");
    let (id, author) =
        verify_relay_auth(&document(&event), "c", "wss://relay.example").unwrap();

    assert_eq!(id, event.id.to_hex());
    assert_eq!(author, keys.public_key().to_hex());
}

#[test]
fn authentication_is_fresh_for_ten_minutes_and_at_most_a_minute_ahead() {
    let keys = Keys::generate();
    let event = EventBuilder::new(Kind::Authentication, "")
        .tags([
            Tag::parse(["relay", "wss://r"]).unwrap(),
            Tag::parse(["challenge", "c"]).unwrap(),
        ])
        .custom_created_at(Timestamp::from(1_000_000))
        .sign_with_keys(&keys)
        .unwrap();
    let value = document(&event);
    let at = |now: u64| verify_relay_auth_at(&value, "c", "wss://r", now).map(|_| ());

    assert_eq!(at(1_000_000), Ok(()));
    assert_eq!(at(1_000_600), Ok(()));
    assert_eq!(at(1_000_601), Err(RelayAuthError::Stale));
    assert_eq!(at(999_940), Ok(()));
    assert_eq!(at(999_939), Err(RelayAuthError::Stale));
    assert_eq!(at(0), Err(RelayAuthError::Stale));
    assert_eq!(at(u64::MAX), Err(RelayAuthError::Stale));
}

#[test]
fn authentication_errors_come_in_order() {
    let keys = Keys::generate();
    let now = Timestamp::now().as_secs();
    let at = |value: &Json| verify_relay_auth_at(value, "c", "wss://r", now).map(|_| ());

    let broken = Json::parse_text(r#"{"id":"nothing"}"#).unwrap();
    assert_eq!(at(&broken), Err(RelayAuthError::Event(EventError::Malformed)));

    let good = authentication(&keys, "wss://r", "c");
    let mut value = serde_json::to_value(&good).unwrap();
    value["content"] = serde_json::Value::from("changed");
    let tampered = Json::parse_text(&value.to_string()).unwrap();
    assert_eq!(at(&tampered), Err(RelayAuthError::Event(EventError::Unverified)));

    let note = EventBuilder::new(Kind::TextNote, "").sign_with_keys(&keys).unwrap();
    assert_eq!(at(&document(&note)), Err(RelayAuthError::KindOrContent));
    let chatty = EventBuilder::new(Kind::Authentication, "hello")
        .sign_with_keys(&keys)
        .unwrap();
    assert_eq!(at(&document(&chatty)), Err(RelayAuthError::KindOrContent));

    let unbound = authentication(&keys, "wss://r", "d");
    assert_eq!(at(&document(&unbound)), Err(RelayAuthError::Unbound));
    let elsewhere = authentication(&keys, "wss://s", "c");
    assert_eq!(at(&document(&elsewhere)), Err(RelayAuthError::Unbound));

    assert_eq!(at(&document(&good)), Ok(()));
}

#[test]
fn authentication_without_a_list_of_tags_is_refused() {
    let keys = Keys::generate();
    let event = authentication(&keys, "wss://r", "c");
    let fields = nostr_gateway::event::signed_event(&document(&event)).unwrap();
    let now = Timestamp::now().as_secs();
    for text in ["{}", r#"{"tags":"none"}"#, "[]"] {
        let shown = Json::parse_text(text).unwrap();
        assert_eq!(
            check_relay_auth(&fields, &shown, "c", "wss://r", now),
            Err(RelayAuthError::MissingTags)
        );
    }
}

#[test]
fn an_author_publishes_in_its_own_session() {
    let keys = Keys::generate();
    let event = EventBuilder::new(Kind::TextNote, "hello").sign_with_keys(&keys).unwrap();
    let fields = verify_relay_event(&document(&event), None).unwrap();

    assert_eq!(fields.id, event.id.to_hex());
    assert_eq!(fields.public_key, keys.public_key().to_hex());
    assert_eq!(fields.created_at, event.created_at.as_secs());
    assert_eq!(fields.kind, 1);
    assert_eq!(fields.content, "hello");
    assert!(author_may_publish(&fields, None));
    assert!(author_may_publish(&fields, Some(&keys.public_key().to_hex())));
    assert!(!author_may_publish(&fields, Some("")));
}

#[test]
fn what_is_no_event_is_not_published() {
    for text in ["null", "[]", "{}", r#"{"id":"00"}"#] {
        assert_eq!(
            verify_relay_event(&Json::parse_text(text).unwrap(), None).unwrap_err(),
            RelayEventError::Event(EventError::Malformed)
        );
    }
}

#[test]
fn relay_addresses_match_up_to_slashes_at_the_end() {
    assert!(relay_urls_match("wss://r", "wss://r"));
    assert!(relay_urls_match("wss://r///", "wss://r/"));
    assert!(relay_urls_match("", "///"));
    assert!(!relay_urls_match("wss://r/a", "wss://r"));
    assert!(!relay_urls_match("wss://R", "wss://r"));
}

#[test]
fn tags_are_found_by_name_and_value() {
    let tags = Json::parse_text(r#"[["a","1","more"],["b"],["c",3],"d",["relay","wss://r/"]]"#)
        .unwrap();
    let tags = tags.as_array().unwrap();
    assert!(has_json_tag(tags, "a", "1"));
    assert!(!has_json_tag(tags, "a", "more"));
    assert!(!has_json_tag(tags, "b", ""));
    assert!(!has_json_tag(tags, "c", "3"));
    assert!(!has_json_tag(tags, "d", ""));
    assert!(has_relay_tag(tags, "wss://r"));
    assert!(!has_relay_tag(tags, "wss://s"));
}

#[test]
fn other_commands_need_open_reading_or_authentication() {
    assert!(can_attempt_relay_command(None, false, true));
    assert!(can_attempt_relay_command(None, true, false));
    assert!(!can_attempt_relay_command(None, false, false));
    assert!(can_attempt_relay_command(Some("EVENT"), false, false));
    assert!(!can_attempt_relay_command(Some("event"), false, false));
}
