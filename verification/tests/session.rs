use nostr::{Event, EventBuilder, Keys, Kind, Tag, Timestamp};
use nostr_gateway::api::NotePublicationError;
use nostr_gateway::json::Json;
use nostr_gateway::session::{
    auth_required_response, challenge_from, challenge_text, client_frame, new_challenge, public_read_request, relay_frame,
    relay_ok_text, relay_unavailable_text, ClientFrame, ClientMessage, FrameStep, RelayFrame, RelaySession,
    SessionAction,
};

const URL: &str = "wss://relay.example/";

fn text_message(text: &str) -> ClientMessage {
    ClientMessage::Text(text.to_string())
}

fn binary_message(text: &str) -> ClientMessage {
    ClientMessage::Binary(text.as_bytes().to_vec())
}

fn session(public_read: bool) -> RelaySession {
    RelaySession::new("c0ffee".to_string(), URL.to_string(), public_read)
}

fn message(command: &str, event: &Event) -> String {
    format!("[\"{command}\",{}]", serde_json::to_string(event).unwrap())
}

fn note(keys: &Keys) -> Event {
    EventBuilder::new(Kind::TextNote, "hello").sign_with_keys(keys).unwrap()
}

fn reaction(keys: &Keys) -> Event {
    EventBuilder::new(Kind::Reaction, "+").sign_with_keys(keys).unwrap()
}

fn protected(keys: &Keys) -> Event {
    EventBuilder::new(Kind::TextNote, "mine")
        .tags([Tag::parse(["-"]).unwrap()])
        .sign_with_keys(keys)
        .unwrap()
}

fn authentication(keys: &Keys) -> Event {
    EventBuilder::new(Kind::Authentication, "")
        .tags([
            Tag::parse(["relay", "wss://relay.example"]).unwrap(),
            Tag::parse(["challenge", "c0ffee"]).unwrap(),
        ])
        .sign_with_keys(keys)
        .unwrap()
}

fn reply(action: Option<SessionAction>) -> String {
    match action {
        Some(SessionAction::Reply(text)) => text,
        other => panic!("no reply: {other:?}"),
    }
}

fn forwarded(action: Option<SessionAction>) -> String {
    match action {
        Some(SessionAction::Forward(ClientMessage::Text(text))) => text,
        other => panic!("nothing forwarded: {other:?}"),
    }
}

fn asked(action: Option<SessionAction>) -> (&'static str, &'static str, Option<String>) {
    match action {
        Some(SessionAction::Authorize(request)) => {
            (request.service, request.action, request.public_key)
        }
        other => panic!("nothing asked: {other:?}"),
    }
}

#[test]
fn texts_to_the_client_are_exact() {
    assert_eq!(challenge_text("c0ffee"), r#"["AUTH","c0ffee"]"#);
    assert_eq!(relay_ok_text("1d", true, ""), r#"["OK","1d",true,""]"#);
    assert_eq!(
        relay_ok_text("\"", false, "no: \n"),
        r#"["OK","\"",false,"no: \n"]"#
    );
    assert_eq!(
        auth_required_response().to_text(),
        r#"["NOTICE","auth-required: authenticate with NIP-42"]"#
    );
    assert_eq!(
        relay_unavailable_text(),
        r#"["NOTICE","relay temporarily unavailable"]"#
    );
}

#[test]
fn challenges_are_hexadecimal_and_differ() {
    let one = new_challenge();
    let two = new_challenge();
    assert_eq!(one.len(), 64);
    assert!(one.chars().all(|c| c.is_ascii_digit() || ('a'..='f').contains(&c)));
    assert_ne!(one, two);
}

#[test]
fn open_reading_is_asked_for_nobody() {
    let request = public_read_request();
    assert_eq!(
        (request.service, request.action, request.public_key),
        ("shared-relay", "read", None)
    );
}

#[test]
fn reading_passes_where_it_is_open_to_all() {
    let mut open = session(true);
    let text = r#"["REQ","x",{}]"#;
    assert_eq!(forwarded(open.on_message(text_message(text))), text);
    assert_eq!(forwarded(open.on_message(text_message("not json"))), "not json");
    assert_eq!(forwarded(open.on_message(text_message("{}"))), "{}");

    let mut closed = session(false);
    for text in [text, "not json", "[]", "[1]", r#"{"0":"EVENT"}"#] {
        assert_eq!(
            reply(closed.on_message(text_message(text))),
            r#"["NOTICE","auth-required: authenticate with NIP-42"]"#
        );
    }
}

#[test]
fn a_note_is_published_after_a_grant_and_a_count() {
    let keys = Keys::generate();
    let event = note(&keys);
    let text = message("EVENT", &event);
    let mut session = session(false);

    assert_eq!(
        asked(session.on_message(text_message(&text))),
        ("shared-relay", "write", Some(keys.public_key().to_hex()))
    );
    assert!(session.on_message(text_message(&text)).is_none());
    assert!(session.on_note(Ok(())).is_none());
    match session.on_grant(true) {
        Some(SessionAction::RecordNote(request)) => {
            assert_eq!(request.public_key, keys.public_key().to_hex());
            assert_eq!(request.event_id, event.id.to_hex());
        }
        other => panic!("nothing counted: {other:?}"),
    }
    assert!(session.on_grant(true).is_none());
    assert_eq!(forwarded(session.on_note(Ok(()))), text);
    assert!(session.on_note(Ok(())).is_none());
    assert!(session.on_grant(true).is_none());
}

#[test]
fn only_notes_are_counted() {
    let keys = Keys::generate();
    let text = message("EVENT", &reaction(&keys));
    let mut session = session(true);
    asked(session.on_message(text_message(&text)));
    assert_eq!(forwarded(session.on_grant(true)), text);
}

#[test]
fn without_a_grant_nothing_is_published() {
    let keys = Keys::generate();
    let event = reaction(&keys);
    let mut session = session(true);
    asked(session.on_message(text_message(&message("EVENT", &event))));
    assert_eq!(
        reply(session.on_grant(false)),
        format!(
            r#"["OK","{}",false,"restricted: event author is not approved"]"#,
            event.id.to_hex()
        )
    );
}

#[test]
fn notes_past_the_limit_are_refused() {
    let keys = Keys::generate();
    let event = note(&keys);
    for (error, reason) in [
        (
            NotePublicationError::LimitReached,
            "rate-limited: publishing temporarily unavailable",
        ),
        (
            NotePublicationError::Unavailable,
            "error: publishing temporarily unavailable",
        ),
    ] {
        let mut session = session(true);
        asked(session.on_message(text_message(&message("EVENT", &event))));
        session.on_grant(true);
        assert_eq!(
            reply(session.on_note(Err(error))),
            format!(r#"["OK","{}",false,"{reason}"]"#, event.id.to_hex())
        );
    }
}

#[test]
fn a_session_authenticates_with_its_challenge_and_a_grant() {
    let keys = Keys::generate();
    let event = authentication(&keys);
    let text = message("AUTH", &event);
    let mut session = session(false);

    assert_eq!(
        asked(session.on_message(text_message(&text))),
        ("shared-relay", "read", Some(keys.public_key().to_hex()))
    );
    assert_eq!(session.authenticated_pubkey(), None);
    assert_eq!(
        reply(session.on_grant(true)),
        format!(r#"["OK","{}",true,""]"#, event.id.to_hex())
    );
    assert_eq!(
        session.authenticated_pubkey(),
        Some(keys.public_key().to_hex().as_str())
    );
    assert_eq!(forwarded(session.on_message(text_message(r#"["REQ"]"#))), r#"["REQ"]"#);
}

#[test]
fn a_session_is_not_authenticated_without_a_grant() {
    let keys = Keys::generate();
    let event = authentication(&keys);
    let mut session = session(false);
    asked(session.on_message(text_message(&message("AUTH", &event))));
    assert_eq!(
        reply(session.on_grant(false)),
        format!(
            r#"["OK","{}",false,"restricted: public key is not approved"]"#,
            event.id.to_hex()
        )
    );
    assert_eq!(session.authenticated_pubkey(), None);
}

#[test]
fn bad_authentication_is_refused() {
    let keys = Keys::generate();
    let refused = r#"["OK","",false,"auth-required: invalid NIP-42 event"]"#;
    let mut session = session(true);
    for text in [
        r#"["AUTH"]"#.to_string(),
        r#"["AUTH",{}]"#.to_string(),
        message("AUTH", &note(&keys)),
    ] {
        assert_eq!(reply(session.on_message(text_message(&text))), refused);
    }
    let old = EventBuilder::new(Kind::Authentication, "")
        .tags([
            Tag::parse(["relay", "wss://relay.example"]).unwrap(),
            Tag::parse(["challenge", "c0ffee"]).unwrap(),
        ])
        .custom_created_at(Timestamp::from(1_000))
        .sign_with_keys(&keys)
        .unwrap();
    let text = message("AUTH", &old);
    assert_eq!(reply(session.on_message_at(text_message(&text), 1_601)), refused);
    asked(session.on_message_at(text_message(&text), 1_600));
}

#[test]
fn protected_events_need_authentication() {
    let keys = Keys::generate();
    let event = protected(&keys);
    let text = message("EVENT", &event);
    let mut session = session(true);
    assert_eq!(
        reply(session.on_message(text_message(&text))),
        format!(
            r#"["OK","{}",false,"auth-required: protected events require NIP-42"]"#,
            event.id.to_hex()
        )
    );
    asked(session.on_message(text_message(&message("AUTH", &authentication(&keys)))));
    reply(session.on_grant(true));
    assert_eq!(
        asked(session.on_message(text_message(&text))),
        ("shared-relay", "write", Some(keys.public_key().to_hex()))
    );
}

#[test]
fn an_authenticated_session_publishes_its_own_events_alone() {
    let (keys, other) = (Keys::generate(), Keys::generate());
    let mut session = session(true);
    asked(session.on_message(text_message(&message("AUTH", &authentication(&keys)))));
    reply(session.on_grant(true));
    let event = reaction(&other);
    assert_eq!(
        reply(session.on_message(text_message(&message("EVENT", &event)))),
        format!(
            r#"["OK","{}",false,"invalid: event signature or author"]"#,
            event.id.to_hex()
        )
    );
}

#[test]
fn what_is_no_event_is_refused_under_the_identifier_it_shows() {
    let mut session = session(true);
    for (text, id) in [
        (r#"["EVENT"]"#, ""),
        (r#"["EVENT",{"id":"x"}]"#, "x"),
        (r#"["EVENT",{"id":1}]"#, ""),
        (r#"["EVENT","x"]"#, ""),
    ] {
        assert_eq!(
            reply(session.on_message(text_message(text))),
            format!(r#"["OK","{id}",false,"invalid: event signature or author"]"#)
        );
    }
}

#[test]
fn frames_pass_or_end_a_session() {
    assert_eq!(client_frame(ClientFrame::Text), FrameStep::Decide);
    assert_eq!(client_frame(ClientFrame::Binary), FrameStep::Decide);
    assert_eq!(client_frame(ClientFrame::Ping), FrameStep::Pass);
    assert_eq!(client_frame(ClientFrame::Pong), FrameStep::Pass);
    assert_eq!(client_frame(ClientFrame::Close), FrameStep::End);
    assert_eq!(relay_frame(RelayFrame::Text), FrameStep::Pass);
    assert_eq!(relay_frame(RelayFrame::Binary), FrameStep::Pass);
    assert_eq!(relay_frame(RelayFrame::Ping), FrameStep::Pass);
    assert_eq!(relay_frame(RelayFrame::Pong), FrameStep::Pass);
    assert_eq!(relay_frame(RelayFrame::Close), FrameStep::End);
    assert_eq!(relay_frame(RelayFrame::Raw), FrameStep::Skip);
}

#[test]
fn the_last_value_of_a_key_counts() {
    let json = Json::parse_text(r#"{"a":1,"b":[true,null,-1.5],"a":"2"}"#).unwrap();
    assert_eq!(json.get("a").and_then(Json::as_text), Some("2"));
    assert_eq!(json.get("c"), None);
    assert_eq!(json.get("b").and_then(|b| b.at(0)), Some(&Json::Bool(true)));
    assert_eq!(json.get("b").and_then(|b| b.at(3)), None);
    assert_eq!(json.get("b").and_then(|b| b.text_at(1)), None);
    assert_eq!(json.to_text(), r#"{"a":"2","b":[true,null,-1.5]}"#);
    assert_eq!(Json::parse_bytes(&json.to_bytes()), Some(json));
    assert_eq!(Json::parse_text("{"), None);
    assert_eq!(Json::parse_bytes(b"\xff"), None);
}

#[test]
fn a_document_is_decided_on_by_its_command() {
    let mut open = session(true);
    let request = Json::parse_text(r#"["REQ","x"]"#).unwrap();
    assert_eq!(forwarded(open.on_document_at(Some(&request), text_message("text"), 0)), "text");
    assert_eq!(forwarded(open.on_document_at(None, text_message("text"), 0)), "text");
    let event = Json::parse_text(r#"["EVENT",{"id":"1d","tags":[["-"]]}]"#).unwrap();
    assert_eq!(
        reply(open.on_document_at(Some(&event), text_message("text"), 0)),
        r#"["OK","1d",false,"auth-required: protected events require NIP-42"]"#
    );
    let mut closed = session(false);
    assert_eq!(
        reply(closed.on_document_at(Some(&request), text_message("text"), 0)),
        r#"["NOTICE","auth-required: authenticate with NIP-42"]"#
    );
}

#[test]
fn an_unsigned_event_in_bytes_is_not_forwarded() {
    let mut event = serde_json::to_value(note(&Keys::generate())).unwrap();
    event["content"] = serde_json::Value::from("tampered");
    let id = event["id"].as_str().unwrap().to_string();
    let text = format!("[\"EVENT\",{event}]");
    for public_read in [true, false] {
        let mut session = session(public_read);
        assert_eq!(
            reply(session.on_message(binary_message(&text))),
            format!(r#"["OK","{id}",false,"invalid: event signature or author"]"#)
        );
    }
}

#[test]
fn a_message_in_bytes_is_decided_on_and_forwarded_as_it_came() {
    let keys = Keys::generate();
    let text = message("EVENT", &reaction(&keys));
    let message = || binary_message(&text);
    let mut open = session(true);
    assert_eq!(
        asked(open.on_message(message())),
        ("shared-relay", "write", Some(keys.public_key().to_hex()))
    );
    match open.on_grant(true) {
        Some(SessionAction::Forward(forwarded)) => assert_eq!(forwarded, message()),
        other => panic!("nothing forwarded: {other:?}"),
    }
    match open.on_message(binary_message("[\"REQ\"]")) {
        Some(SessionAction::Forward(forwarded)) => {
            assert_eq!(forwarded, binary_message("[\"REQ\"]"))
        }
        other => panic!("nothing forwarded: {other:?}"),
    }
    match open.on_message(ClientMessage::Binary(vec![0xff])) {
        Some(SessionAction::Forward(forwarded)) => {
            assert_eq!(forwarded, ClientMessage::Binary(vec![0xff]))
        }
        other => panic!("nothing forwarded: {other:?}"),
    }
    let mut closed = session(false);
    assert_eq!(
        reply(closed.on_message(ClientMessage::Binary(vec![0xff]))),
        r#"["NOTICE","auth-required: authenticate with NIP-42"]"#
    );
}

#[test]
fn protected_events_in_bytes_need_authentication() {
    let event = protected(&Keys::generate());
    let mut session = session(true);
    assert_eq!(
        reply(session.on_message(binary_message(&message("EVENT", &event)))),
        format!(
            r#"["OK","{}",false,"auth-required: protected events require NIP-42"]"#,
            event.id.to_hex()
        )
    );
}

#[test]
fn challenges_are_their_bytes_in_hexadecimal() {
    assert_eq!(challenge_from(&[0x00, 0x0f, 0xa5, 0xff]), "000fa5ff");
    assert_eq!(challenge_from(&[]), "");
}

#[test]
fn integers_are_read_back() {
    for text in ["-1", "-9223372036854775808", "18446744073709551615", "0"] {
        let json = Json::parse_text(text).unwrap();
        assert_eq!(json.to_text(), text);
        assert_eq!(Json::parse_bytes(&json.to_bytes()), Some(json));
    }
    assert_eq!(Json::parse_text("-7"), Some(Json::Signed(-7)));
    assert_eq!(Json::parse_text("7"), Some(Json::Unsigned(7)));
    assert_eq!(Json::Signed(7).to_text(), "7");
}
