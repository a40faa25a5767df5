//! A client's session with the relay: what each message leads to.
//!
//! A [`RelaySession`] takes one message of the client at a time. It answers with an action; where
//! the action is a question, the answer to it goes back into the session before the next message.

use vstd::prelude::*;
use crate::api::{
    self, AuthorizationRequest, NotePublicationError, RecordNotePublicationRequest,
};
use crate::event::{self, EventFields};
use crate::json::{self, Json, JsonView};
use crate::relay;
use crate::text;

verus! {

/// The kind of a short note, which counts towards its author's limit.
pub const NOTE_KIND: u16 = 1;

/// The digits of hexadecimal numbers, in lower case.
pub open spec fn hex_digit(value: int) -> char {
    if value < 10 {
        (('0' as u32 + value) as u32) as char
    } else {
        (('a' as u32 + value - 10) as u32) as char
    }
}

/// Bytes in lower-case hexadecimal, two digits each.
pub open spec fn lower_hex(bytes: Seq<u8>) -> Seq<char> {
    Seq::new(
        2 * bytes.len(),
        |i: int|
            if i % 2 == 0 {
                hex_digit(bytes[i / 2] as int / 16)
            } else {
                hex_digit(bytes[i / 2] as int % 16)
            },
    )
}

/// `rand::RngCore::fill_bytes` of `rand::thread_rng`: bytes of which nothing is known.
#[verifier::external_body]
fn random_bytes() -> (r: [u8; 32])
{
    let mut bytes = [0u8; 32];
    rand::RngCore::fill_bytes(&mut rand::thread_rng(), &mut bytes);
    bytes
}

/// `hex::encode`: two digits of lower-case hexadecimal for each byte.
#[verifier::external_body]
fn hex_text(bytes: &[u8]) -> (r: String)
    ensures
        r@ == lower_hex(bytes@),
{
    hex::encode(bytes)
}

/// The challenge that bytes stand for: the bytes in hexadecimal.
pub fn challenge_from(bytes: &[u8]) -> (r: String)
    ensures
        r@ == lower_hex(bytes@),
{
    hex_text(bytes)
}

/// A fresh challenge, from 32 random bytes.
pub fn new_challenge() -> (r: String)
    ensures
        exists|bytes: Seq<u8>| bytes.len() == 32 && r@ == #[trigger] lower_hex(bytes),
{
    let bytes = random_bytes();
    challenge_from(bytes.as_slice())
}

/// The question whether reading is open to all.
pub fn public_read_request() -> (r: AuthorizationRequest)
    ensures
        r.service@ == api::RELAY_SERVICE@,
        r.action@ == "read"@,
        r.public_key is None,
{
    AuthorizationRequest { service: api::RELAY_SERVICE, action: "read", public_key: None }
}

/// A message of the client, in the kind of frame that it came in.
#[derive(Debug, PartialEq)]
pub enum ClientMessage {
    Text(String),
    Binary(Vec<u8>),
}

/// What a message of the client holds.
pub enum MessageView {
    Text(Seq<char>),
    Binary(Seq<u8>),
}

impl View for ClientMessage {
    type V = MessageView;

    open spec fn view(&self) -> MessageView {
        match *self {
            ClientMessage::Text(text) => MessageView::Text(text@),
            ClientMessage::Binary(bytes) => MessageView::Binary(bytes@),
        }
    }
}

/// The document that a message is, whatever frame it came in; `None` where it is none.
pub open spec fn document_of(message: MessageView) -> Option<JsonView> {
    match message {
        MessageView::Text(text) => json::json_in_text(text),
        MessageView::Binary(bytes) => json::json_in_bytes(bytes),
    }
}

/// What a session waits for.
#[derive(Debug)]
enum Pending {
    /// The next message.
    Message,
    /// Whether the author of an authentication event may read.
    ReadGrant { event_id: String, public_key: String },
    /// Whether the author of an event may write.
    WriteGrant { event_id: String, public_key: String, kind: u16, message: ClientMessage },
    /// Whether a note was counted.
    NoteCount { event_id: String, message: ClientMessage },
}

/// What is to be done next in a session.
#[derive(Debug)]
pub enum SessionAction {
    /// Send a text to the client.
    Reply(String),
    /// Ask for a grant.
    Authorize(AuthorizationRequest),
    /// Count a note.
    RecordNote(RecordNotePublicationRequest),
    /// Send the client's message to the relay, as it came.
    Forward(ClientMessage),
}

/// A client's session with the relay.
#[derive(Debug)]
pub struct RelaySession {
    challenge: String,
    relay_url: String,
    public_read: bool,
    authenticated: Option<String>,
    pending: Pending,
}

/// What a session waits for, in characters.
pub enum PendingView {
    Message,
    ReadGrant { event_id: Seq<char>, public_key: Seq<char> },
    WriteGrant { event_id: Seq<char>, public_key: Seq<char>, kind: u16, message: MessageView },
    NoteCount { event_id: Seq<char>, message: MessageView },
}

/// What is to be done next in a session, in characters.
pub enum ActionView {
    Reply(Seq<char>),
    Authorize { service: Seq<char>, action: Seq<char>, key: Option<Seq<char>> },
    RecordNote { public_key: Seq<char>, event_id: Seq<char> },
    Forward(MessageView),
}

/// A client's session with the relay, in characters.
pub struct SessionView {
    pub challenge: Seq<char>,
    pub relay_url: Seq<char>,
    pub public_read: bool,
    pub authenticated: Option<Seq<char>>,
    pub pending: PendingView,
}

impl View for Pending {
    type V = PendingView;

    closed spec fn view(&self) -> PendingView {
        match *self {
            Pending::Message => PendingView::Message,
            Pending::ReadGrant { event_id, public_key } => PendingView::ReadGrant {
                event_id: event_id@,
                public_key: public_key@,
            },
            Pending::WriteGrant { event_id, public_key, kind, message } => PendingView::WriteGrant {
                event_id: event_id@,
                public_key: public_key@,
                kind,
                message: message@,
            },
            Pending::NoteCount { event_id, message } => PendingView::NoteCount {
                event_id: event_id@,
                message: message@,
            },
        }
    }
}

impl View for SessionAction {
    type V = ActionView;

    open spec fn view(&self) -> ActionView {
        match *self {
            SessionAction::Reply(text) => ActionView::Reply(text@),
            SessionAction::Authorize(request) => ActionView::Authorize {
                service: request.service@,
                action: request.action@,
                key: text::optional_string(request.public_key),
            },
            SessionAction::RecordNote(request) => ActionView::RecordNote {
                public_key: request.public_key@,
                event_id: request.event_id@,
            },
            SessionAction::Forward(message) => ActionView::Forward(message@),
        }
    }
}

impl View for RelaySession {
    type V = SessionView;

    closed spec fn view(&self) -> SessionView {
        SessionView {
            challenge: self.challenge@,
            relay_url: self.relay_url@,
            public_read: self.public_read,
            authenticated: text::optional_string(self.authenticated),
            pending: self.pending@,
        }
    }
}

/// A session that waits for its first message, with nobody authenticated.
pub open spec fn fresh(challenge: Seq<char>, relay_url: Seq<char>, public_read: bool) -> SessionView {
    SessionView {
        challenge,
        relay_url,
        public_read,
        authenticated: None,
        pending: PendingView::Message,
    }
}

/// The message that offers a challenge.
pub open spec fn challenge_json(challenge: Seq<char>) -> JsonView {
    JsonView::Array(seq![JsonView::Text("AUTH"@), JsonView::Text(challenge)])
}

/// The message that tells a client something.
pub open spec fn notice_json(notice: Seq<char>) -> JsonView {
    JsonView::Array(seq![JsonView::Text("NOTICE"@), JsonView::Text(notice)])
}

/// The message that accepts or refuses an event.
pub open spec fn ok_json(event_id: Seq<char>, accepted: bool, reason: Seq<char>) -> JsonView {
    JsonView::Array(
        seq![
            JsonView::Text("OK"@),
            JsonView::Text(event_id),
            JsonView::Bool(accepted),
            JsonView::Text(reason),
        ],
    )
}

pub open spec fn ok_reply(event_id: Seq<char>, accepted: bool, reason: Seq<char>) -> ActionView {
    ActionView::Reply(json::json_text(ok_json(event_id, accepted, reason)))
}

/// The command of a message: the text that its array begins with.
pub open spec fn command_of(message: Option<JsonView>) -> Option<Seq<char>> {
    match message {
        Some(json) => json.text_at(0),
        None => None,
    }
}

/// The argument of a message: the second item of its array.
pub open spec fn argument_of(message: Option<JsonView>) -> Option<JsonView> {
    match message {
        Some(json) => json.at(1),
        None => None,
    }
}

/// The identifier that an event's document shows, whether or not it is an event; empty where it
/// shows none.
pub open spec fn shown_id(argument: Option<JsonView>) -> Seq<char> {
    match argument {
        Some(json) => match json.get("id"@) {
            Some(id) => match id.text() {
                Some(text) => text,
                None => Seq::empty(),
            },
            None => Seq::empty(),
        },
        None => Seq::empty(),
    }
}

/// What an authentication leads to, by the identifier and the author of its event; `None` where the
/// event does not authenticate the session.
pub open spec fn authentication_outcome(
    session: SessionView,
    event: Option<(Seq<char>, Seq<char>)>,
) -> (SessionView, ActionView) {
    match event {
        None => (
            session,
            ok_reply(Seq::empty(), false, "auth-required: invalid NIP-42 event"@),
        ),
        Some((event_id, public_key)) => (
            SessionView { pending: PendingView::ReadGrant { event_id, public_key }, ..session },
            ActionView::Authorize {
                service: api::RELAY_SERVICE@,
                action: "read"@,
                key: Some(public_key),
            },
        ),
    }
}

/// What an authentication message leads to.
pub open spec fn authentication_step(
    session: SessionView,
    argument: Option<JsonView>,
    now: u64,
) -> (SessionView, ActionView) {
    match argument {
        None => authentication_outcome(session, None),
        Some(json) => match relay::relay_auth(json, session.challenge, session.relay_url, now) {
            Err(_) => authentication_outcome(session, None),
            Ok(event) => authentication_outcome(session, Some((event.id, event.public_key))),
        },
    }
}

/// What an event that is to be published leads to, by its identifier, author and kind; `None` where
/// it may not be published. `shown` is the identifier under which it is then refused.
pub open spec fn publication_outcome(
    session: SessionView,
    event: Option<(Seq<char>, Seq<char>, u16)>,
    shown: Seq<char>,
    message: MessageView,
) -> (SessionView, ActionView) {
    match event {
        None => (session, ok_reply(shown, false, "invalid: event signature or author"@)),
        Some((event_id, public_key, kind)) => (
            SessionView {
                pending: PendingView::WriteGrant { event_id, public_key, kind, message },
                ..session
            },
            ActionView::Authorize {
                service: api::RELAY_SERVICE@,
                action: "write"@,
                key: Some(public_key),
            },
        ),
    }
}

/// What a message that publishes an event leads to.
pub open spec fn publication_step(
    session: SessionView,
    argument: Option<JsonView>,
    message: MessageView,
) -> (SessionView, ActionView) {
    if argument is Some && relay::protected(argument->0) && session.authenticated is None {
        (
            session,
            ok_reply(
                shown_id(argument),
                false,
                "auth-required: protected events require NIP-42"@,
            ),
        )
    } else if argument is None || relay::relay_event(argument->0, session.authenticated) is Err {
        publication_outcome(session, None, shown_id(argument), message)
    } else {
        let event = relay::relay_event(argument->0, session.authenticated)->Ok_0;
        publication_outcome(
            session,
            Some((event.id, event.public_key, event.kind)),
            shown_id(argument),
            message,
        )
    }
}

/// What a message of the client leads to at `now`, by the document that it is; `None` where it is
/// none.
pub open spec fn document_step(
    session: SessionView,
    document: Option<JsonView>,
    message: MessageView,
    now: u64,
) -> (SessionView, ActionView) {
    let command = command_of(document);
    if command == Some("AUTH"@) {
        authentication_step(session, argument_of(document), now)
    } else if !relay::may_attempt(command, session.public_read, session.authenticated is Some) {
        (
            session,
            ActionView::Reply(
                json::json_text(notice_json("auth-required: authenticate with NIP-42"@)),
            ),
        )
    } else if command == Some("EVENT"@) {
        publication_step(session, argument_of(document), message)
    } else {
        (session, ActionView::Forward(message))
    }
}

/// What a message of the client leads to at `now`.
pub open spec fn message_step(session: SessionView, message: MessageView, now: u64) -> (
    SessionView,
    ActionView,
) {
    document_step(session, document_of(message), message, now)
}

/// A session that waits for the next message.
pub open spec fn at_rest(session: SessionView) -> SessionView {
    SessionView { pending: PendingView::Message, ..session }
}

/// What the answer to a question for a grant leads to; `None` where none was asked.
pub open spec fn grant_step(session: SessionView, granted: bool) -> Option<
    (SessionView, ActionView),
> {
    match session.pending {
        PendingView::ReadGrant { event_id, public_key } => if granted {
            Some(
                (
                    SessionView { authenticated: Some(public_key), ..at_rest(session) },
                    ok_reply(event_id, true, ""@),
                ),
            )
        } else {
            Some(
                (
                    at_rest(session),
                    ok_reply(event_id, false, "restricted: public key is not approved"@),
                ),
            )
        },
        PendingView::WriteGrant { event_id, public_key, kind, message } => if !granted {
            Some(
                (
                    at_rest(session),
                    ok_reply(event_id, false, "restricted: event author is not approved"@),
                ),
            )
        } else if kind == NOTE_KIND {
            Some(
                (
                    SessionView {
                        pending: PendingView::NoteCount { event_id, message },
                        ..session
                    },
                    ActionView::RecordNote { public_key, event_id },
                ),
            )
        } else {
            Some((at_rest(session), ActionView::Forward(message)))
        },
        _ => None,
    }
}

/// What the outcome of counting a note leads to; `None` where none was to be counted.
pub open spec fn note_step(
    session: SessionView,
    outcome: Result<(), NotePublicationError>,
) -> Option<(SessionView, ActionView)> {
    match session.pending {
        PendingView::NoteCount { event_id, message } => Some(
            (
                at_rest(session),
                match outcome {
                    Ok(()) => ActionView::Forward(message),
                    Err(NotePublicationError::LimitReached) => ok_reply(
                        event_id,
                        false,
                        "rate-limited: publishing temporarily unavailable"@,
                    ),
                    Err(NotePublicationError::Unavailable) => ok_reply(
                        event_id,
                        false,
                        "error: publishing temporarily unavailable"@,
                    ),
                },
            ),
        ),
        _ => None,
    }
}

fn text_json(text: &str) -> (r: Json)
    ensures
        r@ == JsonView::Text(text@),
{
    Json::Text(text.to_owned())
}

fn pair(first: &str, second: &str) -> (r: Json)
    ensures
        r@ == JsonView::Array(seq![JsonView::Text(first@), JsonView::Text(second@)]),
{
    let mut items: Vec<Json> = Vec::new();
    items.push(text_json(first));
    items.push(text_json(second));
    proof {
        json::lemma_items_view(items@);
        assert(json::items_view(items@) =~= seq![JsonView::Text(first@), JsonView::Text(second@)])
            by {
            assert(json::items_view(items@)[0] == items@[0]@);
            assert(json::items_view(items@)[1] == items@[1]@);
        }
    }
    Json::Array(items)
}

/// The message to a client that may not go on without authentication.
pub fn auth_required_response() -> (r: Json)
    ensures
        r@ == notice_json("auth-required: authenticate with NIP-42"@),
{
    pair("NOTICE", "auth-required: authenticate with NIP-42")
}

/// The text that offers a challenge to the client.
pub fn challenge_text(challenge: &str) -> (r: String)
    ensures
        r@ == json::json_text(challenge_json(challenge@)),
{
    pair("AUTH", challenge).to_text()
}

/// The text to a client where the relay is not reached.
pub fn relay_unavailable_text() -> (r: String)
    ensures
        r@ == json::json_text(notice_json("relay temporarily unavailable"@)),
{
    pair("NOTICE", "relay temporarily unavailable").to_text()
}

/// The text that accepts or refuses an event.
pub fn relay_ok_text(event_id: &str, accepted: bool, message: &str) -> (r: String)
    ensures
        r@ == json::json_text(ok_json(event_id@, accepted, message@)),
{
    let mut items: Vec<Json> = Vec::new();
    items.push(text_json("OK"));
    items.push(text_json(event_id));
    items.push(Json::Bool(accepted));
    items.push(text_json(message));
    proof {
        json::lemma_items_view(items@);
        let expected = ok_json(event_id@, accepted, message@)->Array_0;
        assert(json::items_view(items@)[0] == items@[0]@);
        assert(json::items_view(items@)[1] == items@[1]@);
        assert(json::items_view(items@)[2] == items@[2]@);
        assert(json::items_view(items@)[3] == items@[3]@);
        assert(json::items_view(items@) =~= expected);
    }
    Json::Array(items).to_text()
}

fn id_shown(argument: Option<&Json>) -> (r: &str)
    ensures
        r@ == shown_id(
            match argument {
                Some(json) => Some(json@),
                None => None,
            },
        ),
{
    proof {
        reveal_strlit("");
        assert(""@ =~= Seq::<char>::empty());
    }
    match argument {
        Some(json) => match json.get("id") {
            Some(id) => match id.as_text() {
                Some(text) => text,
                None => "",
            },
            None => "",
        },
        None => "",
    }
}

impl RelaySession {
    /// A session that offered a challenge and waits for its first message.
    pub fn new(challenge: String, relay_url: String, public_read: bool) -> (r: Self)
        ensures
            r@ == fresh(challenge@, relay_url@, public_read),
    {
        RelaySession {
            challenge,
            relay_url,
            public_read,
            authenticated: None,
            pending: Pending::Message,
        }
    }

    /// The key that is authenticated in the session, where one is.
    pub fn authenticated_pubkey(&self) -> (r: Option<&str>)
        ensures
            text::optional(r) == self@.authenticated,
    {
        text::as_optional(&self.authenticated)
    }

    /// Takes the identifier and the author of an event that authenticates the session; `None` where
    /// the event does not. The session then waits for its author's grant, and else goes on as it is.
    pub(crate) fn on_authentication_outcome(&mut self, event: Option<(String, String)>) -> (r: SessionAction)
        ensures
            (final(self)@, r@) == authentication_outcome(
                old(self)@,
                match event {
                    Some(names) => Some((names.0@, names.1@)),
                    None => None,
                },
            ),
    {
        proof {
            reveal_strlit("");
            assert(""@ =~= Seq::<char>::empty());
        }
        match event {
            Some((event_id, public_key)) => {
                let request = AuthorizationRequest {
                    service: api::RELAY_SERVICE,
                    action: "read",
                    public_key: Some(public_key.clone()),
                };
                self.pending = Pending::ReadGrant { event_id, public_key };
                SessionAction::Authorize(request)
            },
            None => SessionAction::Reply(
                relay_ok_text("", false, "auth-required: invalid NIP-42 event"),
            ),
        }
    }

    fn on_authentication(&mut self, argument: Option<&Json>, now: u64) -> (r: SessionAction)
        ensures
            (final(self)@, r@) == authentication_step(
                old(self)@,
                match argument {
                    Some(json) => Some(json@),
                    None => None,
                },
                now,
            ),
    {
        let event = match argument {
            Some(value) => match relay::verify_relay_auth_at(
                value,
                self.challenge.as_str(),
                self.relay_url.as_str(),
                now,
            ) {
                Ok(names) => Some(names),
                Err(_) => None,
            },
            None => None,
        };
        self.on_authentication_outcome(event)
    }

    /// Takes an event that may be published, with the message that publishes it; `None` where it may
    /// not. The session then waits for its author's grant, and else goes on as it is.
    pub(crate) fn on_publication_outcome(
        &mut self,
        event: Option<EventFields>,
        shown: &str,
        message: ClientMessage,
    ) -> (r: SessionAction)
        ensures
            (final(self)@, r@) == publication_outcome(
                old(self)@,
                match event {
                    Some(fields) => Some((fields.id@, fields.public_key@, fields.kind)),
                    None => None,
                },
                shown@,
                message@,
            ),
    {
        match event {
            Some(event) => {
                let request = AuthorizationRequest {
                    service: api::RELAY_SERVICE,
                    action: "write",
                    public_key: Some(event.public_key.clone()),
                };
                self.pending =
                Pending::WriteGrant {
                    event_id: event.id,
                    public_key: event.public_key,
                    kind: event.kind,
                    message,
                };
                SessionAction::Authorize(request)
            },
            None => SessionAction::Reply(
                relay_ok_text(shown, false, "invalid: event signature or author"),
            ),
        }
    }

    fn on_publication(&mut self, argument: Option<&Json>, message: ClientMessage) -> (r:
        SessionAction)
        ensures
            (final(self)@, r@) == publication_step(
                old(self)@,
                match argument {
                    Some(json) => Some(json@),
                    None => None,
                },
                message@,
            ),
    {
        let shown = id_shown(argument);
        let event = match argument {
            Some(value) => {
                if relay::is_protected_event(value) && self.authenticated.is_none() {
                    return SessionAction::Reply(
                        relay_ok_text(
                            shown,
                            false,
                            "auth-required: protected events require NIP-42",
                        ),
                    );
                }
                match relay::verify_relay_event(value, text::as_optional(&self.authenticated)) {
                    Ok(event) => Some(event),
                    Err(_) => None,
                }
            },
            None => None,
        };
        self.on_publication_outcome(event, shown, message)
    }

    /// Takes a message of the client at `now`, with the document that it is, where it is one;
    /// `None`, and nothing changes, where the session waits for an answer.
    pub fn on_document_at(
        &mut self,
        document: Option<&Json>,
        message: ClientMessage,
        now: u64,
    ) -> (r: Option<SessionAction>)
        ensures
            match r {
                Some(action) => old(self)@.pending is Message && (final(self)@, action@)
                    == document_step(
                    old(self)@,
                    match document {
                        Some(json) => Some(json@),
                        None => None,
                    },
                    message@,
                    now,
                ),
                None => old(self)@.pending !is Message && final(self)@ == old(self)@,
            },
    {
        match self.pending {
            Pending::Message => {},
            _ => {
                return None;
            },
        }
        let (command, argument): (Option<&str>, Option<&Json>) = match document {
            Some(json) => (json.text_at(0), json.at(1)),
            None => (None, None),
        };
        if text::is_text(command, "AUTH") {
            return Some(self.on_authentication(argument, now));
        }
        if !relay::can_attempt_relay_command(
            command,
            self.public_read,
            self.authenticated.is_some(),
        ) {
            return Some(SessionAction::Reply(auth_required_response().to_text()));
        }
        if text::is_text(command, "EVENT") {
            return Some(self.on_publication(argument, message));
        }
        Some(SessionAction::Forward(message))
    }

    /// Takes a message of the client at `now`; `None`, and nothing changes, where the session waits
    /// for an answer.
    pub fn on_message_at(&mut self, message: ClientMessage, now: u64) -> (r: Option<SessionAction>)
        ensures
            match r {
                Some(action) => old(self)@.pending is Message && (final(self)@, action@)
                    == message_step(old(self)@, message@, now),
                None => old(self)@.pending !is Message && final(self)@ == old(self)@,
            },
    {
        let parsed = match &message {
            ClientMessage::Text(text) => Json::parse_text(text.as_str()),
            ClientMessage::Binary(bytes) => Json::parse_bytes(bytes.as_slice()),
        };
        let document = match &parsed {
            Some(json) => Some(json),
            None => None,
        };
        self.on_document_at(document, message, now)
    }

    /// Takes a message of the client now, by the clock of the machine.
    pub fn on_message(&mut self, message: ClientMessage) -> (r: Option<SessionAction>)
        ensures
            match r {
                Some(action) => old(self)@.pending is Message && exists|now: u64|
                    (final(self)@, action@) == #[trigger] message_step(old(self)@, message@, now),
                None => old(self)@.pending !is Message && final(self)@ == old(self)@,
            },
    {
        let now = event::now();
        self.on_message_at(message, now)
    }

    /// Takes the answer to a question for a grant; `None`, and nothing changes, where none was
    /// asked.
    pub fn on_grant(&mut self, authorized: bool) -> (r: Option<SessionAction>)
        ensures
            match r {
                Some(action) => grant_step(old(self)@, authorized) == Some(
                    (final(self)@, action@),
                ),
                None => grant_step(old(self)@, authorized) is None && final(self)@ == old(self)@,
            },
    {
        let mut pending = Pending::Message;
        std::mem::swap(&mut pending, &mut self.pending);
        match pending {
            Pending::ReadGrant { event_id, public_key } => if authorized {
                self.authenticated = Some(public_key);
                Some(SessionAction::Reply(relay_ok_text(event_id.as_str(), true, "")))
            } else {
                Some(
                    SessionAction::Reply(
                        relay_ok_text(
                            event_id.as_str(),
                            false,
                            "restricted: public key is not approved",
                        ),
                    ),
                )
            },
            Pending::WriteGrant { event_id, public_key, kind, message } => if !authorized {
                Some(
                    SessionAction::Reply(
                        relay_ok_text(
                            event_id.as_str(),
                            false,
                            "restricted: event author is not approved",
                        ),
                    ),
                )
            } else if kind == NOTE_KIND {
                let request = RecordNotePublicationRequest {
                    public_key,
                    event_id: event_id.clone(),
                };
                self.pending = Pending::NoteCount { event_id, message };
                Some(SessionAction::RecordNote(request))
            } else {
                Some(SessionAction::Forward(message))
            },
            other => {
                self.pending = other;
                None
            },
        }
    }

    /// Takes the outcome of counting a note; `None`, and nothing changes, where none was to be
    /// counted.
    pub fn on_note(&mut self, outcome: Result<(), NotePublicationError>) -> (r: Option<
        SessionAction,
    >)
        ensures
            match r {
                Some(action) => note_step(old(self)@, outcome) == Some((final(self)@, action@)),
                None => note_step(old(self)@, outcome) is None && final(self)@ == old(self)@,
            },
    {
        let mut pending = Pending::Message;
        std::mem::swap(&mut pending, &mut self.pending);
        match pending {
            Pending::NoteCount { event_id, message } => match outcome {
                Ok(()) => Some(SessionAction::Forward(message)),
                Err(NotePublicationError::LimitReached) => Some(
                    SessionAction::Reply(
                        relay_ok_text(
                            event_id.as_str(),
                            false,
                            "rate-limited: publishing temporarily unavailable",
                        ),
                    ),
                ),
                Err(NotePublicationError::Unavailable) => Some(
                    SessionAction::Reply(
                        relay_ok_text(
                            event_id.as_str(),
                            false,
                            "error: publishing temporarily unavailable",
                        ),
                    ),
                ),
            },
            other => {
                self.pending = other;
                None
            },
        }
    }
}

/// The kinds of frame that a client sends.
#[derive(Debug, Clone, Copy, PartialEq, Eq, Structural)]
pub enum ClientFrame {
    Text,
    Binary,
    Ping,
    Pong,
    Close,
}

/// The kinds of frame that the relay sends.
#[derive(Debug, Clone, Copy, PartialEq, Eq, Structural)]
pub enum RelayFrame {
    Text,
    Binary,
    Ping,
    Pong,
    Close,
    Raw,
}

/// What becomes of a frame.
#[derive(Debug, Clone, Copy, PartialEq, Eq, Structural)]
pub enum FrameStep {
    /// It is a message that the session decides on.
    Decide,
    /// It goes to the other side as it is.
    Pass,
    /// It is dropped.
    Skip,
    /// It ends the session.
    End,
}

/// What becomes of a frame of the client: messages are decided on, in a text or in bytes, and only
/// heartbeats pass unread.
pub open spec fn client_step(frame: ClientFrame) -> FrameStep {
    match frame {
        ClientFrame::Text | ClientFrame::Binary => FrameStep::Decide,
        ClientFrame::Ping | ClientFrame::Pong => FrameStep::Pass,
        ClientFrame::Close => FrameStep::End,
    }
}

/// What becomes of a frame of the client: messages are decided on, in a text or in bytes, and only
/// heartbeats pass unread.
pub fn client_frame(frame: ClientFrame) -> (r: FrameStep)
    ensures
        r == client_step(frame),
        r == FrameStep::Pass <==> frame == ClientFrame::Ping || frame == ClientFrame::Pong,
        r == FrameStep::End <==> frame == ClientFrame::Close,
        r == FrameStep::Decide <==> frame == ClientFrame::Text || frame == ClientFrame::Binary,
{
    match frame {
        ClientFrame::Text => FrameStep::Decide,
        ClientFrame::Binary => FrameStep::Decide,
        ClientFrame::Ping => FrameStep::Pass,
        ClientFrame::Pong => FrameStep::Pass,
        ClientFrame::Close => FrameStep::End,
    }
}

/// What becomes of a frame of the relay.
pub open spec fn relay_step(frame: RelayFrame) -> FrameStep {
    match frame {
        RelayFrame::Raw => FrameStep::Skip,
        RelayFrame::Close => FrameStep::End,
        _ => FrameStep::Pass,
    }
}

/// What becomes of a frame of the relay: all but raw frames pass, up to the one that closes.
pub fn relay_frame(frame: RelayFrame) -> (r: FrameStep)
    ensures
        r == relay_step(frame),
        r == FrameStep::Skip <==> frame == RelayFrame::Raw,
        r == FrameStep::End <==> frame == RelayFrame::Close,
        r != FrameStep::Decide,
{
    match frame {
        RelayFrame::Raw => FrameStep::Skip,
        RelayFrame::Close => FrameStep::End,
        _ => FrameStep::Pass,
    }
}

} // verus!
