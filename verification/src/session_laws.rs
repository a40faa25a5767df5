//! What holds of a whole session with the relay, whatever its client sends.

use vstd::prelude::*;
use crate::api::NotePublicationError;
use crate::event;
use crate::json::JsonView;
use crate::relay;
use crate::relay_laws;
use crate::session::{
    self, ActionView, ClientFrame, FrameStep, MessageView, PendingView, RelayFrame,
    SessionView,
};

verus! {

/// What comes into a session.
pub enum SessionInput {
    Message { message: MessageView, now: u64 },
    Grant(bool),
    Note(Result<(), NotePublicationError>),
}

/// What an input leads to; `None` where the session does not wait for it.
pub open spec fn session_step(session: SessionView, input: SessionInput) -> Option<
    (SessionView, ActionView),
> {
    match input {
        SessionInput::Message { message, now } => if session.pending is Message {
            Some(session::message_step(session, message, now))
        } else {
            None
        },
        SessionInput::Grant(granted) => session::grant_step(session, granted),
        SessionInput::Note(outcome) => session::note_step(session, outcome),
    }
}

/// The session after an input.
pub open spec fn after(session: SessionView, input: SessionInput) -> SessionView {
    let next = session_step(session, input)->0;
    next.0
}

/// The action that an input leads to.
pub open spec fn action(session: SessionView, input: SessionInput) -> ActionView {
    let next = session_step(session, input)->0;
    next.1
}

/// The event that a message publishes in a session; `None` where it publishes none, or one that the
/// session refuses.
pub open spec fn publishes(session: SessionView, message: MessageView) -> Option<event::EventView> {
    let parsed = session::document_of(message);
    let argument = session::argument_of(parsed);
    if session::command_of(parsed) == Some("EVENT"@) && argument is Some && (relay::protected(argument->0)
        ==> session.authenticated is Some) && relay::relay_event(
        argument->0,
        session.authenticated,
    ) is Ok {
        Some(relay::relay_event(argument->0, session.authenticated)->Ok_0)
    } else {
        None
    }
}

/// Whether a session that waits for the answer on an event holds a message that publishes it.
pub open spec fn sound(session: SessionView) -> bool {
    match session.pending {
        PendingView::WriteGrant { event_id, public_key, kind, message } => {
            let event = publishes(session, message);
            &&& event is Some
            &&& event->0.id == event_id
            &&& event->0.public_key == public_key
            &&& event->0.kind == kind
        },
        PendingView::NoteCount { event_id, message } => {
            let event = publishes(session, message);
            &&& event is Some
            &&& event->0.id == event_id
            &&& event->0.kind == 1
        },
        _ => true,
    }
}

proof fn lemma_commands_differ()
    ensures
        "AUTH"@ != "EVENT"@,
{
    reveal_strlit("AUTH");
    reveal_strlit("EVENT");
    assert("AUTH"@.len() == 4);
    assert("EVENT"@.len() == 5);
}

/// A new session is sound.
pub proof fn law_new_sessions_are_sound(
    challenge: Seq<char>,
    relay_url: Seq<char>,
    public_read: bool,
)
    ensures
        sound(session::fresh(challenge, relay_url, public_read)),
{
}

/// Every input keeps a session sound. The challenge, the address of the relay and whether reading is
/// open to all never change.
pub proof fn law_sessions_are_sound(session: SessionView, input: SessionInput)
    requires
        sound(session),
        session_step(session, input) is Some,
    ensures
        sound(after(session, input)),
        after(session, input).challenge == session.challenge,
        after(session, input).relay_url == session.relay_url,
        after(session, input).public_read == session.public_read,
{
    lemma_commands_differ();
}

/// Every message of the client is decided on, whether it comes in a text or in bytes: of the frames
/// that pass to the relay unread, none but a heartbeat is left.
pub proof fn law_only_heartbeats_pass_unread(frame: ClientFrame)
    ensures
        session::client_step(frame) == FrameStep::Pass <==> frame == ClientFrame::Ping || frame
            == ClientFrame::Pong,
        frame == ClientFrame::Text || frame == ClientFrame::Binary ==> session::client_step(frame)
            == FrameStep::Decide,
        frame == ClientFrame::Close ==> session::client_step(frame) == FrameStep::End,
{
}

/// Every text, every bytes and every heartbeat of the relay reaches the client; only what closes the
/// connection ends the session.
pub proof fn law_frames_of_the_relay_pass(frame: RelayFrame)
    ensures
        session::relay_step(frame) == FrameStep::Pass <==> frame == RelayFrame::Text || frame
            == RelayFrame::Binary || frame == RelayFrame::Ping || frame == RelayFrame::Pong,
        session::relay_step(frame) == FrameStep::End <==> frame == RelayFrame::Close,
        session::relay_step(frame) == FrameStep::Skip <==> frame == RelayFrame::Raw,
{
}

/// No message reaches the relay unchecked, in a text or in bytes. A message that is forwarded is no
/// authentication. Where it publishes an event, the event verifies, is its author's in an
/// authenticated session, is protected only in an authenticated session, and the message was held
/// back until its author's grant, and, for a note, until the note was counted. Any other message is
/// forwarded only where reading is open to all or the session is authenticated.
pub proof fn law_forwarded_messages_are_checked(session: SessionView, input: SessionInput)
    requires
        sound(session),
        session_step(session, input) is Some,
        action(session, input) is Forward,
    ensures
        ({
            let message = action(session, input)->Forward_0;
            let command = session::command_of(session::document_of(message));
            let event = publishes(session, message);
            &&& command != Some("AUTH"@)
            &&& command == Some("EVENT"@) ==> {
                &&& event is Some
                &&& event::event_verified(event->0)
                &&& relay::protected(session::argument_of(session::document_of(message))->0)
                    ==> session.authenticated is Some
                &&& session.authenticated is Some ==> session.authenticated
                    == Some(event->0.public_key)
                &&& if event->0.kind == 1 {
                    input is Note && input->Note_0 is Ok
                } else {
                    input == SessionInput::Grant(true)
                }
            }
            &&& command != Some("EVENT"@) ==> {
                &&& session.public_read || session.authenticated is Some
                &&& input is Message
                &&& input->message == message
            }
        }),
{
    lemma_commands_differ();
}

/// An event with a tag that is a dash and nothing else, at whatever place among the tags that its
/// author signed, reaches the relay only in an authenticated session, and there as an event of the
/// authenticated key.
pub proof fn law_protected_events_need_authentication(
    session: SessionView,
    input: SessionInput,
    document: JsonView,
    event: event::EventView,
    i: int,
)
    requires
        sound(session),
        session_step(session, input) is Some,
        action(session, input) is Forward,
        session::document_of(action(session, input)->Forward_0) == Some(
            JsonView::Array(seq![JsonView::Text("EVENT"@), document]),
        ),
        event::event_in_json(document) == Some(event),
        document is Object,
        document.get("tags"@) == Some(event::tags_json(event.tags)),
        0 <= i < event.tags.len(),
        event.tags[i] == seq!["-"@],
    ensures
        session.authenticated == Some(event.public_key),
{
    let message = action(session, input)->Forward_0;
    let whole = session::document_of(message);
    assert(session::command_of(whole) == Some("EVENT"@));
    assert(session::argument_of(whole) == Some(document));
    lemma_commands_differ();
    law_forwarded_messages_are_checked(session, input);
    relay_laws::law_protected_by_signed_tags(document, event);
}

/// An event with a tag that is a dash and nothing else, at whatever place among the tags that its
/// author signed, is refused in a session that is not authenticated: under the identifier that it
/// shows, and with the session as it was.
pub proof fn law_protected_events_are_refused(
    session: SessionView,
    message: MessageView,
    now: u64,
    document: JsonView,
    event: event::EventView,
    i: int,
)
    requires
        session.pending is Message,
        session.authenticated is None,
        session::document_of(message) == Some(
            JsonView::Array(seq![JsonView::Text("EVENT"@), document]),
        ),
        document is Object,
        document.get("tags"@) == Some(event::tags_json(event.tags)),
        0 <= i < event.tags.len(),
        event.tags[i] == seq!["-"@],
    ensures
        session_step(session, SessionInput::Message { message, now }) == Some(
            (
                session,
                session::ok_reply(
                    session::shown_id(Some(document)),
                    false,
                    "auth-required: protected events require NIP-42"@,
                ),
            ),
        ),
{
    let whole = session::document_of(message);
    assert(session::command_of(whole) == Some("EVENT"@));
    assert(session::argument_of(whole) == Some(document));
    lemma_commands_differ();
    relay_laws::law_protected_by_signed_tags(document, event);
}

/// A message that publishes what is no event, an event that does not verify, or one that the session
/// may not publish is refused, in whatever frame it comes: nothing is forwarded, and the session stays
/// as it is.
pub proof fn law_unsigned_events_are_refused(session: SessionView, message: MessageView, now: u64)
    requires
        session.pending is Message,
        session::command_of(session::document_of(message)) == Some("EVENT"@),
        publishes(session, message) is None,
    ensures
        ({
            let sent = SessionInput::Message { message, now };
            let shown = session::shown_id(session::argument_of(session::document_of(message)));
            &&& after(session, sent) == session
            &&& exists|reason: Seq<char>|
                action(session, sent) == #[trigger] session::ok_reply(shown, false, reason)
        }),
{
    lemma_commands_differ();
}

/// An event reaches the relay only after its author was granted writing. Of the two inputs that
/// precede it, the last answers a question for the author's grant to write, or the count of a note
/// that the grant led to.
pub proof fn law_publishing_needs_a_grant(
    session: SessionView,
    first: SessionInput,
    second: SessionInput,
)
    requires
        sound(session),
        session_step(session, first) is Some,
        session_step(after(session, first), second) is Some,
        action(after(session, first), second) is Forward,
        session::command_of(
            session::document_of(
                action(after(session, first), second)->Forward_0,
            ),
        ) == Some("EVENT"@),
    ensures
        ({
            let between = after(session, first);
            let asked = action(session, first);
            let message = action(between, second)->Forward_0;
            let event = publishes(between, message)->0;
            ||| {
                &&& asked == ActionView::Authorize {
                    service: "shared-relay"@,
                    action: "write"@,
                    key: Some(event.public_key),
                }
                &&& second == SessionInput::Grant(true)
            }
            ||| {
                &&& first == SessionInput::Grant(true)
                &&& session.pending is WriteGrant
                &&& session.pending->WriteGrant_public_key == event.public_key
                &&& asked == ActionView::RecordNote {
                    public_key: event.public_key,
                    event_id: event.id,
                }
                &&& second is Note
                &&& second->Note_0 is Ok
            }
        }),
{
    lemma_commands_differ();
    law_sessions_are_sound(session, first);
}

/// A signed event can be published, with an authentication or without one: the session asks for its
/// author's grant to write and, where that is given and a note is counted, forwards the message as it
/// came.
pub proof fn law_signed_events_can_be_published(session: SessionView, message: MessageView, now: u64)
    requires
        session.pending is Message,
        publishes(session, message) is Some,
    ensures
        ({
            let event = publishes(session, message)->0;
            let sent = SessionInput::Message { message, now };
            let asked = after(session, sent);
            let granted = SessionInput::Grant(true);
            let counting = after(asked, granted);
            let counted = SessionInput::Note(Ok(()));
            &&& action(session, sent) == ActionView::Authorize {
                service: "shared-relay"@,
                action: "write"@,
                key: Some(event.public_key),
            }
            &&& event.kind != 1 ==> action(asked, granted) == ActionView::Forward(message)
            &&& event.kind == 1 ==> {
                &&& action(asked, granted) == ActionView::RecordNote {
                    public_key: event.public_key,
                    event_id: event.id,
                }
                &&& action(counting, counted) == ActionView::Forward(message)
            }
        }),
{
    lemma_commands_differ();
}

/// Where reading is open to all, or the session is authenticated, every message but those that
/// authenticate or publish is forwarded as it came.
pub proof fn law_open_reading_passes(session: SessionView, message: MessageView, now: u64)
    requires
        session.pending is Message,
        session.public_read || session.authenticated is Some,
        session::command_of(session::document_of(message)) != Some("AUTH"@),
        session::command_of(session::document_of(message)) != Some("EVENT"@),
    ensures
        session_step(session, SessionInput::Message { message, now }) == Some(
            (session, ActionView::Forward(message)),
        ),
{
}

/// A key becomes the authenticated key of a session only where a message of the session holds an
/// event of that key that verifies, answers this session's challenge at this relay, and is fresh,
/// and where the key is then granted reading.
pub proof fn law_authentication_needs_challenge_and_grant(
    session: SessionView,
    first: SessionInput,
    second: SessionInput,
)
    requires
        session_step(session, first) is Some,
        after(session, first).authenticated == session.authenticated,
        session_step(after(session, first), second) is Some,
        after(after(session, first), second).authenticated
            != session.authenticated,
    ensures
        ({
            let between = after(session, first);
            let asked = action(session, first);
            let key = after(between, second).authenticated;
            let argument = session::argument_of(session::document_of(first->message));
            &&& key is Some
            &&& first is Message
            &&& argument is Some
            &&& relay::relay_auth(
                argument->0,
                session.challenge,
                session.relay_url,
                first->now,
            ) is Ok
            &&& relay::relay_auth(
                argument->0,
                session.challenge,
                session.relay_url,
                first->now,
            )->Ok_0.public_key == key->0
            &&& asked == ActionView::Authorize {
                service: "shared-relay"@,
                action: "read"@,
                key: key,
            }
            &&& second == SessionInput::Grant(true)
        }),
{
}

/// Without a grant nothing is forwarded and nobody is authenticated: the event is refused under its
/// identifier.
pub proof fn law_no_grant_no_effect(session: SessionView)
    requires
        session::grant_step(session, false) is Some,
    ensures
        after(session, SessionInput::Grant(false)) == session::at_rest(session),
        exists|event_id: Seq<char>, reason: Seq<char>|
            action(session, SessionInput::Grant(false)) == #[trigger] session::ok_reply(
                event_id,
                false,
                reason,
            ),
{
}

/// What an authentication event is accepted for: it verifies, is of the right kind, and is dated no
/// more than a minute ahead of now and no more than ten minutes before.
pub proof fn law_accepted_authentication_is_fresh(
    json: JsonView,
    challenge: Seq<char>,
    relay_url: Seq<char>,
    now: u64,
)
    requires
        relay::relay_auth(json, challenge, relay_url, now) is Ok,
    ensures
        ({
            let event = relay::relay_auth(json, challenge, relay_url, now)->Ok_0;
            &&& event::event_in_json(json) == Some(event)
            &&& event::event_verified(event)
            &&& event.kind == 22242
            &&& event.content.len() == 0
            &&& event.created_at <= now + 60
            &&& now - event.created_at <= 600
        }),
{
}

} // verus!
