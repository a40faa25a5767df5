//! What each step of a session with the relay comes to, said of messages, documents and answers.

use vstd::prelude::*;
use crate::api::NotePublicationError;
use crate::event::{self, EventView};
use crate::json::{self, JsonView};
use crate::relay;
use crate::relay_laws;
use crate::session::{
    self, ActionView, ClientMessage, MessageView, PendingView, SessionAction, SessionView,
};

verus! {

/// Whether a document is a list that begins with the text of a command.
pub open spec fn commands(document: JsonView, command: Seq<char>) -> bool {
    &&& document is Array
    &&& document->Array_0.len() > 0
    &&& document->Array_0[0] == JsonView::Text(command)
}

/// Whether a document is a list with an argument after its first item.
pub open spec fn argues(document: JsonView, argument: JsonView) -> bool {
    &&& document is Array
    &&& document->Array_0.len() > 1
    &&& document->Array_0[1] == argument
}

/// The reply that accepts or refuses an event: a list of `OK`, the identifier of the event, whether it
/// is accepted, and why.
pub open spec fn verdict(event_id: Seq<char>, accepted: bool, reason: Seq<char>) -> ActionView {
    ActionView::Reply(
        json::json_text(
            JsonView::Array(
                seq![
                    JsonView::Text("OK"@),
                    JsonView::Text(event_id),
                    JsonView::Bool(accepted),
                    JsonView::Text(reason),
                ],
            ),
        ),
    )
}

proof fn lemma_commands_differ()
    ensures
        "AUTH"@ != "EVENT"@,
{
    reveal_strlit("AUTH");
    reveal_strlit("EVENT");
    assert("AUTH"@.len() == 4);
    assert("EVENT"@.len() == 5);
}

proof fn lemma_hex_digit(value: int, other: int)
    requires
        0 <= value < 16,
        0 <= other < 16,
    ensures
        session::hex_digit(value) == session::hex_digit(other) ==> value == other,
        '0' <= session::hex_digit(value) <= '9' || 'a' <= session::hex_digit(value) <= 'f',
{
}

/// A challenge has two lower-case hexadecimal digits for each byte that it stands for, and different
/// bytes give different challenges.
pub proof fn law_challenges(bytes: Seq<u8>, others: Seq<u8>, i: int)
    ensures
        session::lower_hex(bytes).len() == 2 * bytes.len(),
        0 <= i < 2 * bytes.len() ==> ('0' <= session::lower_hex(bytes)[i] <= '9' || 'a'
            <= session::lower_hex(bytes)[i] <= 'f'),
        session::lower_hex(bytes) == session::lower_hex(others) ==> bytes == others,
{
    if 0 <= i < 2 * bytes.len() {
        lemma_hex_digit(bytes[i / 2] as int / 16, 0);
        lemma_hex_digit(bytes[i / 2] as int % 16, 0);
    }
    if session::lower_hex(bytes) == session::lower_hex(others) {
        assert(session::lower_hex(others).len() == 2 * others.len());
        assert forall|k: int| 0 <= k < bytes.len() implies bytes[k] == others[k] by {
            assert(session::lower_hex(bytes)[2 * k] == session::lower_hex(others)[2 * k]);
            assert(session::lower_hex(bytes)[2 * k + 1] == session::lower_hex(others)[2 * k + 1]);
            lemma_hex_digit(bytes[k] as int / 16, others[k] as int / 16);
            lemma_hex_digit(bytes[k] as int % 16, others[k] as int % 16);
        }
        assert(bytes =~= others);
    }
}

/// A session begins with its challenge, its relay and whether reading is open to all; with nobody
/// authenticated; and waits for a message.
pub proof fn law_fresh(challenge: Seq<char>, relay_url: Seq<char>, public_read: bool)
    ensures
        session::fresh(challenge, relay_url, public_read) == (SessionView {
            challenge,
            relay_url,
            public_read,
            authenticated: None,
            pending: PendingView::Message,
        }),
{
}

/// A session at rest waits for a message, and is as it was otherwise.
pub proof fn law_at_rest(session: SessionView)
    ensures
        session::at_rest(session).pending is Message,
        session::at_rest(session).challenge == session.challenge,
        session::at_rest(session).relay_url == session.relay_url,
        session::at_rest(session).public_read == session.public_read,
        session::at_rest(session).authenticated == session.authenticated,
{
}

/// What is sent to a client: the challenge, after `AUTH`; what it is told, after `NOTICE`; and the
/// verdict on an event.
pub proof fn law_replies(text: Seq<char>, event_id: Seq<char>, accepted: bool)
    ensures
        session::challenge_json(text) == JsonView::Array(
            seq![JsonView::Text("AUTH"@), JsonView::Text(text)],
        ),
        session::notice_json(text) == JsonView::Array(
            seq![JsonView::Text("NOTICE"@), JsonView::Text(text)],
        ),
        session::ok_json(event_id, accepted, text) == JsonView::Array(
            seq![
                JsonView::Text("OK"@),
                JsonView::Text(event_id),
                JsonView::Bool(accepted),
                JsonView::Text(text),
            ],
        ),
        session::ok_reply(event_id, accepted, text) == verdict(event_id, accepted, text),
{
}

/// The document of a message is read in its text, or else in its bytes; its command is the text that
/// it begins with, and its argument the item after that.
pub proof fn law_messages_are_read(
    characters: Seq<char>,
    bytes: Seq<u8>,
    document: JsonView,
    command: Seq<char>,
    argument: JsonView,
)
    ensures
        session::document_of(MessageView::Text(characters)) == json::json_in_text(characters),
        session::document_of(MessageView::Binary(bytes)) == json::json_in_bytes(bytes),
        session::command_of(None) is None,
        session::argument_of(None) is None,
        session::command_of(Some(document)) == Some(command) <==> commands(document, command),
        session::argument_of(Some(document)) == Some(argument) <==> argues(document, argument),
{
}

/// The identifier that a document shows is the text under `id`; where there is none, it is empty.
pub proof fn law_shown_id(document: JsonView, id: Seq<char>)
    ensures
        ({
            let shows = document is Object && document->Object_0.contains_key("id"@)
                && document->Object_0["id"@] is Text;
            &&& shows && document->Object_0["id"@] == JsonView::Text(id) ==> session::shown_id(
                Some(document),
            ) == id
            &&& !shows ==> session::shown_id(Some(document)).len() == 0
            &&& session::shown_id(None).len() == 0
        }),
{
}

/// A message that authenticates asks whether the author of its event may read, where the event
/// authenticates the session; else it is refused, and the session is as it was.
pub proof fn law_authentications(
    session: SessionView,
    message: MessageView,
    now: u64,
    document: JsonView,
    argument: JsonView,
    event: EventView,
)
    requires
        session::document_of(message) == Some(document),
        commands(document, "AUTH"@),
    ensures
        ({
            let next = session::message_step(session, message, now);
            let outcome = relay::relay_auth(
                argument,
                session.challenge,
                session.relay_url,
                now,
            );
            let refused = next == (
                session,
                verdict(Seq::empty(), false, "auth-required: invalid NIP-42 event"@),
            );
            &&& argues(document, argument) && outcome is Ok && outcome->Ok_0 == event ==> next == (
                SessionView {
                    pending: PendingView::ReadGrant {
                        event_id: event.id,
                        public_key: event.public_key,
                    },
                    ..session
                },
                ActionView::Authorize {
                    service: "shared-relay"@,
                    action: "read"@,
                    key: Some(event.public_key),
                },
            )
            &&& argues(document, argument) && outcome is Err ==> refused
            &&& document->Array_0.len() == 1 ==> refused
        }),
{
    assert(session::command_of(Some(document)) == Some("AUTH"@));
    if argues(document, argument) {
        assert(session::argument_of(Some(document)) == Some(argument));
    }
}

/// A message that publishes a protected event without an authentication is refused, and so is one that
/// publishes what is no event, an event that does not verify, or one of another author than the
/// authenticated key. Any other asks whether the author of the event may write, and is held back.
pub proof fn law_publications(
    session: SessionView,
    message: MessageView,
    now: u64,
    document: JsonView,
    argument: JsonView,
)
    requires
        session::document_of(message) == Some(document),
        commands(document, "EVENT"@),
        argues(document, argument),
    ensures
        ({
            let next = session::message_step(session, message, now);
            let shown = session::shown_id(Some(argument));
            let barred = session.authenticated is None && exists|tags: Seq<JsonView>, i: int|
                #![trigger relay_laws::shows_tags(argument, tags), tags[i]]
                relay_laws::shows_tags(argument, tags) && 0 <= i < tags.len() && tags[i] is Array
                    && tags[i]->Array_0.len() == 1 && tags[i]->Array_0[0] == JsonView::Text("-"@);
            let found = event::event_in_json(argument);
            let event = found->0;
            let fit = found is Some && event::event_verified(event) && (session.authenticated is None
                || session.authenticated == Some(event.public_key));
            &&& barred ==> next == (
                session,
                verdict(shown, false, "auth-required: protected events require NIP-42"@),
            )
            &&& !barred && !fit ==> next == (
                session,
                verdict(shown, false, "invalid: event signature or author"@),
            )
            &&& !barred && fit ==> next == (
                SessionView {
                    pending: PendingView::WriteGrant {
                        event_id: event.id,
                        public_key: event.public_key,
                        kind: event.kind,
                        message,
                    },
                    ..session
                },
                ActionView::Authorize {
                    service: "shared-relay"@,
                    action: "write"@,
                    key: Some(event.public_key),
                },
            )
        }),
{
    lemma_commands_differ();
    assert(session::command_of(Some(document)) == Some("EVENT"@));
    assert(session::argument_of(Some(document)) == Some(argument));
    relay_laws::law_protected(argument);
    relay_laws::law_relay_event(argument, session.authenticated);
}

/// A message that publishes nothing at all is refused; one that neither authenticates nor publishes,
/// or is no document, is sent on as it came where reading is open to all or the session is
/// authenticated, and else answered with a notice. The session is as it was.
pub proof fn law_other_messages(session: SessionView, message: MessageView, now: u64, document: JsonView)
    ensures
        ({
            let next = session::message_step(session, message, now);
            let parsed = session::document_of(message);
            let other = parsed is None || (parsed == Some(document) && !commands(document, "AUTH"@)
                && !commands(document, "EVENT"@));
            let open = session.public_read || session.authenticated is Some;
            &&& parsed == Some(document) && commands(document, "EVENT"@) && document->Array_0.len()
                == 1 ==> next == (
                session,
                verdict(Seq::empty(), false, "invalid: event signature or author"@),
            )
            &&& other && open ==> next == (session, ActionView::Forward(message))
            &&& other && !open ==> next == (
                session,
                ActionView::Reply(
                    json::json_text(
                        JsonView::Array(
                            seq![
                                JsonView::Text("NOTICE"@),
                                JsonView::Text("auth-required: authenticate with NIP-42"@),
                            ],
                        ),
                    ),
                ),
            )
        }),
{
    lemma_commands_differ();
    if commands(document, "EVENT"@) {
        assert(session::command_of(Some(document)) == Some("EVENT"@));
    }
}

/// What an event that authenticates, or none, leads to; and what an event that may be published, or
/// none, leads to.
pub proof fn law_outcomes(
    session: SessionView,
    event_id: Seq<char>,
    public_key: Seq<char>,
    kind: u16,
    shown: Seq<char>,
    message: MessageView,
)
    ensures
        session::authentication_outcome(session, None) == (
            session,
            verdict(Seq::empty(), false, "auth-required: invalid NIP-42 event"@),
        ),
        session::authentication_outcome(session, Some((event_id, public_key))) == (
            SessionView { pending: PendingView::ReadGrant { event_id, public_key }, ..session },
            ActionView::Authorize {
                service: "shared-relay"@,
                action: "read"@,
                key: Some(public_key),
            },
        ),
        session::publication_outcome(session, None, shown, message) == (
            session,
            verdict(shown, false, "invalid: event signature or author"@),
        ),
        session::publication_outcome(session, Some((event_id, public_key, kind)), shown, message)
            == (
            SessionView {
                pending: PendingView::WriteGrant { event_id, public_key, kind, message },
                ..session
            },
            ActionView::Authorize {
                service: "shared-relay"@,
                action: "write"@,
                key: Some(public_key),
            },
        ),
{
}

/// The answer on reading authenticates the key that asked, or refuses its event.
pub proof fn law_reading_is_granted(
    session: SessionView,
    event_id: Seq<char>,
    public_key: Seq<char>,
)
    requires
        session.pending == (PendingView::ReadGrant { event_id, public_key }),
    ensures
        session::grant_step(session, true) == Some(
            (
                SessionView {
                    authenticated: Some(public_key),
                    pending: PendingView::Message,
                    ..session
                },
                verdict(event_id, true, ""@),
            ),
        ),
        session::grant_step(session, false) == Some(
            (
                SessionView { pending: PendingView::Message, ..session },
                verdict(event_id, false, "restricted: public key is not approved"@),
            ),
        ),
{
}

/// The answer on writing refuses the event, or sends its message on, or, for a note, which is of kind
/// 1, has it counted first.
pub proof fn law_writing_is_granted(
    session: SessionView,
    event_id: Seq<char>,
    public_key: Seq<char>,
    kind: u16,
    message: MessageView,
)
    requires
        session.pending == (PendingView::WriteGrant { event_id, public_key, kind, message }),
    ensures
        session::grant_step(session, false) == Some(
            (
                SessionView { pending: PendingView::Message, ..session },
                verdict(event_id, false, "restricted: event author is not approved"@),
            ),
        ),
        kind == 1 ==> session::grant_step(session, true) == Some(
            (
                SessionView { pending: PendingView::NoteCount { event_id, message }, ..session },
                ActionView::RecordNote { public_key, event_id },
            ),
        ),
        kind != 1 ==> session::grant_step(session, true) == Some(
            (
                SessionView { pending: PendingView::Message, ..session },
                ActionView::Forward(message),
            ),
        ),
{
}

/// A note is sent on once it is counted; where it is not, it is refused, with the reason.
pub proof fn law_notes(
    session: SessionView,
    event_id: Seq<char>,
    message: MessageView,
    outcome: Result<(), NotePublicationError>,
)
    requires
        session.pending == (PendingView::NoteCount { event_id, message }),
    ensures
        ({
            let next = session::note_step(session, outcome);
            let step = next->0;
            let fault = outcome->Err_0;
            &&& next is Some
            &&& step.0 == SessionView { pending: PendingView::Message, ..session }
            &&& outcome is Ok ==> step.1 == ActionView::Forward(message)
            &&& outcome is Err && fault == NotePublicationError::LimitReached ==> step.1 == verdict(
                event_id,
                false,
                "rate-limited: publishing temporarily unavailable"@,
            )
            &&& outcome is Err && fault == NotePublicationError::Unavailable ==> step.1 == verdict(
                event_id,
                false,
                "error: publishing temporarily unavailable"@,
            )
        }),
{
}

/// A session takes the answer that it waits for, and no other.
pub proof fn law_answers_are_awaited(
    session: SessionView,
    granted: bool,
    outcome: Result<(), NotePublicationError>,
)
    ensures
        session::grant_step(session, granted) is Some <==> session.pending is ReadGrant
            || session.pending is WriteGrant,
        session::note_step(session, outcome) is Some <==> session.pending is NoteCount,
{
}

/// What is to be done, and what came, is what the action and the message hold.
pub proof fn law_actions_hold(action: SessionAction, message: ClientMessage)
    ensures
        match action {
            SessionAction::Reply(text) => action@ == ActionView::Reply(text@),
            SessionAction::Authorize(request) => {
                &&& action@ is Authorize
                &&& action@->service == request.service@
                &&& action@->action == request.action@
                &&& action@->key is Some <==> request.public_key is Some
                &&& request.public_key is Some ==> action@->key == Some(request.public_key->0@)
            },
            SessionAction::RecordNote(request) => {
                &&& action@ is RecordNote
                &&& action@->public_key == request.public_key@
                &&& action@->event_id == request.event_id@
            },
            SessionAction::Forward(forwarded) => action@ == ActionView::Forward(forwarded@),
        },
        match message {
            ClientMessage::Text(text) => message@ == MessageView::Text(text@),
            ClientMessage::Binary(bytes) => message@ == MessageView::Binary(bytes@),
        },
{
}

} // verus!
