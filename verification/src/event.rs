//! Signed Nostr events, read and verified by the `nostr` crate.

use vstd::prelude::*;
use crate::json::{self, Json, JsonView};

verus! {

/// `nostr::Event`.
#[verifier::external_type_specification]
#[verifier::external_body]
pub struct ExternalEvent(nostr::Event);

/// What an event says. Identifier, public key and signature are in lower-case hexadecimal.
pub struct EventView {
    pub id: Seq<char>,
    pub public_key: Seq<char>,
    pub created_at: u64,
    pub kind: u16,
    pub tags: Seq<Seq<Seq<char>>>,
    pub content: Seq<char>,
    pub signature: Seq<char>,
}

/// What a `nostr::Event` holds.
pub uninterp spec fn event_view(event: nostr::Event) -> EventView;

/// The event that `serde_json::from_value` reads in a document; `None` where it is not an event.
pub uninterp spec fn event_in_json(json: JsonView) -> Option<EventView>;

/// The event that `serde_json::from_slice` reads in bytes; `None` where they are not an event.
pub uninterp spec fn event_in_bytes(bytes: Seq<u8>) -> Option<EventView>;

/// Whether `nostr::Event::verify` accepts an event: its identifier is the hash of what it says, and
/// the signature is its author's.
pub uninterp spec fn event_verified(event: EventView) -> bool;

/// The tags of an event as its document shows them: arrays of texts.
pub open spec fn tags_json(tags: Seq<Seq<Seq<char>>>) -> JsonView {
    JsonView::Array(
        tags.map_values(
            |tag: Seq<Seq<char>>|
                JsonView::Array(tag.map_values(|item: Seq<char>| JsonView::Text(item))),
        ),
    )
}

/// The parts of an event that decisions are made on.
#[derive(Debug)]
pub struct EventFields {
    pub id: String,
    pub public_key: String,
    pub created_at: u64,
    pub kind: u16,
    pub content: String,
}

impl EventFields {
    /// Whether these are the parts of `event`.
    pub open spec fn describes(&self, event: EventView) -> bool {
        &&& self.id@ == event.id
        &&& self.public_key@ == event.public_key
        &&& self.created_at == event.created_at
        &&& self.kind == event.kind
        &&& self.content@ == event.content
    }
}

/// Why a document or bytes are not a signed event.
#[derive(Debug, Clone, Copy, PartialEq, Eq, Structural)]
pub enum EventError {
    /// It is not an event at all.
    Malformed,
    /// The identifier or the signature does not verify.
    Unverified,
}

/// `serde_json::from_value` for a `nostr::Event`: whether the document is an event, and which,
/// depends on the document alone.
///
/// Where the document is an object, its `tags` are the tags of the event, text for text.
#[verifier::external_body]
fn read_value(value: serde_json::Value) -> (r: Result<nostr::Event, serde_json::Error>)
    ensures
        match r {
            Ok(event) => event_in_json(json::value_json(value)) == Some(event_view(event)),
            Err(_) => event_in_json(json::value_json(value)) is None,
        },
        r is Ok && json::value_json(value) is Object ==> json::value_json(value).get("tags"@) == Some(
            tags_json(event_view(r->Ok_0).tags),
        ),
{
    serde_json::from_value::<nostr::Event>(value)
}

/// `serde_json::from_slice` for a `nostr::Event`: whether the bytes are an event, and which, depends
/// on the bytes alone.
///
/// Where the bytes are also an object, its `tags` are the tags of the event, text for text.
#[verifier::external_body]
fn read_bytes(bytes: &[u8]) -> (r: Result<nostr::Event, serde_json::Error>)
    ensures
        match r {
            Ok(event) => event_in_bytes(bytes@) == Some(event_view(event)),
            Err(_) => event_in_bytes(bytes@) is None,
        },
        r is Ok && json::json_in_bytes(bytes@) is Some && json::json_in_bytes(bytes@)->0 is Object
            ==> json::json_in_bytes(bytes@)->0.get("tags"@) == Some(
            tags_json(event_view(r->Ok_0).tags),
        ),
{
    serde_json::from_slice::<nostr::Event>(bytes)
}

/// `nostr::Event::verify`: whether it accepts depends on what the event holds alone.
#[verifier::external_body]
fn verify(event: &nostr::Event) -> (r: bool)
    ensures
        r == event_verified(event_view(*event)),
{
    event.verify().is_ok()
}

/// Reads the public fields of a `nostr::Event`: `EventId::to_hex`, `PublicKey::to_hex`,
/// `Timestamp::as_secs`, `Kind::as_u16` and the content.
#[verifier::external_body]
fn fields(event: &nostr::Event) -> (r: EventFields)
    ensures
        r.describes(event_view(*event)),
{
    EventFields {
        id: event.id.to_hex(),
        public_key: event.pubkey.to_hex(),
        created_at: event.created_at.as_secs(),
        kind: event.kind.as_u16(),
        content: event.content.clone(),
    }
}

/// `nostr::Timestamp::now`: the seconds since 1970 by the clock of the machine, of which nothing is
/// known here.
#[verifier::external_body]
pub(crate) fn now() -> (r: u64)
{
    nostr::Timestamp::now().as_secs()
}

/// What an event read somewhere is worth: its parts where it verifies, and else the reason.
pub open spec fn signed(
    event: Option<EventView>,
    outcome: Result<EventFields, EventError>,
) -> bool {
    match outcome {
        Ok(fields) => event is Some && event_verified(event->0) && fields.describes(event->0),
        Err(EventError::Malformed) => event is None,
        Err(EventError::Unverified) => event is Some && !event_verified(event->0),
    }
}

fn verified_fields(event: nostr::Event) -> (r: Result<EventFields, EventError>)
    ensures
        signed(Some(event_view(event)), r),
{
    if verify(&event) {
        Ok(fields(&event))
    } else {
        Err(EventError::Unverified)
    }
}

/// The signed event in a document.
pub fn signed_event(json: &Json) -> (r: Result<EventFields, EventError>)
    ensures
        signed(event_in_json(json@), r),
        r is Ok && json@ is Object ==> json@.get("tags"@) == Some(
            tags_json(event_in_json(json@)->0.tags),
        ),
{
    match read_value(json.to_value()) {
        Ok(event) => verified_fields(event),
        Err(_) => Err(EventError::Malformed),
    }
}

/// The signed event in bytes.
pub fn signed_event_in_bytes(bytes: &[u8]) -> (r: Result<EventFields, EventError>)
    ensures
        signed(event_in_bytes(bytes@), r),
        r is Ok && json::json_in_bytes(bytes@) is Some && json::json_in_bytes(bytes@)->0 is Object
            ==> json::json_in_bytes(bytes@)->0.get("tags"@) == Some(
            tags_json(event_in_bytes(bytes@)->0.tags),
        ),
{
    match read_bytes(bytes) {
        Ok(event) => verified_fields(event),
        Err(_) => Err(EventError::Malformed),
    }
}

/// An event is worth its own parts exactly where there is one and it verifies; without one it is
/// malformed, and one that does not verify is unverified.
pub proof fn law_signed_events_verify(
    event: Option<EventView>,
    outcome: Result<EventFields, EventError>,
)
    requires
        signed(event, outcome),
    ensures
        outcome is Ok <==> event is Some && event_verified(event->0),
        outcome is Ok ==> {
            let fields = outcome->Ok_0;
            &&& fields.id@ == event->0.id
            &&& fields.public_key@ == event->0.public_key
            &&& fields.created_at == event->0.created_at
            &&& fields.kind == event->0.kind
            &&& fields.content@ == event->0.content
        },
        outcome is Err ==> (outcome->Err_0 == EventError::Malformed <==> event is None),
{
}

/// The document of an event shows every text of every tag at its place, and nothing else.
pub proof fn law_tags_are_shown(tags: Seq<Seq<Seq<char>>>, i: int, j: int)
    ensures
        tags_json(tags) is Array,
        tags_json(tags)->Array_0.len() == tags.len(),
        0 <= i < tags.len() ==> {
            let shown = tags_json(tags)->Array_0[i];
            &&& shown is Array
            &&& shown->Array_0.len() == tags[i].len()
            &&& 0 <= j < tags[i].len() ==> shown->Array_0[j] == JsonView::Text(tags[i][j])
        },
{
}

} // verus!
