//! Who may say what to the relay: authentication of a session and authorship of events.

use vstd::prelude::*;
use crate::event::{self, EventError, EventFields};
use crate::json::{self, Json, JsonView};
use crate::text;

verus! {

/// The kind of the event that authenticates a session (NIP-42).
pub const NIP42_KIND: u16 = 22_242;

/// How far in the future an authentication event may be dated, in seconds.
pub const MAX_AHEAD_SECONDS: u64 = 60;

/// How old an authentication event may be, in seconds.
pub const MAX_AGE_SECONDS: u64 = 600;

/// Why an event does not authenticate a session.
#[derive(Debug, Clone, Copy, PartialEq, Eq, Structural)]
pub enum RelayAuthError {
    /// It is not an event, or the event does not verify.
    Event(EventError),
    /// It is of another kind, or has content.
    KindOrContent,
    /// Its document shows no list of tags.
    MissingTags,
    /// Its tags do not name the challenge of this session and this relay.
    Unbound,
    /// It is dated too far in the future or in the past.
    Stale,
}

/// Why an event may not be published in a session.
#[derive(Debug, Clone, Copy, PartialEq, Eq, Structural)]
pub enum RelayEventError {
    /// It is not an event, or the event does not verify.
    Event(EventError),
    /// Its author is not the authenticated key of the session.
    OtherAuthor,
}

/// Two addresses that are the same up to slashes at their ends.
pub open spec fn same_relay(left: Seq<char>, right: Seq<char>) -> bool {
    text::without_trailing(left, '/') == text::without_trailing(right, '/')
}

/// Whether a tag begins with a name and a value.
pub open spec fn tag_says(tag: JsonView, name: Seq<char>, value: Seq<char>) -> bool {
    tag.text_at(0) == Some(name) && tag.text_at(1) == Some(value)
}

/// Whether a tag begins with `relay` and an address of the relay.
pub open spec fn tag_names_relay(tag: JsonView, relay: Seq<char>) -> bool {
    &&& tag.text_at(0) == Some("relay"@)
    &&& tag.text_at(1) is Some
    &&& same_relay(tag.text_at(1)->0, relay)
}

/// Whether some tag begins with a name and a value.
pub open spec fn some_tag_says(tags: Seq<JsonView>, name: Seq<char>, value: Seq<char>) -> bool {
    exists|i: int| 0 <= i < tags.len() && tag_says(#[trigger] tags[i], name, value)
}

/// Whether some tag begins with `relay` and an address of the relay.
pub open spec fn some_tag_names_relay(tags: Seq<JsonView>, relay: Seq<char>) -> bool {
    exists|i: int| 0 <= i < tags.len() && tag_names_relay(#[trigger] tags[i], relay)
}

/// The list of tags that an event's document shows.
pub open spec fn tags_of(json: JsonView) -> Option<Seq<JsonView>> {
    match json.get("tags"@) {
        Some(tags) => tags.items(),
        None => None,
    }
}

/// A tag that holds a single dash and nothing else (NIP-70).
pub open spec fn is_dash(tag: JsonView) -> bool {
    tag == JsonView::Array(seq![JsonView::Text("-"@)])
}

/// Whether an event's document marks it as protected (NIP-70).
pub open spec fn protected(json: JsonView) -> bool {
    tags_of(json) is Some && some_tag_is_dash(tags_of(json)->0)
}

/// Whether some tag holds a single dash and nothing else.
pub open spec fn some_tag_is_dash(tags: Seq<JsonView>) -> bool {
    exists|i: int| 0 <= i < tags.len() && is_dash(#[trigger] tags[i])
}

/// What is wrong, at `now`, with a verified event that shows `tags` as the authentication of a
/// session; `None` where nothing is.
pub open spec fn relay_auth_fault(
    kind: u16,
    content: Seq<char>,
    created_at: u64,
    tags: Option<Seq<JsonView>>,
    challenge: Seq<char>,
    relay: Seq<char>,
    now: u64,
) -> Option<RelayAuthError> {
    if kind != NIP42_KIND || content.len() != 0 {
        Some(RelayAuthError::KindOrContent)
    } else if tags is None {
        Some(RelayAuthError::MissingTags)
    } else if !some_tag_says(tags->0, "challenge"@, challenge) || !some_tag_names_relay(
        tags->0,
        relay,
    ) {
        Some(RelayAuthError::Unbound)
    } else if created_at > now + MAX_AHEAD_SECONDS || now - created_at > MAX_AGE_SECONDS {
        Some(RelayAuthError::Stale)
    } else {
        None
    }
}

/// What the document of an authentication event is worth at `now`.
pub open spec fn relay_auth(
    json: JsonView,
    challenge: Seq<char>,
    relay: Seq<char>,
    now: u64,
) -> Result<event::EventView, RelayAuthError> {
    match event::event_in_json(json) {
        None => Err(RelayAuthError::Event(EventError::Malformed)),
        Some(found) => if !event::event_verified(found) {
            Err(RelayAuthError::Event(EventError::Unverified))
        } else {
            match relay_auth_fault(
                found.kind,
                found.content,
                found.created_at,
                tags_of(json),
                challenge,
                relay,
                now,
            ) {
                Some(fault) => Err(fault),
                None => Ok(found),
            }
        },
    }
}

/// Whether an answer names the identifier and the author of the expected event, or is the expected
/// error.
pub open spec fn names_event(
    answer: Result<(String, String), RelayAuthError>,
    expected: Result<event::EventView, RelayAuthError>,
) -> bool {
    match (answer, expected) {
        (Ok(names), Ok(event)) => names.0@ == event.id && names.1@ == event.public_key,
        (Err(error), Err(fault)) => error == fault,
        _ => false,
    }
}

/// Whether the tags that an event's author signed name a challenge and a relay.
pub open spec fn binds(event: event::EventView, challenge: Seq<char>, relay: Seq<char>) -> bool {
    &&& exists|i: int|
        0 <= i < event.tags.len() && (#[trigger] event.tags[i]).len() >= 2 && event.tags[i][0]
            == "challenge"@ && event.tags[i][1] == challenge
    &&& exists|i: int|
        0 <= i < event.tags.len() && (#[trigger] event.tags[i]).len() >= 2 && event.tags[i][0]
            == "relay"@ && same_relay(event.tags[i][1], relay)
}

/// Tags that a document shows and an author signed say the same.
proof fn lemma_shown_tags_bind(event: event::EventView, challenge: Seq<char>, relay: Seq<char>)
    requires
        some_tag_says(event::tags_json(event.tags)->Array_0, "challenge"@, challenge),
        some_tag_names_relay(event::tags_json(event.tags)->Array_0, relay),
    ensures
        binds(event, challenge, relay),
{
    let shown = event::tags_json(event.tags)->Array_0;
    let i = choose|i: int|
        0 <= i < shown.len() && tag_says(#[trigger] shown[i], "challenge"@, challenge);
    assert(shown[i]->Array_0.len() == event.tags[i].len());
    let j = choose|j: int| 0 <= j < shown.len() && tag_names_relay(#[trigger] shown[j], relay);
    assert(shown[j]->Array_0.len() == event.tags[j].len());
}

/// What the document of an event is worth in a session with an authenticated key, or with none.
pub open spec fn relay_event(
    json: JsonView,
    authenticated: Option<Seq<char>>,
) -> Result<event::EventView, RelayEventError> {
    match event::event_in_json(json) {
        None => Err(RelayEventError::Event(EventError::Malformed)),
        Some(found) => if !event::event_verified(found) {
            Err(RelayEventError::Event(EventError::Unverified))
        } else if authenticated is Some && authenticated->0 != found.public_key {
            Err(RelayEventError::OtherAuthor)
        } else {
            Ok(found)
        },
    }
}

/// Whether two relay addresses are the same up to slashes at their ends.
pub fn relay_urls_match(left: &str, right: &str) -> (r: bool)
    ensures
        r == same_relay(left@, right@),
{
    text::same(text::trim_end_matches(left, '/'), text::trim_end_matches(right, '/'))
}

/// Whether some tag begins with a name and a value.
pub fn has_json_tag(tags: &Vec<Json>, name: &str, expected: &str) -> (r: bool)
    ensures
        r == some_tag_says(json::items_view(tags@), name@, expected@),
{
    proof {
        json::lemma_items_view(tags@);
    }
    let mut i: usize = 0;
    while i < tags.len()
        invariant
            i <= tags@.len(),
            json::items_view(tags@).len() == tags@.len(),
            forall|j: int|
                0 <= j < tags@.len() ==> #[trigger] json::items_view(tags@)[j] == tags@[j]@,
            forall|j: int|
                0 <= j < i ==> !tag_says(#[trigger] json::items_view(tags@)[j], name@, expected@),
        decreases tags@.len() - i,
    {
        assert(json::items_view(tags@)[i as int] == tags@[i as int]@);
        if text::is_text(tags[i].text_at(0), name) && text::is_text(tags[i].text_at(1), expected) {
            return true;
        }
        i += 1;
    }
    false
}

/// Whether some tag begins with `relay` and an address of the relay.
pub fn has_relay_tag(tags: &Vec<Json>, expected: &str) -> (r: bool)
    ensures
        r == some_tag_names_relay(json::items_view(tags@), expected@),
{
    proof {
        json::lemma_items_view(tags@);
    }
    let mut i: usize = 0;
    while i < tags.len()
        invariant
            i <= tags@.len(),
            json::items_view(tags@).len() == tags@.len(),
            forall|j: int|
                0 <= j < tags@.len() ==> #[trigger] json::items_view(tags@)[j] == tags@[j]@,
            forall|j: int|
                0 <= j < i ==> !tag_names_relay(#[trigger] json::items_view(tags@)[j], expected@),
        decreases tags@.len() - i,
    {
        assert(json::items_view(tags@)[i as int] == tags@[i as int]@);
        if text::is_text(tags[i].text_at(0), "relay") {
            if let Some(relay) = tags[i].text_at(1) {
                if relay_urls_match(relay, expected) {
                    return true;
                }
            }
        }
        i += 1;
    }
    false
}

fn is_dash_tag(tag: &Json) -> (r: bool)
    ensures
        r == is_dash(tag@),
{
    match tag.as_array() {
        Some(items) => {
            proof {
                json::lemma_items_view(items@);
            }
            if items.len() == 1 && text::is_text(items[0].as_text(), "-") {
                assert(json::items_view(items@)[0] == items@[0]@);
                assert(json::items_view(items@) =~= seq![JsonView::Text("-"@)]);
                true
            } else {
                assert(is_dash(tag@) ==> json::items_view(items@)[0] == items@[0]@);
                false
            }
        },
        None => false,
    }
}

/// Whether an event's document marks it as protected (NIP-70).
pub fn is_protected_event(value: &Json) -> (r: bool)
    ensures
        r == protected(value@),
{
    let tags = match value.get("tags") {
        Some(tags) => match tags.as_array() {
            Some(items) => items,
            None => {
                return false;
            },
        },
        None => {
            return false;
        },
    };
    proof {
        json::lemma_items_view(tags@);
    }
    let ghost shown = tags_of(value@)->0;
    let mut i: usize = 0;
    while i < tags.len()
        invariant
            i <= tags@.len(),
            tags_of(value@) == Some(shown),
            shown.len() == tags@.len(),
            forall|j: int| 0 <= j < tags@.len() ==> #[trigger] shown[j] == tags@[j]@,
            forall|j: int| 0 <= j < i ==> !is_dash(#[trigger] shown[j]),
        decreases tags@.len() - i,
    {
        assert(shown[i as int] == tags@[i as int]@);
        if is_dash_tag(&tags[i]) {
            return true;
        }
        i += 1;
    }
    false
}

/// What is wrong, at `now`, with a verified event as the authentication of a session. The document
/// of the event shows its tags.
pub fn check_relay_auth(
    event: &EventFields,
    value: &Json,
    challenge: &str,
    relay_url: &str,
    now: u64,
) -> (r: Result<(), RelayAuthError>)
    ensures
        match relay_auth_fault(
            event.kind,
            event.content@,
            event.created_at,
            tags_of(value@),
            challenge@,
            relay_url@,
            now,
        ) {
            Some(fault) => r == Err::<(), RelayAuthError>(fault),
            None => r is Ok,
        },
{
    if event.kind != NIP42_KIND || !event.content.as_str().is_empty() {
        return Err(RelayAuthError::KindOrContent);
    }
    let tags = match value.get("tags") {
        Some(tags) => match tags.as_array() {
            Some(items) => items,
            None => {
                return Err(RelayAuthError::MissingTags);
            },
        },
        None => {
            return Err(RelayAuthError::MissingTags);
        },
    };
    if !has_json_tag(tags, "challenge", challenge) || !has_relay_tag(tags, relay_url) {
        return Err(RelayAuthError::Unbound);
    }
    if event.created_at > now.saturating_add(MAX_AHEAD_SECONDS) || now.saturating_sub(
        event.created_at,
    ) > MAX_AGE_SECONDS {
        return Err(RelayAuthError::Stale);
    }
    Ok(())
}

/// Whether a document is an event that authenticates a session at `now`: the event's identifier and
/// author where it is.
pub fn verify_relay_auth_at(value: &Json, challenge: &str, relay_url: &str, now: u64) -> (r: Result<
    (String, String),
    RelayAuthError,
>)
    ensures
        names_event(r, relay_auth(value@, challenge@, relay_url@, now)),
        r is Ok ==> binds(event::event_in_json(value@)->0, challenge@, relay_url@),
{
    match event::signed_event(value) {
        Ok(found) => match check_relay_auth(&found, value, challenge, relay_url, now) {
            Ok(()) => {
                proof {
                    lemma_shown_tags_bind(
                        event::event_in_json(value@)->0,
                        challenge@,
                        relay_url@,
                    );
                }
                Ok((found.id, found.public_key))
            },
            Err(error) => Err(error),
        },
        Err(error) => Err(RelayAuthError::Event(error)),
    }
}

/// Whether a document is an event that authenticates a session now, by the clock of the machine.
pub fn verify_relay_auth(value: &Json, challenge: &str, relay_url: &str) -> (r: Result<
    (String, String),
    RelayAuthError,
>)
    ensures
        exists|now: u64|
            names_event(r, #[trigger] relay_auth(value@, challenge@, relay_url@, now)),
        r is Ok ==> binds(event::event_in_json(value@)->0, challenge@, relay_url@),
{
    let now = event::now();
    verify_relay_auth_at(value, challenge, relay_url, now)
}

/// Whether an event's author is the authenticated key, where there is one.
pub fn author_may_publish(event: &EventFields, authenticated_pubkey: Option<&str>) -> (r: bool)
    ensures
        r == (authenticated_pubkey is Some ==> authenticated_pubkey->0@ == event.public_key@),
{
    match authenticated_pubkey {
        Some(pubkey) => text::same(pubkey, event.public_key.as_str()),
        None => true,
    }
}

/// Whether a document is an event that may be published: it verifies, and its author is the
/// authenticated key where there is one.
pub fn verify_relay_event(value: &Json, authenticated_pubkey: Option<&str>) -> (r: Result<
    EventFields,
    RelayEventError,
>)
    ensures
        match (r, relay_event(value@, text::optional(authenticated_pubkey))) {
            (Ok(fields), Ok(event)) => fields.describes(event),
            (Err(error), Err(expected)) => error == expected,
            _ => false,
        },
{
    match event::signed_event(value) {
        Ok(found) => if author_may_publish(&found, authenticated_pubkey) {
            Ok(found)
        } else {
            Err(RelayEventError::OtherAuthor)
        },
        Err(error) => Err(RelayEventError::Event(error)),
    }
}

/// The commands that a session may try: publishing always, and anything else where reading is open
/// to all or the session is authenticated.
pub open spec fn may_attempt(
    command: Option<Seq<char>>,
    public_read: bool,
    authenticated: bool,
) -> bool {
    command == Some("EVENT"@) || public_read || authenticated
}

/// Whether a session may try a command.
pub fn can_attempt_relay_command(
    command: Option<&str>,
    public_read: bool,
    authenticated: bool,
) -> (r: bool)
    ensures
        r == may_attempt(text::optional(command), public_read, authenticated),
{
    if text::is_text(command, "EVENT") {
        true
    } else {
        public_read || authenticated
    }
}

} // verus!
