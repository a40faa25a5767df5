//! What authenticates a session with the relay, and what may be published in it, said of documents
//! and events alone.

use vstd::prelude::*;
use crate::event::{self, EventError, EventView};
use crate::json::JsonView;
use crate::relay::{self, RelayAuthError, RelayEventError};
use crate::text;
use crate::text_laws;

verus! {

proof fn lemma_slashes(base: Seq<char>, n: nat)
    ensures
        text::without_trailing(base + text_laws::repeated('/', n), '/') == text::without_trailing(
            base,
            '/',
        ),
    decreases n,
{
    let whole = base + text_laws::repeated('/', n);
    if n == 0 {
        assert(whole =~= base);
    } else {
        lemma_slashes(base, (n - 1) as nat);
        assert(whole.last() == '/');
        assert(whole.drop_last() =~= base + text_laws::repeated('/', (n - 1) as nat));
    }
}

/// Two addresses are those of one relay exactly where both are one text followed by slashes, or by
/// none.
pub proof fn law_same_relay(left: Seq<char>, right: Seq<char>)
    ensures
        relay::same_relay(left, right) <==> exists|base: Seq<char>, n: nat, m: nat|
            left == #[trigger] (base + text_laws::repeated('/', n)) && right == #[trigger] (base
                + text_laws::repeated('/', m)),
{
    text_laws::law_without_trailing(left, '/');
    text_laws::law_without_trailing(right, '/');
    if exists|base: Seq<char>, n: nat, m: nat|
        left == #[trigger] (base + text_laws::repeated('/', n)) && right == #[trigger] (base
            + text_laws::repeated('/', m)) {
        let (base, n, m) = choose|base: Seq<char>, n: nat, m: nat|
            left == #[trigger] (base + text_laws::repeated('/', n)) && right == #[trigger] (base
                + text_laws::repeated('/', m));
        lemma_slashes(base, n);
        lemma_slashes(base, m);
    }
}

/// Whether the document of an event shows tags, as a list.
pub open spec fn shows_tags(json: JsonView, tags: Seq<JsonView>) -> bool {
    &&& json is Object
    &&& json->Object_0.contains_key("tags"@)
    &&& json->Object_0["tags"@] == JsonView::Array(tags)
}

/// Whether a tag is a list that begins with two texts.
pub open spec fn begins(tag: JsonView, name: Seq<char>, value: Seq<char>) -> bool {
    &&& tag is Array
    &&& tag->Array_0.len() >= 2
    &&& tag->Array_0[0] == JsonView::Text(name)
    &&& tag->Array_0[1] == JsonView::Text(value)
}

/// A document is that of a protected event exactly where it shows tags and one of them, at whatever
/// place, is the single text of a dash.
pub proof fn law_protected(json: JsonView)
    ensures
        relay::protected(json) <==> exists|tags: Seq<JsonView>, i: int|
            #![trigger shows_tags(json, tags), tags[i]]
            shows_tags(json, tags) && 0 <= i < tags.len() && tags[i] is Array
                && tags[i]->Array_0.len() == 1 && tags[i]->Array_0[0] == JsonView::Text("-"@),
{
    if relay::protected(json) {
        let tags = relay::tags_of(json)->0;
        let i = choose|i: int| 0 <= i < tags.len() && relay::is_dash(#[trigger] tags[i]);
        assert(shows_tags(json, tags));
        assert(tags[i]->Array_0.len() == 1);
    }
    if exists|tags: Seq<JsonView>, i: int|
        #![trigger shows_tags(json, tags), tags[i]]
        shows_tags(json, tags) && 0 <= i < tags.len() && tags[i] is Array && tags[i]->Array_0.len()
            == 1 && tags[i]->Array_0[0] == JsonView::Text("-"@) {
        let (tags, i) = choose|tags: Seq<JsonView>, i: int|
            #![trigger shows_tags(json, tags), tags[i]]
            shows_tags(json, tags) && 0 <= i < tags.len() && tags[i] is Array
                && tags[i]->Array_0.len() == 1 && tags[i]->Array_0[0] == JsonView::Text("-"@);
        assert(tags[i]->Array_0 =~= seq![JsonView::Text("-"@)]);
        assert(relay::is_dash(tags[i]));
    }
}

/// Where a document shows the tags that the author of an event signed, the event is protected exactly
/// where one of its tags, at whatever place, is a dash and nothing else.
pub proof fn law_protected_by_signed_tags(json: JsonView, signed: EventView)
    requires
        json is Object,
        json.get("tags"@) == Some(event::tags_json(signed.tags)),
    ensures
        relay::protected(json) <==> exists|i: int|
            0 <= i < signed.tags.len() && #[trigger] signed.tags[i] == seq!["-"@],
{
    let shown = event::tags_json(signed.tags)->Array_0;
    assert(shows_tags(json, shown));
    law_protected(json);
    if relay::protected(json) {
        let (tags, i) = choose|tags: Seq<JsonView>, i: int|
            #![trigger shows_tags(json, tags), tags[i]]
            shows_tags(json, tags) && 0 <= i < tags.len() && tags[i] is Array
                && tags[i]->Array_0.len() == 1 && tags[i]->Array_0[0] == JsonView::Text("-"@);
        event::law_tags_are_shown(signed.tags, i, 0);
        assert(signed.tags[i] =~= seq!["-"@]);
    }
    if exists|i: int| 0 <= i < signed.tags.len() && #[trigger] signed.tags[i] == seq!["-"@] {
        let i = choose|i: int| 0 <= i < signed.tags.len() && #[trigger] signed.tags[i]
            == seq!["-"@];
        event::law_tags_are_shown(signed.tags, i, 0);
        assert(shown[i]->Array_0[0] == JsonView::Text("-"@));
    }
}

/// The tags that a document shows are the list under `tags`; it shows none where it is no object, or
/// has no list there.
pub proof fn law_tags_of(json: JsonView, tags: Seq<JsonView>)
    ensures
        relay::tags_of(json) == Some(tags) <==> shows_tags(json, tags),
{
}

/// Some tag says a value of a name exactly where one of the tags, at whatever place, begins with the
/// two; and some tag names a relay exactly where one begins with `relay` and an address of it.
pub proof fn law_some_tag(
    tags: Seq<JsonView>,
    name: Seq<char>,
    value: Seq<char>,
    relay: Seq<char>,
)
    ensures
        relay::some_tag_says(tags, name, value) <==> exists|i: int|
            0 <= i < tags.len() && begins(#[trigger] tags[i], name, value),
        relay::some_tag_names_relay(tags, relay) <==> exists|i: int, address: Seq<char>|
            0 <= i < tags.len() && #[trigger] begins(tags[i], "relay"@, address)
                && relay::same_relay(address, relay),
{
    if relay::some_tag_says(tags, name, value) {
        let i = choose|i: int|
            0 <= i < tags.len() && relay::tag_says(#[trigger] tags[i], name, value);
        assert(begins(tags[i], name, value));
    }
    if exists|i: int| 0 <= i < tags.len() && begins(#[trigger] tags[i], name, value) {
        let i = choose|i: int| 0 <= i < tags.len() && begins(#[trigger] tags[i], name, value);
        assert(relay::tag_says(tags[i], name, value));
    }
    if relay::some_tag_names_relay(tags, relay) {
        let i = choose|i: int| 0 <= i < tags.len() && relay::tag_names_relay(#[trigger] tags[i], relay);
        assert(begins(tags[i], "relay"@, tags[i].text_at(1)->0));
    }
    if exists|i: int, address: Seq<char>|
        0 <= i < tags.len() && #[trigger] begins(tags[i], "relay"@, address) && relay::same_relay(
            address,
            relay,
        ) {
        let (i, address) = choose|i: int, address: Seq<char>|
            0 <= i < tags.len() && #[trigger] begins(tags[i], "relay"@, address)
                && relay::same_relay(address, relay);
        assert(relay::tag_names_relay(tags[i], relay));
    }
}

/// Whether tags name the challenge and, up to slashes at the end, the relay.
pub open spec fn bound_by(tags: Seq<JsonView>, challenge: Seq<char>, relay: Seq<char>) -> bool {
    &&& exists|i: int| 0 <= i < tags.len() && begins(#[trigger] tags[i], "challenge"@, challenge)
    &&& exists|i: int, address: Seq<char>|
        0 <= i < tags.len() && #[trigger] begins(tags[i], "relay"@, address) && relay::same_relay(
            address,
            relay,
        )
}

proof fn lemma_bound_by(tags: Seq<JsonView>, challenge: Seq<char>, relay: Seq<char>)
    ensures
        bound_by(tags, challenge, relay) <==> relay::some_tag_says(tags, "challenge"@, challenge)
            && relay::some_tag_names_relay(tags, relay),
{
    if relay::some_tag_says(tags, "challenge"@, challenge) {
        let i = choose|i: int|
            0 <= i < tags.len() && relay::tag_says(#[trigger] tags[i], "challenge"@, challenge);
        assert(begins(tags[i], "challenge"@, challenge));
    }
    if relay::some_tag_names_relay(tags, relay) {
        let i = choose|i: int| 0 <= i < tags.len() && relay::tag_names_relay(#[trigger] tags[i], relay);
        assert(begins(tags[i], "relay"@, tags[i].text_at(1)->0));
    }
    if bound_by(tags, challenge, relay) {
        let i = choose|i: int|
            0 <= i < tags.len() && begins(#[trigger] tags[i], "challenge"@, challenge);
        assert(relay::tag_says(tags[i], "challenge"@, challenge));
        let (j, address) = choose|i: int, address: Seq<char>|
            0 <= i < tags.len() && #[trigger] begins(tags[i], "relay"@, address)
                && relay::same_relay(address, relay);
        assert(relay::tag_names_relay(tags[j], relay));
    }
}

/// A document authenticates a session exactly where it is a verified event of kind 22242 without
/// content that shows tags with this challenge and this relay, and is dated at most a minute ahead
/// and at most ten minutes back. Where it does not, the first of these that fails is told.
pub proof fn law_relay_auth(
    json: JsonView,
    tags: Seq<JsonView>,
    challenge: Seq<char>,
    relay: Seq<char>,
    now: u64,
)
    ensures
        ({
            let outcome = relay::relay_auth(json, challenge, relay, now);
            let found = event::event_in_json(json);
            let event = found->0;
            let verified = found is Some && event::event_verified(event);
            let of_kind = event.kind == 22242 && event.content.len() == 0;
            let fresh = event.created_at <= now + 60 && now <= event.created_at + 600;
            &&& found is None <==> outcome == Err::<EventView, RelayAuthError>(
                RelayAuthError::Event(EventError::Malformed),
            )
            &&& found is Some && !verified <==> outcome == Err::<EventView, RelayAuthError>(
                RelayAuthError::Event(EventError::Unverified),
            )
            &&& verified && !of_kind <==> outcome == Err::<EventView, RelayAuthError>(
                RelayAuthError::KindOrContent,
            )
            &&& verified && of_kind && (forall|any: Seq<JsonView>| !shows_tags(json, any)) <==> outcome
                == Err::<EventView, RelayAuthError>(RelayAuthError::MissingTags)
            &&& verified && of_kind && shows_tags(json, tags) ==> {
                &&& !bound_by(tags, challenge, relay) <==> outcome == Err::<
                    EventView,
                    RelayAuthError,
                >(RelayAuthError::Unbound)
                &&& bound_by(tags, challenge, relay) && !fresh <==> outcome == Err::<
                    EventView,
                    RelayAuthError,
                >(RelayAuthError::Stale)
                &&& bound_by(tags, challenge, relay) && fresh <==> outcome == Ok::<
                    EventView,
                    RelayAuthError,
                >(event)
            }
        }),
{
    lemma_bound_by(tags, challenge, relay);
    if relay::tags_of(json) is Some {
        assert(shows_tags(json, relay::tags_of(json)->0));
    }
    if shows_tags(json, tags) {
        assert(relay::tags_of(json) == Some(tags));
    }
}

/// A document may be published exactly where it is a verified event and, where a key is
/// authenticated, an event of that key.
pub proof fn law_relay_event(json: JsonView, authenticated: Option<Seq<char>>)
    ensures
        ({
            let outcome = relay::relay_event(json, authenticated);
            let found = event::event_in_json(json);
            let verified = found is Some && event::event_verified(found->0);
            let own = authenticated is None || authenticated->0 == found->0.public_key;
            &&& found is None <==> outcome == Err::<EventView, RelayEventError>(
                RelayEventError::Event(EventError::Malformed),
            )
            &&& found is Some && !verified <==> outcome == Err::<EventView, RelayEventError>(
                RelayEventError::Event(EventError::Unverified),
            )
            &&& verified && !own <==> outcome == Err::<EventView, RelayEventError>(
                RelayEventError::OtherAuthor,
            )
            &&& verified && own <==> outcome == Ok::<EventView, RelayEventError>(found->0)
        }),
{
}

/// Publishing may always be tried; anything else exactly where reading is open to all or the session
/// is authenticated.
pub proof fn law_may_attempt(command: Option<Seq<char>>, public_read: bool, authenticated: bool)
    ensures
        command == Some("EVENT"@) ==> relay::may_attempt(command, public_read, authenticated),
        command != Some("EVENT"@) ==> (relay::may_attempt(command, public_read, authenticated)
            <==> public_read || authenticated),
{
}

/// Tags bind an event to a challenge and a relay exactly where one of them begins with the challenge
/// and one with an address of the relay.
pub proof fn law_binds(event: EventView, challenge: Seq<char>, relay: Seq<char>)
    ensures
        relay::binds(event, challenge, relay) <==> bound_by(
            event::tags_json(event.tags)->Array_0,
            challenge,
            relay,
        ),
{
    let shown = event::tags_json(event.tags)->Array_0;
    if relay::binds(event, challenge, relay) {
        let i = choose|i: int|
            0 <= i < event.tags.len() && (#[trigger] event.tags[i]).len() >= 2 && event.tags[i][0]
                == "challenge"@ && event.tags[i][1] == challenge;
        assert(begins(shown[i], "challenge"@, challenge));
        let j = choose|i: int|
            0 <= i < event.tags.len() && (#[trigger] event.tags[i]).len() >= 2 && event.tags[i][0]
                == "relay"@ && relay::same_relay(event.tags[i][1], relay);
        assert(begins(shown[j], "relay"@, event.tags[j][1]));
    }
    if bound_by(shown, challenge, relay) {
        let i = choose|i: int| 0 <= i < shown.len() && begins(#[trigger] shown[i], "challenge"@, challenge);
        assert(event.tags[i].len() >= 2);
        let (j, address) = choose|i: int, address: Seq<char>|
            0 <= i < shown.len() && #[trigger] begins(shown[i], "relay"@, address)
                && relay::same_relay(address, relay);
        assert(event.tags[j].len() >= 2);
        assert(event.tags[j][1] == address);
    }
}

/// An answer names an event exactly where it gives the event's identifier and then its author; an
/// error is answered by that error alone.
pub proof fn law_names_event(
    answer: Result<(String, String), RelayAuthError>,
    event: EventView,
    fault: RelayAuthError,
)
    ensures
        relay::names_event(answer, Ok(event)) <==> answer is Ok && ({
            let names = answer->Ok_0;
            names.0@ == event.id && names.1@ == event.public_key
        }),
        relay::names_event(answer, Err(fault)) <==> answer == Err::<
            (String, String),
            RelayAuthError,
        >(fault),
{
}

} // verus!
