//! Authorization of requests to the media store: which event a request shows, and what the event
//! allows.

use vstd::prelude::*;
use axum::http::HeaderMap;
use crate::encoding;
use crate::event::{self, EventError, EventFields};
use crate::headers;
use crate::json::{self, Json, JsonView};
use crate::relay;
use crate::text;

verus! {

/// The kind of the event that authorizes a request.
pub const BLOSSOM_AUTH_KIND: u16 = 24_242;

/// How far in the future an authorization may be dated, in seconds.
pub const MAX_AHEAD_SECONDS: u64 = 60;

/// A hexadecimal digit in lower case.
pub open spec fn is_lower_hex(c: char) -> bool {
    '0' <= c <= '9' || 'a' <= c <= 'f'
}

/// The hexadecimal text of a SHA-256 hash, in lower case.
pub open spec fn is_hash(value: Seq<char>) -> bool {
    value.len() == 64 && forall|i: int| 0 <= i < value.len() ==> is_lower_hex(#[trigger] value[i])
}

/// Whether a text is that of a SHA-256 hash, in lower case.
pub fn valid_sha256(value: &str) -> (r: bool)
    ensures
        r == is_hash(value@),
{
    let all = text::chars(value);
    if all.len() != 64 {
        return false;
    }
    let mut i: usize = 0;
    while i < all.len()
        invariant
            all@ == value@,
            i <= all@.len(),
            forall|j: int| 0 <= j < i ==> is_lower_hex(#[trigger] value@[j]),
        decreases all@.len() - i,
    {
        let c = all[i];
        if !('0' <= c && c <= '9' || 'a' <= c && c <= 'f') {
            assert(!is_lower_hex(value@[i as int]));
            return false;
        }
        i += 1;
    }
    true
}

/// The hash of the blob that a path names: what stands between the leading slash and the first dot,
/// where that is a hash.
pub open spec fn hash_in_path(path: Seq<char>) -> Option<Seq<char>> {
    if path.len() > 0 && path[0] == '/' && is_hash(text::before(path.drop_first(), '.')) {
        Some(text::before(path.drop_first(), '.'))
    } else {
        None
    }
}

/// The hash of the blob that a path names.
pub fn blossom_hash_from_path(path: &str) -> (r: Option<String>)
    ensures
        text::optional_string(r) == hash_in_path(path@),
{
    let all = text::chars(path);
    if all.len() == 0 || all[0] != '/' {
        return None;
    }
    let rest = path.substring_char(1, all.len());
    assert(rest@ =~= path@.drop_first());
    let value = text::text_before(rest, '.');
    if valid_sha256(value) {
        Some(value.to_owned())
    } else {
        None
    }
}

/// The parts of an address that decisions are made on.
#[derive(Debug)]
pub struct ParsedUrl {
    pub scheme: String,
    pub host: Option<String>,
}

/// What an address says.
pub struct UrlView {
    pub scheme: Seq<char>,
    pub host: Option<Seq<char>>,
}

impl View for ParsedUrl {
    type V = UrlView;

    open spec fn view(&self) -> UrlView {
        UrlView { scheme: self.scheme@, host: text::optional_string(self.host) }
    }
}

/// What `reqwest::Url::parse` finds in a text; `None` where it is no address.
pub uninterp spec fn url_in_text(text: Seq<char>) -> Option<UrlView>;

/// `reqwest::Url::parse`, with `Url::scheme` and `Url::host_str`: whether the text is an address, and
/// which, depends on the text alone.
#[verifier::external_body]
pub(crate) fn parse_url(text: &str) -> (r: Option<ParsedUrl>)
    ensures
        r is Some ==> url_in_text(text@) == Some(r->0@),
        r is None ==> url_in_text(text@) is None,
{
    let url = reqwest::Url::parse(text).ok()?;
    Some(
        ParsedUrl {
            scheme: url.scheme().to_owned(),
            host: url.host_str().map(str::to_owned),
        },
    )
}

/// The host that a server names: that of its address where it gives one, and else what stands before
/// the first slash and the first colon.
pub open spec fn host_of(server: Seq<char>) -> Option<Seq<char>> {
    if text::occurs("://"@, server) {
        match url_in_text(server) {
            Some(url) => url.host,
            None => None,
        }
    } else {
        Some(text::before(text::before(server, '/'), ':'))
    }
}

/// Whether two servers name one host, whatever the case.
pub open spec fn same_server(server: Seq<char>, expected: Seq<char>) -> bool {
    &&& host_of(server) is Some
    &&& host_of(expected) is Some
    &&& text::equal_ignoring_case(host_of(server)->0, host_of(expected)->0)
}

fn hostname(value: &str) -> (r: Option<String>)
    ensures
        text::optional_string(r) == host_of(value@),
{
    if text::contains_text(value, "://") {
        match parse_url(value) {
            Some(url) => url.host,
            None => None,
        }
    } else {
        Some(text::text_before(text::text_before(value, '/'), ':').to_owned())
    }
}

/// Whether two optional hosts are there and the same, whatever the case.
pub fn hosts_match(host: Option<&str>, expected: Option<&str>) -> (r: bool)
    ensures
        r == (host is Some && expected is Some && text::equal_ignoring_case(
            host->0@,
            expected->0@,
        )),
{
    match (host, expected) {
        (Some(host), Some(expected)) => text::same_ignoring_case(host, expected),
        _ => false,
    }
}

/// Whether two servers name one host, whatever the case.
pub fn blossom_server_matches(server: &str, expected_server: &str) -> (r: bool)
    ensures
        r == same_server(server@, expected_server@),
{
    let host = hostname(server);
    let expected = hostname(expected_server);
    hosts_match(text::as_optional(&host), text::as_optional(&expected))
}

/// The value of a tag with a name: the text that follows the name.
pub open spec fn tag_value(tag: JsonView, name: Seq<char>) -> Option<Seq<char>> {
    if tag.text_at(0) == Some(name) {
        tag.text_at(1)
    } else {
        None
    }
}

/// The values of the tags with a name, in order.
pub open spec fn tag_values(tags: Seq<JsonView>, name: Seq<char>) -> Seq<Seq<char>>
    decreases tags.len(),
{
    if tags.len() == 0 {
        Seq::empty()
    } else {
        let front = tag_values(tags.drop_last(), name);
        match tag_value(tags.last(), name) {
            Some(value) => front.push(value),
            None => front,
        }
    }
}

/// The first of some texts that is a number.
pub open spec fn first_number(values: Seq<Seq<char>>) -> Option<u64>
    decreases values.len(),
{
    if values.len() == 0 {
        None
    } else {
        match text::decimal_u64(values[0]) {
            Some(number) => Some(number),
            None => first_number(values.drop_first()),
        }
    }
}

/// Those of some texts that are hashes, in order.
pub open spec fn hashes_among(values: Seq<Seq<char>>) -> Seq<Seq<char>>
    decreases values.len(),
{
    if values.len() == 0 {
        Seq::empty()
    } else {
        let front = hashes_among(values.drop_last());
        if is_hash(values.last()) {
            front.push(values.last())
        } else {
            front
        }
    }
}

/// Whether some server names the host of an expected one.
pub open spec fn some_server_matches(servers: Seq<Seq<char>>, expected: Seq<char>) -> bool {
    exists|i: int| 0 <= i < servers.len() && same_server(#[trigger] servers[i], expected)
}

/// What a request has to be authorized for.
pub struct DemandView {
    pub action: Option<Seq<char>>,
    pub server: Seq<char>,
    pub hash: Option<Seq<char>>,
    pub hash_required: bool,
}

/// What is wrong with tags as the authorization of a request at `now`; `None` where nothing is.
pub open spec fn tags_fault(tags: Seq<JsonView>, demand: DemandView, now: u64) -> Option<
    Seq<char>,
> {
    let expiration = first_number(tag_values(tags, "expiration"@));
    let actions = tag_values(tags, "t"@);
    let servers = tag_values(tags, "server"@);
    let hashes = hashes_among(tag_values(tags, "x"@));
    if expiration is None {
        Some("missing Blossom authorization expiration"@)
    } else if expiration->0 <= now {
        Some("expired Blossom authorization"@)
    } else if actions.len() == 0 {
        Some("missing Blossom authorization action"@)
    } else if demand.action is Some && actions[0] != demand.action->0 {
        Some("Blossom authorization action does not match request"@)
    } else if servers.len() > 0 && !some_server_matches(servers, demand.server) {
        Some("Blossom authorization server does not match request"@)
    } else if demand.hash_required && hashes.len() == 0 {
        Some("missing Blossom authorization hash"@)
    } else if demand.hash is Some && hashes.len() > 0 && !hashes.contains(demand.hash->0) {
        Some("Blossom authorization hash does not match request"@)
    } else {
        None
    }
}

/// What is wrong with a verified event and its document, where it has one, as the authorization of a
/// request at `now`; `None` where nothing is.
pub open spec fn authorization_fault(
    kind: u16,
    created_at: u64,
    document: Option<JsonView>,
    demand: DemandView,
    now: u64,
) -> Option<Seq<char>> {
    if kind != BLOSSOM_AUTH_KIND {
        Some("invalid Blossom authorization kind"@)
    } else if created_at > now + MAX_AHEAD_SECONDS {
        Some("Blossom authorization was created too far in the future"@)
    } else if document is None {
        Some("invalid Blossom authorization event"@)
    } else if relay::tags_of(document->0) is None {
        Some("missing Blossom authorization tags"@)
    } else {
        tags_fault(relay::tags_of(document->0)->0, demand, now)
    }
}

/// The base64 that a request shows as its authorization.
pub open spec fn shown_authorization(field: Option<Seq<char>>) -> Result<Seq<char>, Seq<char>> {
    let words = text::words(field->0);
    if field is None || words.len() < 2 {
        Err("missing Blossom Nostr authorization"@)
    } else if !text::equal_ignoring_case(words[0], "nostr"@) || words.len() > 2 {
        Err("invalid Blossom authorization scheme"@)
    } else {
        Ok(words[1])
    }
}

/// The key that authorized a request, and the hashes that it named.
#[derive(Debug)]
pub struct BlossomAuthorization {
    pub public_key: String,
    pub hashes: Vec<String>,
}

/// What an authorization says.
pub struct BlossomAuthorizationView {
    pub public_key: Seq<char>,
    pub hashes: Seq<Seq<char>>,
}

impl View for BlossomAuthorization {
    type V = BlossomAuthorizationView;

    open spec fn view(&self) -> BlossomAuthorizationView {
        BlossomAuthorizationView {
            public_key: self.public_key@,
            hashes: self.hashes.deep_view(),
        }
    }
}

/// What the bytes that a request shows are worth as its authorization at `now`.
pub open spec fn payload_authorization(payload: Seq<u8>, demand: DemandView, now: u64) -> Result<
    BlossomAuthorizationView,
    Seq<char>,
> {
    let document = json::json_in_bytes(payload);
    match event::event_in_bytes(payload) {
        None => Err("invalid Blossom authorization event"@),
        Some(found) => if !event::event_verified(found) {
            Err("invalid Blossom authorization signature"@)
        } else {
            match authorization_fault(found.kind, found.created_at, document, demand, now) {
                Some(fault) => Err(fault),
                None => Ok(
                    BlossomAuthorizationView {
                        public_key: found.public_key,
                        hashes: hashes_among(
                            tag_values(relay::tags_of(document->0)->0, "x"@),
                        ),
                    },
                ),
            }
        },
    }
}

/// What the authorization field of a request is worth at `now`.
pub open spec fn authorization(field: Option<Seq<char>>, demand: DemandView, now: u64) -> Result<
    BlossomAuthorizationView,
    Seq<char>,
> {
    match shown_authorization(field) {
        Err(fault) => Err(fault),
        Ok(encoded) => match encoding::base64_bytes(encoded) {
            None => Err("invalid Blossom authorization encoding"@),
            Some(payload) => payload_authorization(payload, demand, now),
        },
    }
}

/// Whether an outcome is the expected one.
pub open spec fn agrees(
    outcome: Result<BlossomAuthorization, &'static str>,
    expected: Result<BlossomAuthorizationView, Seq<char>>,
) -> bool {
    match (outcome, expected) {
        (Ok(found), Ok(view)) => found@ == view,
        (Err(message), Err(fault)) => message@ == fault,
        _ => false,
    }
}

/// The values of the tags with a name, in order.
fn values_with<'a>(tags: &'a Vec<Json>, name: &str) -> (r: Vec<&'a str>)
    ensures
        r.deep_view() == tag_values(json::items_view(tags@), name@),
{
    let ghost shown = json::items_view(tags@);
    proof {
        json::lemma_items_view(tags@);
    }
    let mut values: Vec<&str> = Vec::new();
    let mut i: usize = 0;
    assert(values.deep_view() =~= tag_values(shown.take(0), name@));
    while i < tags.len()
        invariant
            i <= tags@.len(),
            shown.len() == tags@.len(),
            forall|j: int| 0 <= j < tags@.len() ==> #[trigger] shown[j] == tags@[j]@,
            values.deep_view() == tag_values(shown.take(i as int), name@),
        decreases tags@.len() - i,
    {
        assert(shown[i as int] == tags@[i as int]@);
        assert(shown.take(i + 1).drop_last() =~= shown.take(i as int));
        if text::is_text(tags[i].text_at(0), name) {
            if let Some(value) = tags[i].text_at(1) {
                let ghost earlier = values.deep_view();
                values.push(value);
                assert(values.deep_view() =~= earlier.push(value@));
            }
        }
        i += 1;
    }
    assert(shown.take(i as int) =~= shown);
    values
}

fn number_among(values: &Vec<&str>) -> (r: Option<u64>)
    ensures
        r == first_number(values.deep_view()),
{
    let ghost all = values.deep_view();
    let mut i: usize = 0;
    assert(all.skip(0) =~= all);
    while i < values.len()
        invariant
            i <= values@.len(),
            all == values.deep_view(),
            first_number(all) == first_number(all.skip(i as int)),
        decreases values@.len() - i,
    {
        assert(all[i as int] == values@[i as int]@);
        assert(all.skip(i as int).drop_first() =~= all.skip(i + 1));
        if let Some(number) = text::parse_u64(values[i]) {
            return Some(number);
        }
        i += 1;
    }
    None
}

fn valid_hashes(values: &Vec<&str>) -> (r: Vec<String>)
    ensures
        r.deep_view() == hashes_among(values.deep_view()),
{
    let ghost all = values.deep_view();
    let mut hashes: Vec<String> = Vec::new();
    let mut i: usize = 0;
    assert(hashes.deep_view() =~= hashes_among(all.take(0)));
    while i < values.len()
        invariant
            i <= values@.len(),
            all == values.deep_view(),
            hashes.deep_view() == hashes_among(all.take(i as int)),
        decreases values@.len() - i,
    {
        assert(all[i as int] == values@[i as int]@);
        assert(all.take(i + 1).drop_last() =~= all.take(i as int));
        if valid_sha256(values[i]) {
            let ghost earlier = hashes.deep_view();
            hashes.push(values[i].to_owned());
            assert(hashes.deep_view() =~= earlier.push(all[i as int]));
        }
        i += 1;
    }
    assert(all.take(i as int) =~= all);
    hashes
}

fn any_server_matches(servers: &Vec<&str>, expected: &str) -> (r: bool)
    ensures
        r == some_server_matches(servers.deep_view(), expected@),
{
    let mut i: usize = 0;
    while i < servers.len()
        invariant
            i <= servers@.len(),
            forall|j: int|
                0 <= j < i ==> !same_server(#[trigger] servers.deep_view()[j], expected@),
        decreases servers@.len() - i,
    {
        assert(servers.deep_view()[i as int] == servers@[i as int]@);
        if blossom_server_matches(servers[i], expected) {
            return true;
        }
        i += 1;
    }
    false
}

fn lists_hash(hashes: &Vec<String>, expected: &str) -> (r: bool)
    ensures
        r == hashes.deep_view().contains(expected@),
{
    let mut i: usize = 0;
    while i < hashes.len()
        invariant
            i <= hashes@.len(),
            forall|j: int| 0 <= j < i ==> #[trigger] hashes.deep_view()[j] != expected@,
        decreases hashes@.len() - i,
    {
        assert(hashes.deep_view()[i as int] == hashes@[i as int]@);
        if text::same(hashes[i].as_str(), expected) {
            return true;
        }
        i += 1;
    }
    false
}

/// What a request has to be authorized for.
#[derive(Debug, Clone, Copy)]
pub struct Demand<'a> {
    /// The action that the authorization has to be for, where one is expected.
    pub action: Option<&'a str>,
    /// The server that it has to be for, where it names any.
    pub server: &'a str,
    /// The hash that it has to name, where it names any.
    pub hash: Option<&'a str>,
    /// Whether it has to name a hash.
    pub hash_required: bool,
}

impl<'a> View for Demand<'a> {
    type V = DemandView;

    open spec fn view(&self) -> DemandView {
        DemandView {
            action: text::optional(self.action),
            server: self.server@,
            hash: text::optional(self.hash),
            hash_required: self.hash_required,
        }
    }
}

fn check_tags(tags: &Vec<Json>, demand: &Demand<'_>, now: u64) -> (r: Result<
    Vec<String>,
    &'static str,
>)
    ensures
        match tags_fault(json::items_view(tags@), demand@, now) {
            Some(fault) => r is Err && r->Err_0@ == fault,
            None => r is Ok && r->Ok_0.deep_view() == hashes_among(
                tag_values(json::items_view(tags@), "x"@),
            ),
        },
{
    match number_among(&values_with(tags, "expiration")) {
        Some(expiration) => if expiration <= now {
            return Err("expired Blossom authorization");
        },
        None => {
            return Err("missing Blossom authorization expiration");
        },
    }
    let actions = values_with(tags, "t");
    assert(actions.deep_view().len() == actions@.len());
    if actions.len() == 0 {
        return Err("missing Blossom authorization action");
    }
    assert(actions.deep_view()[0] == actions@[0]@);
    if let Some(expected) = demand.action {
        if !text::same(actions[0], expected) {
            return Err("Blossom authorization action does not match request");
        }
    }
    let servers = values_with(tags, "server");
    assert(servers.deep_view().len() == servers@.len());
    if servers.len() > 0 && !any_server_matches(&servers, demand.server) {
        return Err("Blossom authorization server does not match request");
    }
    let hashes = valid_hashes(&values_with(tags, "x"));
    assert(hashes.deep_view().len() == hashes@.len());
    if demand.hash_required && hashes.len() == 0 {
        return Err("missing Blossom authorization hash");
    }
    if let Some(expected) = demand.hash {
        if hashes.len() > 0 && !lists_hash(&hashes, expected) {
            return Err("Blossom authorization hash does not match request");
        }
    }
    Ok(hashes)
}

/// What is wrong, at `now`, with a verified event and its document, where it has one, as the
/// authorization of a request: a message; and the hashes that it names where nothing is.
pub fn check_blossom_authorization(
    event: &EventFields,
    document: Option<&Json>,
    demand: &Demand<'_>,
    now: u64,
) -> (r: Result<Vec<String>, &'static str>)
    ensures
        ({
            let shown = match document {
                Some(json) => Some(json@),
                None => None,
            };
            match authorization_fault(event.kind, event.created_at, shown, demand@, now) {
                Some(fault) => r is Err && r->Err_0@ == fault,
                None => r is Ok && r->Ok_0.deep_view() == hashes_among(
                    tag_values(relay::tags_of(shown->0)->0, "x"@),
                ),
            }
        }),
{
    if event.kind != BLOSSOM_AUTH_KIND {
        return Err("invalid Blossom authorization kind");
    }
    if event.created_at > now.saturating_add(MAX_AHEAD_SECONDS) {
        return Err("Blossom authorization was created too far in the future");
    }
    let json = match document {
        Some(json) => json,
        None => {
            return Err("invalid Blossom authorization event");
        },
    };
    match json.get("tags") {
        Some(tags) => match tags.as_array() {
            Some(items) => check_tags(items, demand, now),
            None => Err("missing Blossom authorization tags"),
        },
        None => Err("missing Blossom authorization tags"),
    }
}

fn encoded_authorization(headers: &HeaderMap) -> (r: Result<&str, &'static str>)
    ensures
        match shown_authorization(
            headers::text_of(headers::header_values(*headers), "authorization"@),
        ) {
            Ok(encoded) => r is Ok && r->Ok_0@ == encoded,
            Err(fault) => r is Err && r->Err_0@ == fault,
        },
{
    proof {
        reveal_strlit("authorization");
    }
    let field = match headers::header_text(headers, "authorization") {
        Some(field) => field,
        None => {
            return Err("missing Blossom Nostr authorization");
        },
    };
    let words = text::split_words(field);
    assert(words.deep_view().len() == words@.len());
    if words.len() < 2 {
        return Err("missing Blossom Nostr authorization");
    }
    assert(words.deep_view()[0] == words@[0]@);
    assert(words.deep_view()[1] == words@[1]@);
    if !text::same_ignoring_case(words[0], "nostr") || words.len() > 2 {
        return Err("invalid Blossom authorization scheme");
    }
    Ok(words[1])
}

/// The tags that the document in the bytes shows are those that the author of the event signed.
pub open spec fn shows_signed_tags(payload: Seq<u8>) -> bool {
    let tags = event::event_in_bytes(payload)->0.tags;
    &&& event::event_in_bytes(payload) is Some
    &&& json::json_in_bytes(payload) is Some
    &&& relay::tags_of(json::json_in_bytes(payload)->0) == event::tags_json(tags).items()
}

fn check_payload(payload: &[u8], demand: &Demand<'_>, now: u64) -> (r: Result<
    BlossomAuthorization,
    &'static str,
>)
    ensures
        agrees(r, payload_authorization(payload@, demand@, now)),
        r is Ok ==> shows_signed_tags(payload@),
{
    let event = match event::signed_event_in_bytes(payload) {
        Ok(event) => event,
        Err(EventError::Malformed) => {
            return Err("invalid Blossom authorization event");
        },
        Err(EventError::Unverified) => {
            return Err("invalid Blossom authorization signature");
        },
    };
    let document = Json::parse_bytes(payload);
    let shown = match &document {
        Some(json) => Some(json),
        None => None,
    };
    match check_blossom_authorization(&event, shown, demand, now) {
        Ok(hashes) => Ok(BlossomAuthorization { public_key: event.public_key, hashes }),
        Err(message) => Err(message),
    }
}

/// Whether the fields of a request authorize it at `now`: by which key and for which hashes, or else
/// a message. What the event says is what its author signed.
pub fn blossom_authorization_at(
    headers: &HeaderMap,
    expected_action: Option<&str>,
    expected_server: &str,
    expected_hash: Option<&str>,
    require_hash: bool,
    now: u64,
) -> (r: Result<BlossomAuthorization, &'static str>)
    ensures
        ({
            let field = headers::text_of(headers::header_values(*headers), "authorization"@);
            let demand = DemandView {
                action: text::optional(expected_action),
                server: expected_server@,
                hash: text::optional(expected_hash),
                hash_required: require_hash,
            };
            &&& agrees(r, authorization(field, demand, now))
            &&& r is Ok ==> shows_signed_tags(
                encoding::base64_bytes(shown_authorization(field)->Ok_0)->0,
            )
        }),
{
    let encoded = match encoded_authorization(headers) {
        Ok(encoded) => encoded,
        Err(message) => {
            return Err(message);
        },
    };
    let payload = match encoding::decode_blossom_authorization(encoded) {
        Some(payload) => payload,
        None => {
            return Err("invalid Blossom authorization encoding");
        },
    };
    let demand = Demand {
        action: expected_action,
        server: expected_server,
        hash: expected_hash,
        hash_required: require_hash,
    };
    check_payload(payload.as_slice(), &demand, now)
}

/// Whether the fields of a request authorize it now, by the clock of the machine.
pub fn blossom_authorization(
    headers: &HeaderMap,
    expected_action: Option<&str>,
    expected_server: &str,
    expected_hash: Option<&str>,
    require_hash: bool,
) -> (r: Result<BlossomAuthorization, &'static str>)
    ensures
        ({
            let field = headers::text_of(headers::header_values(*headers), "authorization"@);
            let demand = DemandView {
                action: text::optional(expected_action),
                server: expected_server@,
                hash: text::optional(expected_hash),
                hash_required: require_hash,
            };
            &&& exists|now: u64| agrees(r, #[trigger] authorization(field, demand, now))
            &&& r is Ok ==> shows_signed_tags(
                encoding::base64_bytes(shown_authorization(field)->Ok_0)->0,
            )
        }),
{
    let now = event::now();
    blossom_authorization_at(
        headers,
        expected_action,
        expected_server,
        expected_hash,
        require_hash,
        now,
    )
}

} // verus!
