//! Which service a request is for, and which part of it.

use vstd::prelude::*;
use axum::http::HeaderMap;
use crate::headers;
use crate::information;
use crate::json::{self, Json, JsonView};
use crate::proxy::{Answer, AnswerView};
use crate::text;

verus! {

/// The service that a request is for.
#[derive(Debug, Clone, Copy, PartialEq, Eq, Structural)]
pub enum Service {
    Relay,
    Blossom,
    Unknown,
}

/// The name of the host that a request is for, without a port; empty where it names none.
pub open spec fn hostname(host: Option<Seq<char>>) -> Seq<char> {
    match host {
        Some(host) => text::before(host, ':'),
        None => Seq::empty(),
    }
}

/// The service that has a host name. Where both have one name, it is the relay's.
pub open spec fn service_at(hostname: Seq<char>, relay: Seq<char>, blossom: Seq<char>) -> Service {
    if hostname == relay {
        Service::Relay
    } else if hostname == blossom {
        Service::Blossom
    } else {
        Service::Unknown
    }
}

/// The service that a request is for, by its host.
pub fn route_request(headers: &HeaderMap, relay_hostname: &str, blossom_hostname: &str) -> (r:
    Service)
    ensures
        r == service_at(
            hostname(headers::text_of(headers::header_values(*headers), "host"@)),
            relay_hostname@,
            blossom_hostname@,
        ),
{
    proof {
        reveal_strlit("host");
        reveal_strlit("");
        assert(""@ =~= Seq::<char>::empty());
    }
    let name = match headers::header_text(headers, "host") {
        Some(host) => text::text_before(host, ':'),
        None => "",
    };
    if text::same(name, relay_hostname) {
        Service::Relay
    } else if text::same(name, blossom_hostname) {
        Service::Blossom
    } else {
        Service::Unknown
    }
}

/// The answer to a request for no service.
pub fn unknown_service() -> (r: Answer)
    ensures
        r@ == (AnswerView { status: 404, text: "unknown Drum service"@ }),
{
    Answer { status: 404, text: "unknown Drum service" }
}

/// Whether a request turns its connection into a WebSocket.
pub open spec fn upgrades(upgrade: Option<Seq<char>>) -> bool {
    upgrade is Some && text::equal_ignoring_case(upgrade->0, "websocket"@)
}

/// Whether a request turns its connection into a WebSocket.
pub fn is_websocket_upgrade(headers: &HeaderMap) -> (r: bool)
    ensures
        r == upgrades(headers::text_of(headers::header_values(*headers), "upgrade"@)),
{
    proof {
        reveal_strlit("upgrade");
    }
    match headers::header_text(headers, "upgrade") {
        Some(upgrade) => text::same_ignoring_case(upgrade, "websocket"),
        None => false,
    }
}

/// What a request to the relay is for.
#[derive(Debug, Clone, Copy, PartialEq, Eq, Structural)]
pub enum RelayRoute {
    /// A session over a WebSocket.
    Session,
    /// The document in which the relay describes itself.
    Information,
    /// Anything else, which the relay answers.
    Proxy,
}

/// What a request to the relay is for, by its method, its path and two of its fields.
pub open spec fn relay_route(
    method: Seq<char>,
    path: Seq<char>,
    upgrade: Option<Seq<char>>,
    accept: Option<Seq<char>>,
) -> RelayRoute {
    if upgrades(upgrade) {
        RelayRoute::Session
    } else if information::asks_for_information(method, path, accept) {
        RelayRoute::Information
    } else {
        RelayRoute::Proxy
    }
}

/// What a request to the relay is for.
pub fn relay_request(method: &str, path: &str, headers: &HeaderMap) -> (r: RelayRoute)
    ensures
        r == relay_route(
            method@,
            path@,
            headers::text_of(headers::header_values(*headers), "upgrade"@),
            headers::text_of(headers::header_values(*headers), "accept"@),
        ),
{
    if is_websocket_upgrade(headers) {
        RelayRoute::Session
    } else if information::is_relay_information_request(method, path, headers) {
        RelayRoute::Information
    } else {
        RelayRoute::Proxy
    }
}

/// What the gateway says of itself: that it is up, and which build it is.
pub open spec fn health_json(build: Seq<char>) -> JsonView {
    JsonView::Object(
        Map::empty().insert("status"@, JsonView::Text("ok"@)).insert(
            "build"@,
            JsonView::Text(build),
        ),
    )
}

/// What the gateway says of itself, in JSON.
pub fn health(build: &str) -> (r: Vec<u8>)
    ensures
        r@ == json::json_bytes(health_json(build@)),
        json::json_in_bytes(r@) == Some(health_json(build@)),
{
    let mut fields: Vec<(String, Json)> = Vec::new();
    json::set_field(&mut fields, "status", Json::Text("ok".to_owned()));
    json::set_field(&mut fields, "build", Json::Text(build.to_owned()));
    proof {
        reveal_with_fuel(json::reads_back, 2);
        reveal_strlit("status");
        reveal_strlit("build");
        json::lemma_raw_value_key();
        assert("status"@.len() != 30 && "build"@.len() != 30);
    }
    Json::Object(fields).to_bytes()
}

} // verus!
