//! Which fields of requests and responses go on, where requests go, and which service they are for.

use vstd::prelude::*;
use crate::api;
use crate::headers::{self, HeaderRule};
use crate::information;
use crate::json::{self, JsonView};
use crate::proxy::{self, BufferedUpstreamResponse, GatewayResponse, UpstreamRequest};
use crate::route::{self, RelayRoute, Service};
use crate::text;
use crate::text_laws;

verus! {

/// The names of the fields that concern a single connection, in whatever case.
pub open spec fn names_the_connection(name: Seq<char>) -> bool {
    ||| text::equal_ignoring_case(name, "connection"@)
    ||| text::equal_ignoring_case(name, "keep-alive"@)
    ||| text::equal_ignoring_case(name, "proxy-authenticate"@)
    ||| text::equal_ignoring_case(name, "proxy-authorization"@)
    ||| text::equal_ignoring_case(name, "te"@)
    ||| text::equal_ignoring_case(name, "trailer"@)
    ||| text::equal_ignoring_case(name, "transfer-encoding"@)
    ||| text::equal_ignoring_case(name, "upgrade"@)
}

/// A name is that of a field that concerns a single connection exactly where it is, in whatever case,
/// one of eight.
pub proof fn law_names_of_the_connection(name: Seq<char>)
    ensures
        headers::hop_by_hop(name) <==> names_the_connection(name),
{
}

/// A request goes on with every field that it has, with all its values, but for those that concern a
/// single connection, its host, and, without its body, the length of the body; and with no other
/// field.
pub proof fn law_fields_of_a_request(
    from: Map<Seq<char>, Seq<Seq<u8>>>,
    forwards_body: bool,
    name: Seq<char>,
)
    ensures
        ({
            let sent = headers::merged(
                headers::no_fields(),
                from,
                HeaderRule::Request { forwards_body },
            );
            &&& sent.contains_key(name) <==> from.contains_key(name) && !names_the_connection(name)
                && name != "host"@ && (forwards_body || name != "content-length"@)
            &&& sent.contains_key(name) ==> sent[name] == from[name]
        }),
{
    assert(Seq::<Seq<u8>>::empty() + headers::values_of(from, name) =~= headers::values_of(
        from,
        name,
    ));
}

/// A response gets every value of every field of another but for those that concern a single
/// connection, after the values that it has of that name, and keeps everything else as it is.
pub proof fn law_fields_of_a_response(
    into: Map<Seq<char>, Seq<Seq<u8>>>,
    from: Map<Seq<char>, Seq<Seq<u8>>>,
    name: Seq<char>,
)
    ensures
        ({
            let both = headers::merged(into, from, HeaderRule::Response);
            let passes = from.contains_key(name) && !names_the_connection(name);
            &&& both.contains_key(name) <==> into.contains_key(name) || passes
            &&& into.contains_key(name) && !passes ==> both[name] == into[name]
            &&& !into.contains_key(name) && passes ==> both[name] == from[name]
            &&& into.contains_key(name) && passes ==> both[name] == into[name] + from[name]
        }),
{
    assert(Seq::<Seq<u8>>::empty() + headers::values_of(from, name) =~= headers::values_of(
        from,
        name,
    ));
    assert(headers::values_of(into, name) + Seq::<Seq<u8>>::empty() =~= headers::values_of(
        into,
        name,
    ));
}

/// A response that is streamed on has the first value of every field but for those that concern a
/// single connection, and nothing else.
pub proof fn law_fields_of_a_stream(
    streamed: Map<Seq<char>, Seq<Seq<u8>>>,
    from: Map<Seq<char>, Seq<Seq<u8>>>,
    name: Seq<char>,
)
    requires
        headers::streams(streamed, from),
    ensures
        streamed.contains_key(name) <==> from.contains_key(name) && !names_the_connection(name),
        streamed.contains_key(name) ==> streamed[name].len() == 1 && streamed[name][0]
            == from[name][0],
{
}

/// A field reads as a text exactly where it is there and its first value is all visible ASCII, spaces
/// and tabs; then the text has that value's bytes for its characters.
pub proof fn law_text_of(
    values: Map<Seq<char>, Seq<Seq<u8>>>,
    name: Seq<char>,
)
    ensures
        ({
            let read = headers::text_of(values, name);
            let first = values[name][0];
            &&& read is Some <==> values.contains_key(name) && forall|i: int|
                0 <= i < first.len() ==> (32 <= #[trigger] first[i] <= 126 || first[i] == 9)
            &&& read is Some ==> read->0.len() == first.len() && forall|i: int|
                0 <= i < first.len() ==> (#[trigger] read->0[i]) as u32 == first[i]
        }),
{
}

/// A request goes on with its body unless it gets something, or only its fields.
pub proof fn law_forwards(method: Seq<char>)
    ensures
        proxy::forwards(method) <==> !(method == "GET"@ || method == "HEAD"@),
{
}

/// A path is asked for right behind the address of the upstream server, with one slash between,
/// however many slashes the address ends in; without a path, the slash alone.
pub proof fn law_upstream_address(base: Seq<char>, slashes: nat, path: Seq<char>)
    requires
        base.len() > 0 ==> base.last() != '/',
    ensures
        ({
            let upstream = base + text_laws::repeated('/', slashes);
            &&& proxy::upstream_address(upstream, Some(path)) == base + path
            &&& proxy::upstream_address(upstream, None) == base.push('/')
        }),
    decreases slashes,
{
    let upstream = base + text_laws::repeated('/', slashes);
    reveal_strlit("/");
    assert(base + "/"@ =~= base.push('/'));
    if slashes == 0 {
        assert(upstream =~= base);
    } else {
        law_upstream_address(base, (slashes - 1) as nat, path);
        assert(upstream.last() == '/');
        assert(upstream.drop_last() =~= base + text_laws::repeated('/', (slashes - 1) as nat));
    }
}

/// A response that is passed on has the status, the body and, but for those that concern a single
/// connection, all the fields of the upstream server.
pub proof fn law_passes_on(
    response: GatewayResponse,
    from: BufferedUpstreamResponse,
    name: Seq<char>,
)
    requires
        proxy::passes_on(response, from),
    ensures
        response.status == from.status,
        response.body@ == from.body@,
        ({
            let sent = headers::header_values(response.headers);
            let had = headers::header_values(from.headers);
            &&& sent.contains_key(name) <==> had.contains_key(name) && !names_the_connection(name)
            &&& sent.contains_key(name) ==> sent[name] == had[name]
        }),
{
    law_fields_of_a_response(headers::no_fields(), headers::header_values(from.headers), name);
}

/// A response with a document has the status of the upstream server, the document, and all the fields
/// of the upstream server but for those that concern a single connection. Its type and its length are
/// those of the document.
pub proof fn law_passes_on_information(
    response: GatewayResponse,
    status: u16,
    from: Map<Seq<char>, Seq<Seq<u8>>>,
    body: Seq<u8>,
    name: Seq<char>,
)
    requires
        information::passes_on_information(response, status, from, body),
    ensures
        response.status == status,
        response.body@ == body,
        ({
            let sent = headers::header_values(response.headers);
            let length = headers::text_of(sent, "content-length"@);
            &&& headers::text_of(sent, "content-type"@) == Some("application/nostr+json"@)
            &&& sent["content-type"@].len() == 1
            &&& sent["content-length"@].len() == 1
            &&& length is Some
            &&& text_laws::run_of_digits(length->0)
            &&& text_laws::number(length->0) == body.len()
            &&& name != "content-type"@ && name != "content-length"@ ==> {
                &&& sent.contains_key(name) <==> from.contains_key(name)
                    && !names_the_connection(name)
                &&& sent.contains_key(name) ==> sent[name] == from[name]
            }
        }),
{
    law_fields_of_a_response(headers::no_fields(), from, name);
    reveal_strlit("content-type");
    reveal_strlit("content-length");
    reveal_strlit("application/nostr+json");
    assert("content-type"@.len() != "content-length"@.len());
    let digits = text::decimal(body.len());
    text_laws::law_decimal(body.len());
    let sent = headers::header_values(response.headers);
    let media = "application/nostr+json"@;
    assert(forall|i: int| 0 <= i < media.len() ==> 32 <= (#[trigger] media[i]) as u32 <= 126);
    assert(sent["content-type"@] == seq![headers::ascii_bytes(media)]);
    assert(sent["content-length"@] == seq![headers::ascii_bytes(digits)]);
    assert(headers::visible(headers::ascii_bytes(media)));
    assert(headers::visible(headers::ascii_bytes(digits)));
    assert(headers::ascii_text(headers::ascii_bytes(media)) =~= media);
    assert(headers::ascii_text(headers::ascii_bytes(digits)) =~= digits);
}

/// What the relay answers to a request for its document goes on with its status. Where that is from
/// 200 up to 299 and the body is a document that can be rewritten, the body becomes the rewritten
/// document, under its own type; else the body and the type stay as they came.
pub proof fn law_information_answers(response: GatewayResponse, upstream: BufferedUpstreamResponse)
    requires
        information::answers(response, upstream),
    ensures
        ({
            let found = json::json_in_bytes(upstream.body@);
            let written = information::described(found->0);
            let rewrites = 200 <= upstream.status <= 299 && found is Some && written is Some;
            let sent = headers::header_values(response.headers);
            let had = headers::header_values(upstream.headers);
            &&& response.status == upstream.status
            &&& rewrites ==> response.body@ == json::json_bytes(written->0) && headers::text_of(
                sent,
                "content-type"@,
            ) == Some("application/nostr+json"@)
            &&& !rewrites ==> response.body@ == upstream.body@ && headers::text_of(
                sent,
                "content-type"@,
            ) == headers::text_of(had, "content-type"@)
        }),
{
    let found = json::json_in_bytes(upstream.body@);
    let written = information::described(found->0);
    if api::success(upstream.status) && found is Some && written is Some {
        law_passes_on_information(
            response,
            upstream.status,
            headers::header_values(upstream.headers),
            json::json_bytes(written->0),
            "content-type"@,
        );
    } else {
        law_passes_on(response, upstream, "content-type"@);
        lemma_content_type_stays();
    }
}

proof fn lemma_content_type_stays()
    ensures
        !names_the_connection("content-type"@),
{
    reveal_strlit("content-type");
    reveal_strlit("connection");
    reveal_strlit("keep-alive");
    reveal_strlit("proxy-authenticate");
    reveal_strlit("proxy-authorization");
    reveal_strlit("te");
    reveal_strlit("trailer");
    reveal_strlit("transfer-encoding");
    reveal_strlit("upgrade");
    assert("content-type"@.len() == 12);
}

/// A request goes on with its method, to the same path, with its body unless it gets something or only
/// its fields, and with every field but for those that concern a single connection, its host, and,
/// without its body, the length of the body.
pub proof fn law_goes_on(
    request: UpstreamRequest,
    method: Seq<char>,
    upstream: Seq<char>,
    path: Option<Seq<char>>,
    fields: Map<Seq<char>, Seq<Seq<u8>>>,
    name: Seq<char>,
)
    requires
        proxy::goes_on(request, method, upstream, path, fields),
    ensures
        request.method@ == method,
        request.url@ == proxy::upstream_address(upstream, path),
        request.forwards_body <==> method != "GET"@ && method != "HEAD"@,
        ({
            let sent = headers::header_values(request.headers);
            &&& sent.contains_key(name) <==> fields.contains_key(name) && !names_the_connection(name)
                && name != "host"@ && (name == "content-length"@ ==> method != "GET"@ && method
                != "HEAD"@)
            &&& sent.contains_key(name) ==> sent[name] == fields[name]
        }),
{
    law_fields_of_a_request(fields, proxy::forwards(method), name);
}

/// There is surely room for more names exactly up to 6553 of them.
pub proof fn law_room(values: Map<Seq<char>, Seq<Seq<u8>>>, more: nat)
    ensures
        headers::room_for(values, more) <==> values.dom().finite() && values.dom().len() + more
            <= 6553,
{
}

/// A host's name is what stands before the first colon; nothing is named without a host.
pub proof fn law_hostname(name: Seq<char>, port: Seq<char>)
    requires
        !name.contains(':'),
    ensures
        route::hostname(Some(name)) == name,
        route::hostname(Some(name.push(':') + port)) == name,
        route::hostname(None).len() == 0,
{
    text_laws::law_before(name, ':');
    let start = text::before(name, ':');
    if start.len() < name.len() {
        assert(name[start.len() as int] == ':');
    }
    assert(start =~= name);
    let host = name.push(':') + port;
    text_laws::law_before(host, ':');
    let found = text::before(host, ':');
    if found.len() < name.len() {
        assert(host[found.len() as int] == name[found.len() as int]);
    }
    if found.len() > name.len() {
        assert(found[name.len() as int] == host.take(found.len() as int)[name.len() as int]);
    }
    assert(found =~= name);
}

/// A request is for the relay exactly where it names the relay's host, for the media store where it
/// names that one's and not the relay's, and for no service where it names neither.
pub proof fn law_service(hostname: Seq<char>, relay: Seq<char>, blossom: Seq<char>)
    ensures
        route::service_at(hostname, relay, blossom) == Service::Relay <==> hostname == relay,
        route::service_at(hostname, relay, blossom) == Service::Blossom <==> hostname == blossom
            && hostname != relay,
        route::service_at(hostname, relay, blossom) == Service::Unknown <==> hostname != blossom
            && hostname != relay,
{
}

/// A connection becomes a WebSocket exactly where the request asks for one, in whatever case; then the
/// request is for a session, whatever else it asks for. One for the document gets `/` and accepts the
/// document; any other is the relay's to answer.
pub proof fn law_relay_route(
    method: Seq<char>,
    path: Seq<char>,
    upgrade: Option<Seq<char>>,
    accept: Option<Seq<char>>,
)
    ensures
        ({
            let socket = upgrade is Some && text::equal_ignoring_case(
                upgrade->0,
                "websocket"@,
            );
            let document = method == "GET"@ && path == "/"@ && accept is Some
                && information::accepts_information(accept->0);
            let found = route::relay_route(method, path, upgrade, accept);
            &&& route::upgrades(upgrade) <==> socket
            &&& information::asks_for_information(method, path, accept) <==> document
            &&& found == RelayRoute::Session <==> socket
            &&& found == RelayRoute::Information <==> !socket && document
            &&& found == RelayRoute::Proxy <==> !socket && !document
        }),
{
}

/// The gateway says of itself that it is up, which build it is, and nothing else.
pub proof fn law_health(build: Seq<char>, key: Seq<char>)
    ensures
        route::health_json(build).get("status"@) == Some(JsonView::Text("ok"@)),
        route::health_json(build).get("build"@) == Some(JsonView::Text(build)),
        key != "status"@ && key != "build"@ ==> route::health_json(build).get(key) is None,
{
    reveal_strlit("status");
    reveal_strlit("build");
    assert("status"@.len() != "build"@.len());
}

} // verus!
