//! Requests that go on to an upstream server, and responses that come back from it.

use vstd::prelude::*;
use vstd::string::*;
use axum::http::HeaderMap;
use crate::headers::{self, HeaderRule};
use crate::text;

verus! {

/// A response of the gateway's own: a status and a text.
#[derive(Debug, Clone, Copy, PartialEq)]
pub struct Answer {
    pub status: u16,
    pub text: &'static str,
}

/// What an answer says.
pub struct AnswerView {
    pub status: u16,
    pub text: Seq<char>,
}

impl View for Answer {
    type V = AnswerView;

    open spec fn view(&self) -> AnswerView {
        AnswerView { status: self.status, text: self.text@ }
    }
}

/// The answer where an upstream server is not reached, or breaks off.
pub open spec fn bad_gateway() -> AnswerView {
    AnswerView { status: 502, text: "service temporarily unavailable"@ }
}

/// The answer where an upstream server is not reached, or breaks off.
pub fn upstream_failed() -> (r: Answer)
    ensures
        r@ == bad_gateway(),
{
    Answer { status: 502, text: "service temporarily unavailable" }
}

/// The methods whose requests go on with their bodies: all but `GET` and `HEAD`.
pub open spec fn forwards(method: Seq<char>) -> bool {
    method != "GET"@ && method != "HEAD"@
}

/// Whether a request with a method goes on with its body.
pub fn method_forwards_body(method: &str) -> (r: bool)
    ensures
        r == forwards(method@),
{
    !text::same(method, "GET") && !text::same(method, "HEAD")
}

/// A request to an upstream server, without its body.
#[derive(Debug)]
pub struct UpstreamRequest {
    pub method: String,
    pub url: String,
    pub headers: HeaderMap,
    pub forwards_body: bool,
}

/// The address of a path, `/` where there is none, at an upstream server. Slashes at the end of the
/// server's own address are dropped.
pub open spec fn upstream_address(upstream: Seq<char>, path: Option<Seq<char>>) -> Seq<char> {
    text::without_trailing(upstream, '/') + match path {
        Some(path) => path,
        None => "/"@,
    }
}

/// Whether a request is that of a client, as it goes on to an upstream server.
pub open spec fn goes_on(
    request: UpstreamRequest,
    method: Seq<char>,
    upstream: Seq<char>,
    path: Option<Seq<char>>,
    fields: Map<Seq<char>, Seq<Seq<u8>>>,
) -> bool {
    &&& request.method@ == method
    &&& request.url@ == upstream_address(upstream, path)
    &&& request.forwards_body == forwards(method)
    &&& headers::header_values(request.headers) == headers::merged(
        headers::no_fields(),
        fields,
        HeaderRule::Request { forwards_body: forwards(method) },
    )
}

/// The request that goes on to an upstream server: the same method, path and query, with the fields
/// that pass, and with the body where the method has one. `None` where the fields are too many.
pub fn upstream_request(
    method: &str,
    upstream: &str,
    path_and_query: Option<&str>,
    fields: &HeaderMap,
) -> (r: Option<UpstreamRequest>)
    ensures
        r is Some ==> {
            let request = r->0;
            &&& request.method@ == method@
            &&& request.url@ == upstream_address(upstream@, text::optional(path_and_query))
            &&& request.forwards_body == forwards(method@)
            &&& headers::header_values(request.headers) == headers::merged(
                headers::no_fields(),
                headers::header_values(*fields),
                HeaderRule::Request { forwards_body: forwards(method@) },
            )
        },
        r is Some ==> goes_on(
            r->0,
            method@,
            upstream@,
            text::optional(path_and_query),
            headers::header_values(*fields),
        ),
        headers::room_for(headers::header_values(*fields), 0) ==> r is Some,
{
    let forwards_body = method_forwards_body(method);
    let path = match path_and_query {
        Some(path) => path,
        None => "/",
    };
    let url = text::trim_end_matches(upstream, '/').to_owned().concat(path);
    match headers::request_headers(fields, forwards_body) {
        Some(kept) => Some(
            UpstreamRequest { method: method.to_owned(), url, headers: kept, forwards_body },
        ),
        None => None,
    }
}

/// A response of the gateway.
#[derive(Debug)]
pub struct GatewayResponse {
    pub status: u16,
    pub headers: HeaderMap,
    pub body: Vec<u8>,
}

/// A response of an upstream server, read to its end.
#[derive(Debug)]
pub struct BufferedUpstreamResponse {
    pub status: u16,
    pub headers: HeaderMap,
    pub body: Vec<u8>,
}

/// Whether a response is that of an upstream server: its status and body, and its fields but for
/// those that concern a single connection.
pub open spec fn passes_on(response: GatewayResponse, from: BufferedUpstreamResponse) -> bool {
    &&& response.status == from.status
    &&& response.body@ == from.body@
    &&& headers::header_values(response.headers) == headers::merged(
        headers::no_fields(),
        headers::header_values(from.headers),
        HeaderRule::Response,
    )
}

impl BufferedUpstreamResponse {
    /// The response that passes this one on; `None` where its fields are too many.
    pub fn into_response(self) -> (r: Option<GatewayResponse>)
        ensures
            r is Some ==> passes_on(r->0, self),
            headers::room_for(headers::header_values(self.headers), 0) ==> r is Some,
    {
        match headers::response_headers(&self.headers) {
            Some(kept) => Some(
                GatewayResponse { status: self.status, headers: kept, body: self.body },
            ),
            None => None,
        }
    }
}

} // verus!
