//! A request to the media store, from its first look to its response.
//!
//! A [`BlossomExchange`] says what is to be done next: to ask the internal API, to send the request
//! on, or to respond. What came of it goes back into the exchange, until it responds.

use vstd::prelude::*;
use axum::http::HeaderMap;
use crate::api::{
    self, AuthorizationRequest, AuthorizationResponse, CommitUploadRequest, GrantView,
    ReleaseOwnerRequest, ReserveError, ReserveUploadRequest, ReserveUploadResponse,
};
use crate::blob::{self, BlobDescriptor, DescriptorView};
use crate::blossom::{self, BlossomAuthorization, BlossomAuthorizationView, DemandView};
use crate::event;
use crate::headers;
use crate::proxy::{self, Answer, AnswerView};
use crate::text;

verus! {

/// What a request to the media store is for.
#[derive(Debug)]
pub enum BlossomRoute {
    /// To store a blob.
    Upload,
    /// To ask whether a blob could be stored.
    UploadPreflight,
    /// To store a blob that is somewhere else.
    Mirror,
    /// To store a blob in another form, or to ask whether it could be.
    Media,
    /// To delete the blob with a hash.
    Delete(String),
    /// Anything else, with an authorization or without one.
    Other { authorized: bool },
}

/// What a request to the media store is for, in characters.
pub enum RouteView {
    Upload,
    UploadPreflight,
    Mirror,
    Media,
    Delete(Seq<char>),
    Other { authorized: bool },
}

impl View for BlossomRoute {
    type V = RouteView;

    open spec fn view(&self) -> RouteView {
        match *self {
            BlossomRoute::Upload => RouteView::Upload,
            BlossomRoute::UploadPreflight => RouteView::UploadPreflight,
            BlossomRoute::Mirror => RouteView::Mirror,
            BlossomRoute::Media => RouteView::Media,
            BlossomRoute::Delete(hash) => RouteView::Delete(hash@),
            BlossomRoute::Other { authorized } => RouteView::Other { authorized },
        }
    }
}

impl RouteView {
    /// Whether the request has to show an authorization.
    pub open spec fn needs_authorization(self) -> bool {
        match self {
            RouteView::Other { authorized } => authorized,
            _ => true,
        }
    }

    /// The action that the authorization has to be for.
    pub open spec fn action(self) -> Option<Seq<char>> {
        match self {
            RouteView::Upload | RouteView::UploadPreflight | RouteView::Mirror => Some("upload"@),
            RouteView::Delete(_) => Some("delete"@),
            RouteView::Media => Some("media"@),
            RouteView::Other { .. } => None,
        }
    }

    /// Whether the authorization has to name a hash.
    pub open spec fn needs_hash(self) -> bool {
        self is Mirror || self is Delete || self is Media
    }

    /// What the request has to be authorized for, at a server, where a field of it names a hash.
    pub open spec fn demand(self, server: Seq<char>, shown_hash: Option<Seq<char>>) -> DemandView {
        DemandView {
            action: self.action(),
            server,
            hash: match self {
                RouteView::Delete(hash) => Some(hash),
                _ => shown_hash,
            },
            hash_required: self.needs_hash(),
        }
    }
}

/// What a request to the media store is for, by its method and path.
pub open spec fn route_of(method: Seq<char>, path: Seq<char>) -> RouteView {
    if method == "PUT"@ && path == "/upload"@ {
        RouteView::Upload
    } else if method == "HEAD"@ && path == "/upload"@ {
        RouteView::UploadPreflight
    } else if method == "PUT"@ && path == "/mirror"@ {
        RouteView::Mirror
    } else if (method == "PUT"@ || method == "HEAD"@) && path == "/media"@ {
        RouteView::Media
    } else if method == "DELETE"@ && blossom::hash_in_path(path) is Some {
        RouteView::Delete(blossom::hash_in_path(path)->0)
    } else {
        RouteView::Other { authorized: proxy::forwards(method) && path != "/report"@ }
    }
}

/// What a request to the media store is for.
pub fn blossom_route(method: &str, path: &str) -> (r: BlossomRoute)
    ensures
        r@ == route_of(method@, path@),
{
    let put = text::same(method, "PUT");
    let head = text::same(method, "HEAD");
    if put && text::same(path, "/upload") {
        return BlossomRoute::Upload;
    }
    if head && text::same(path, "/upload") {
        return BlossomRoute::UploadPreflight;
    }
    if put && text::same(path, "/mirror") {
        return BlossomRoute::Mirror;
    }
    if (put || head) && text::same(path, "/media") {
        return BlossomRoute::Media;
    }
    if text::same(method, "DELETE") {
        if let Some(hash) = blossom::blossom_hash_from_path(path) {
            return BlossomRoute::Delete(hash);
        }
    }
    BlossomRoute::Other {
        authorized: proxy::method_forwards_body(method) && !text::same(path, "/report"),
    }
}

/// A length that a field gives: a number that is not negative.
pub open spec fn length_in(field: Option<Seq<char>>) -> Option<i64> {
    match field {
        Some(text) => match text::decimal_i64(text) {
            Some(length) => if length >= 0 {
                Some(length)
            } else {
                None
            },
            None => None,
        },
        None => None,
    }
}

/// The hash that a field gives.
pub open spec fn hash_in(field: Option<Seq<char>>) -> Option<Seq<char>> {
    if field is Some && blossom::is_hash(field->0) {
        field
    } else {
        None
    }
}

fn length_field(headers: &HeaderMap, name: &str) -> (r: Option<i64>)
    requires
        headers::plain_name(name@),
    ensures
        r == length_in(headers::text_of(headers::header_values(*headers), name@)),
{
    match headers::header_text(headers, name) {
        Some(text) => match text::parse_i64(text) {
            Some(length) => if length >= 0 {
                Some(length)
            } else {
                None
            },
            None => None,
        },
        None => None,
    }
}

fn hash_field(headers: &HeaderMap) -> (r: Option<&str>)
    ensures
        text::optional(r) == hash_in(
            headers::text_of(headers::header_values(*headers), "x-sha-256"@),
        ),
{
    proof {
        reveal_strlit("x-sha-256");
    }
    match headers::header_text(headers, "x-sha-256") {
        Some(value) => if blossom::valid_sha256(value) {
            Some(value)
        } else {
            None
        },
        None => None,
    }
}

/// How an exchange responds once it has nothing left to do.
#[derive(Debug, Clone, Copy)]
pub enum Reply {
    /// With an answer of its own.
    Own(Answer),
    /// With the response of the media store, which was read to its end.
    Upstream,
}

/// How an exchange responds.
pub enum ReplyView {
    Own(AnswerView),
    Upstream,
}

impl View for Reply {
    type V = ReplyView;

    open spec fn view(&self) -> ReplyView {
        match *self {
            Reply::Own(answer) => ReplyView::Own(answer@),
            Reply::Upstream => ReplyView::Upstream,
        }
    }
}

/// What an exchange waits for.
#[derive(Debug)]
enum Phase {
    /// Whether the request is granted.
    Authorizing,
    /// Whether storage could be set aside.
    Checking,
    /// That storage which was set aside only to check is given back.
    ClearingCheck,
    /// Whether storage is set aside for an upload.
    Reserving { requested: i64 },
    /// What the media store makes of the upload.
    Uploading { reservation: String, requested: i64 },
    /// Whether the upload is accounted for.
    Committing { reservation: String },
    /// That storage which is not used is given back, to respond afterwards.
    Cancelling { reply: Reply },
    /// The status of the media store.
    Forwarding,
    /// That the account's share in a blob is given up.
    Releasing,
    /// Nothing more.
    Done,
}

/// What an exchange waits for, in characters.
pub enum PhaseView {
    Authorizing,
    Checking,
    ClearingCheck,
    Reserving { asked: i64 },
    Uploading { reserved: Seq<char>, requested: i64 },
    Committing { reservation: Seq<char> },
    Cancelling { reply: ReplyView },
    Forwarding,
    Releasing,
    Done,
}

impl View for Phase {
    type V = PhaseView;

    closed spec fn view(&self) -> PhaseView {
        match *self {
            Phase::Authorizing => PhaseView::Authorizing,
            Phase::Checking => PhaseView::Checking,
            Phase::ClearingCheck => PhaseView::ClearingCheck,
            Phase::Reserving { requested } => PhaseView::Reserving { asked: requested },
            Phase::Uploading { reservation, requested } => PhaseView::Uploading {
                reserved: reservation@,
                requested,
            },
            Phase::Committing { reservation } => PhaseView::Committing {
                reservation: reservation@,
            },
            Phase::Cancelling { reply } => PhaseView::Cancelling { reply: reply@ },
            Phase::Forwarding => PhaseView::Forwarding,
            Phase::Releasing => PhaseView::Releasing,
            Phase::Done => PhaseView::Done,
        }
    }
}

/// What the media store made of an upload.
#[derive(Debug)]
pub enum UploadOutcome {
    /// It was not reached, or broke off.
    Failed,
    /// It responded with a status, and with what it says of the blob where that is readable.
    Answered { status: u16, descriptor: Option<BlobDescriptor> },
}

/// What comes back into an exchange.
#[derive(Debug)]
pub enum ExchangeEvent {
    /// The answer to the question for a grant.
    Granted(AuthorizationResponse),
    /// Whether storage was set aside.
    Reserved(Result<ReserveUploadResponse, ReserveError>),
    /// That the internal API was told to give storage back.
    Cancelled,
    /// What the media store made of an upload.
    Uploaded(UploadOutcome),
    /// Whether the upload was accounted for.
    Committed(bool),
    /// The status of the media store; `None` where it was not reached.
    Forwarded(Option<u16>),
    /// Whether the account's share in a blob was given up.
    Released(bool),
}

/// What the media store made of an upload, in characters.
pub enum UploadView {
    Failed,
    Answered { status: u16, descriptor: Option<DescriptorView> },
}

/// What comes back into an exchange, in characters.
pub enum ExchangeInput {
    Granted(GrantView),
    Reserved(Result<Seq<char>, ReserveError>),
    Cancelled,
    Uploaded(UploadView),
    Committed(bool),
    Forwarded(Option<u16>),
    Released(bool),
}

impl View for UploadOutcome {
    type V = UploadView;

    open spec fn view(&self) -> UploadView {
        match *self {
            UploadOutcome::Failed => UploadView::Failed,
            UploadOutcome::Answered { status, descriptor } => UploadView::Answered {
                status,
                descriptor: match descriptor {
                    Some(descriptor) => Some(descriptor@),
                    None => None,
                },
            },
        }
    }
}

impl View for ExchangeEvent {
    type V = ExchangeInput;

    open spec fn view(&self) -> ExchangeInput {
        match *self {
            ExchangeEvent::Granted(answer) => ExchangeInput::Granted(answer@),
            ExchangeEvent::Reserved(outcome) => ExchangeInput::Reserved(
                match outcome {
                    Ok(made) => Ok(made.reservation_id@),
                    Err(error) => Err(error),
                },
            ),
            ExchangeEvent::Cancelled => ExchangeInput::Cancelled,
            ExchangeEvent::Uploaded(outcome) => ExchangeInput::Uploaded(outcome@),
            ExchangeEvent::Committed(done) => ExchangeInput::Committed(done),
            ExchangeEvent::Forwarded(status) => ExchangeInput::Forwarded(status),
            ExchangeEvent::Released(done) => ExchangeInput::Released(done),
        }
    }
}

/// What is to be done next in an exchange.
#[derive(Debug)]
pub enum ExchangeAction {
    /// Set storage aside.
    Reserve(ReserveUploadRequest),
    /// Give storage back.
    Cancel(String),
    /// Send the request to the media store, and read its response to the end.
    Upload,
    /// Send the request to the media store, and keep its response to be streamed.
    Forward,
    /// Account for an upload, under a reservation.
    Commit(String, CommitUploadRequest),
    /// Give up an account's share in a blob.
    Release(ReleaseOwnerRequest),
    /// Respond.
    Reply(Reply),
    /// Respond by streaming the response of the media store.
    Stream,
}

/// What is to be done next in an exchange, in characters.
pub enum ExchangeActionView {
    Reserve { account: Seq<char>, requested: i64, hash: Option<Seq<char>> },
    Cancel(Seq<char>),
    Upload,
    Forward,
    Commit { reservation: Seq<char>, descriptor: DescriptorView },
    Release { owner: Seq<char>, sha256: Seq<char> },
    Reply(ReplyView),
    Stream,
}

impl View for ExchangeAction {
    type V = ExchangeActionView;

    open spec fn view(&self) -> ExchangeActionView {
        match *self {
            ExchangeAction::Reserve(request) => ExchangeActionView::Reserve {
                account: request.account_identity_id@,
                requested: request.requested_bytes,
                hash: text::optional_string(request.sha256),
            },
            ExchangeAction::Cancel(reservation) => ExchangeActionView::Cancel(reservation@),
            ExchangeAction::Upload => ExchangeActionView::Upload,
            ExchangeAction::Forward => ExchangeActionView::Forward,
            ExchangeAction::Commit(reservation, request) => ExchangeActionView::Commit {
                reservation: reservation@,
                descriptor: DescriptorView {
                    sha256: request.sha256@,
                    size: request.size_bytes,
                    mime_type: request.mime_type@,
                    url: request.public_url@,
                    uploaded: request.uploaded_at,
                },
            },
            ExchangeAction::Release(request) => ExchangeActionView::Release {
                owner: request.account_identity_id@,
                sha256: request.sha256@,
            },
            ExchangeAction::Reply(reply) => ExchangeActionView::Reply(reply@),
            ExchangeAction::Stream => ExchangeActionView::Stream,
        }
    }
}

/// A request to the media store and how far it has come.
#[derive(Debug)]
pub struct BlossomExchange {
    route: BlossomRoute,
    /// The hash that the request names in a field.
    shown_hash: Option<String>,
    /// The authorization that the request shows, where it needs one.
    authorization: Option<BlossomAuthorization>,
    /// The length that the request gives.
    content_length: Option<i64>,
    /// The length that the request announces for an upload to come.
    announced_length: Option<i64>,
    /// The most that a mirrored blob may take.
    max_write_bytes: i64,
    /// The account that the request was granted to.
    account: Option<String>,
    phase: Phase,
}

/// A request to the media store and how far it has come, in characters.
pub struct ExchangeView {
    pub route: RouteView,
    pub shown_hash: Option<Seq<char>>,
    pub authorization: Option<BlossomAuthorizationView>,
    pub content_length: Option<i64>,
    pub announced_length: Option<i64>,
    pub max_write_bytes: i64,
    pub account: Option<Seq<char>>,
    pub phase: PhaseView,
}

impl View for BlossomExchange {
    type V = ExchangeView;

    closed spec fn view(&self) -> ExchangeView {
        ExchangeView {
            route: self.route@,
            shown_hash: text::optional_string(self.shown_hash),
            authorization: match self.authorization {
                Some(authorization) => Some(authorization@),
                None => None,
            },
            content_length: self.content_length,
            announced_length: self.announced_length,
            max_write_bytes: self.max_write_bytes,
            account: text::optional_string(self.account),
            phase: self.phase@,
        }
    }
}

/// An exchange in another phase.
pub open spec fn turned(exchange: ExchangeView, phase: PhaseView) -> ExchangeView {
    ExchangeView { phase, ..exchange }
}

/// An exchange that responds with an answer of its own.
pub open spec fn answered(exchange: ExchangeView, status: u16, text: Seq<char>) -> (
    ExchangeView,
    ExchangeActionView,
) {
    (
        turned(exchange, PhaseView::Done),
        ExchangeActionView::Reply(ReplyView::Own(AnswerView { status, text })),
    )
}

/// An exchange that gives storage back and then responds.
pub open spec fn cancelled(exchange: ExchangeView, reservation: Seq<char>, reply: ReplyView) -> (
    ExchangeView,
    ExchangeActionView,
) {
    (
        turned(exchange, PhaseView::Cancelling { reply }),
        ExchangeActionView::Cancel(reservation),
    )
}

/// How many bytes an exchange asks to set aside, and how it answers where it cannot tell.
pub open spec fn bytes_to_reserve(exchange: ExchangeView) -> Result<i64, Seq<char>> {
    match exchange.route {
        RouteView::UploadPreflight => match exchange.announced_length {
            Some(length) => Ok(length),
            None => Err("X-Content-Length is required"@),
        },
        RouteView::Upload => match exchange.content_length {
            Some(length) => Ok(length),
            None => Err("Content-Length is required"@),
        },
        _ => Ok(exchange.max_write_bytes),
    }
}

/// The hash under which an exchange asks to set storage aside.
pub open spec fn hash_to_reserve(exchange: ExchangeView) -> Option<Seq<char>> {
    if exchange.shown_hash is Some || exchange.route is UploadPreflight
        || exchange.authorization is None || exchange.authorization->0.hashes.len() == 0 {
        exchange.shown_hash
    } else {
        Some(exchange.authorization->0.hashes[0])
    }
}

/// What the answer to the question for a grant leads to.
pub open spec fn grant_step(exchange: ExchangeView, answer: GrantView) -> (
    ExchangeView,
    ExchangeActionView,
) {
    let granted = ExchangeView { account: answer.account, ..exchange };
    if !answer.authorized {
        answered(exchange, 403, "Nostr public key is not approved"@)
    } else if !(exchange.route is Upload || exchange.route is UploadPreflight
        || exchange.route is Mirror) {
        (turned(granted, PhaseView::Forwarding), ExchangeActionView::Forward)
    } else if answer.account is None {
        answered(exchange, 403, "Nostr identity is not linked to an account"@)
    } else {
        match bytes_to_reserve(exchange) {
            Err(message) => answered(exchange, 411, message),
            Ok(requested) => (
                turned(
                    granted,
                    if exchange.route is UploadPreflight {
                        PhaseView::Checking
                    } else {
                        PhaseView::Reserving { asked: requested }
                    },
                ),
                ExchangeActionView::Reserve {
                    account: answer.account->0,
                    requested,
                    hash: hash_to_reserve(exchange),
                },
            ),
        }
    }
}

/// How an exchange answers where no storage was set aside.
pub open spec fn reservation_fault(error: ReserveError) -> AnswerView {
    match error {
        ReserveError::UploadLimitReached => AnswerView {
            status: 413,
            text: "Upload exceeds the account plan's file-size limit"@,
        },
        ReserveError::StorageLimitReached => AnswerView {
            status: 413,
            text: "Account Blossom storage limit reached"@,
        },
        ReserveError::Unavailable => AnswerView {
            status: 503,
            text: "Storage accounting unavailable"@,
        },
    }
}

/// What the outcome of an upload leads to, under a reservation of as many bytes.
pub open spec fn upload_step(
    exchange: ExchangeView,
    reservation: Seq<char>,
    requested: i64,
    outcome: UploadView,
) -> (ExchangeView, ExchangeActionView) {
    match outcome {
        UploadView::Failed => cancelled(
            exchange,
            reservation,
            ReplyView::Own(proxy::bad_gateway()),
        ),
        UploadView::Answered { status, descriptor } => if !api::success(status) {
            cancelled(exchange, reservation, ReplyView::Upstream)
        } else if descriptor is Some && blob::valid_descriptor(descriptor->0)
            && descriptor->0.size <= requested {
            (
                turned(exchange, PhaseView::Committing { reservation }),
                ExchangeActionView::Commit { reservation, descriptor: descriptor->0 },
            )
        } else {
            cancelled(
                exchange,
                reservation,
                ReplyView::Own(
                    AnswerView { status: 502, text: "Invalid Blossom upload response"@ },
                ),
            )
        },
    }
}

/// What the status of the media store leads to.
pub open spec fn forward_step(exchange: ExchangeView, status: Option<u16>) -> (
    ExchangeView,
    ExchangeActionView,
) {
    match status {
        None => answered(exchange, 502, "service temporarily unavailable"@),
        Some(code) => if api::success(code) && exchange.account is Some
            && exchange.route is Delete {
            (
                turned(exchange, PhaseView::Releasing),
                ExchangeActionView::Release {
                    owner: exchange.account->0,
                    sha256: exchange.route->Delete_0,
                },
            )
        } else {
            (turned(exchange, PhaseView::Done), ExchangeActionView::Stream)
        },
    }
}

/// What comes of something that comes back into an exchange; `None` where the exchange does not wait
/// for it.
pub open spec fn exchange_step(exchange: ExchangeView, input: ExchangeInput) -> Option<
    (ExchangeView, ExchangeActionView),
> {
    match (exchange.phase, input) {
        (PhaseView::Authorizing, ExchangeInput::Granted(answer)) => Some(
            grant_step(exchange, answer),
        ),
        (PhaseView::Checking, ExchangeInput::Reserved(outcome)) => Some(
            match outcome {
                Ok(reservation) => (
                    turned(exchange, PhaseView::ClearingCheck),
                    ExchangeActionView::Cancel(reservation),
                ),
                Err(error) => (
                    turned(exchange, PhaseView::Done),
                    ExchangeActionView::Reply(ReplyView::Own(reservation_fault(error))),
                ),
            },
        ),
        (PhaseView::ClearingCheck, ExchangeInput::Cancelled) => Some(
            (turned(exchange, PhaseView::Forwarding), ExchangeActionView::Forward),
        ),
        (PhaseView::Reserving { asked }, ExchangeInput::Reserved(outcome)) => Some(
            match outcome {
                Ok(reservation) => (
                    turned(
                        exchange,
                        PhaseView::Uploading { reserved: reservation, requested: asked },
                    ),
                    ExchangeActionView::Upload,
                ),
                Err(error) => (
                    turned(exchange, PhaseView::Done),
                    ExchangeActionView::Reply(ReplyView::Own(reservation_fault(error))),
                ),
            },
        ),
        (PhaseView::Uploading { reserved, requested }, ExchangeInput::Uploaded(outcome)) => Some(
            upload_step(exchange, reserved, requested, outcome),
        ),
        (PhaseView::Committing { reservation }, ExchangeInput::Committed(done)) => Some(
            if done {
                (
                    turned(exchange, PhaseView::Done),
                    ExchangeActionView::Reply(ReplyView::Upstream),
                )
            } else {
                cancelled(
                    exchange,
                    reservation,
                    ReplyView::Own(
                        AnswerView { status: 503, text: "Storage accounting unavailable"@ },
                    ),
                )
            },
        ),
        (PhaseView::Cancelling { reply }, ExchangeInput::Cancelled) => Some(
            (turned(exchange, PhaseView::Done), ExchangeActionView::Reply(reply)),
        ),
        (PhaseView::Forwarding, ExchangeInput::Forwarded(status)) => Some(
            forward_step(exchange, status),
        ),
        (PhaseView::Releasing, ExchangeInput::Released(_)) => Some(
            (turned(exchange, PhaseView::Done), ExchangeActionView::Stream),
        ),
        _ => None,
    }
}

/// An exchange that waits for its grant, by what the request shows.
pub open spec fn opened(
    route: RouteView,
    values: Map<Seq<char>, Seq<Seq<u8>>>,
    authorization: Option<BlossomAuthorizationView>,
    max_write_bytes: i64,
) -> ExchangeView {
    ExchangeView {
        route,
        shown_hash: hash_in(headers::text_of(values, "x-sha-256"@)),
        authorization,
        content_length: length_in(headers::text_of(values, "content-length"@)),
        announced_length: length_in(headers::text_of(values, "x-content-length"@)),
        max_write_bytes,
        account: None,
        phase: PhaseView::Authorizing,
    }
}

/// What a request opens at `now`: an exchange, where it needs no authorization or shows a good one,
/// and else an answer.
pub open spec fn opening(
    route: RouteView,
    values: Map<Seq<char>, Seq<Seq<u8>>>,
    server: Seq<char>,
    max_write_bytes: i64,
    now: u64,
) -> Result<ExchangeView, AnswerView> {
    if !route.needs_authorization() {
        Ok(opened(route, values, None, max_write_bytes))
    } else {
        let shown_hash = hash_in(headers::text_of(values, "x-sha-256"@));
        match blossom::authorization(
            headers::text_of(values, "authorization"@),
            route.demand(server, shown_hash),
            now,
        ) {
            Ok(authorization) => Ok(opened(route, values, Some(authorization), max_write_bytes)),
            Err(message) => Err(AnswerView { status: 401, text: message }),
        }
    }
}

/// What an exchange asks first: whether the key that authorized the request may write, or whether
/// anybody may read.
pub open spec fn grant_asked(request: AuthorizationRequest, exchange: ExchangeView) -> bool {
    &&& request.service@ == api::BLOSSOM_SERVICE@
    &&& request.action@ == if exchange.route.needs_authorization() {
        "write"@
    } else {
        "read"@
    }
    &&& text::optional_string(request.public_key) == match exchange.authorization {
        Some(authorization) => Some(authorization.public_key),
        None => None,
    }
}

/// Whether a request opened what is expected.
pub open spec fn opens(
    outcome: Result<(BlossomExchange, AuthorizationRequest), Answer>,
    expected: Result<ExchangeView, AnswerView>,
) -> bool {
    match (outcome, expected) {
        (Ok(opened), Ok(view)) => opened.0@ == view && grant_asked(opened.1, view),
        (Err(answer), Err(view)) => answer@ == view,
        _ => false,
    }
}

fn signed_demand(
    route: &BlossomRoute,
    headers: &HeaderMap,
    shown_hash: Option<&str>,
    blossom_hostname: &str,
    now: u64,
) -> (r: Result<BlossomAuthorization, &'static str>)
    ensures
        blossom::agrees(
            r,
            blossom::authorization(
                headers::text_of(headers::header_values(*headers), "authorization"@),
                route@.demand(blossom_hostname@, text::optional(shown_hash)),
                now,
            ),
        ),
{
    let action: Option<&str> = match route {
        BlossomRoute::Upload => Some("upload"),
        BlossomRoute::UploadPreflight => Some("upload"),
        BlossomRoute::Mirror => Some("upload"),
        BlossomRoute::Delete(_) => Some("delete"),
        BlossomRoute::Media => Some("media"),
        BlossomRoute::Other { .. } => None,
    };
    let hash: Option<&str> = match route {
        BlossomRoute::Delete(hash) => Some(hash.as_str()),
        _ => shown_hash,
    };
    let hash_required = match route {
        BlossomRoute::Mirror => true,
        BlossomRoute::Delete(_) => true,
        BlossomRoute::Media => true,
        _ => false,
    };
    blossom::blossom_authorization_at(headers, action, blossom_hostname, hash, hash_required, now)
}

/// Opens an exchange for a request with the authorization that it showed, where it needs one, and
/// says what to ask first.
pub fn open_exchange(
    route: BlossomRoute,
    headers: &HeaderMap,
    authorization: Option<BlossomAuthorization>,
    max_write_bytes: i64,
) -> (r: (BlossomExchange, AuthorizationRequest))
    ensures
        r.0@ == opened(
            route@,
            headers::header_values(*headers),
            match authorization {
                Some(authorization) => Some(authorization@),
                None => None,
            },
            max_write_bytes,
        ),
        grant_asked(r.1, r.0@),
{
    proof {
        reveal_strlit("content-length");
        reveal_strlit("x-content-length");
    }
    let writes = match route {
        BlossomRoute::Other { authorized } => authorized,
        _ => true,
    };
    let request = AuthorizationRequest {
        service: api::BLOSSOM_SERVICE,
        action: if writes {
            "write"
        } else {
            "read"
        },
        public_key: match &authorization {
            Some(authorization) => Some(authorization.public_key.clone()),
            None => None,
        },
    };
    let exchange = BlossomExchange {
        route,
        shown_hash: text::to_optional(hash_field(headers)),
        authorization,
        content_length: length_field(headers, "content-length"),
        announced_length: length_field(headers, "x-content-length"),
        max_write_bytes,
        account: None,
        phase: Phase::Authorizing,
    };
    (exchange, request)
}

/// Opens an exchange for a request at `now`, and says what to ask first; or answers the request.
pub fn blossom_request_at(
    method: &str,
    path: &str,
    headers: &HeaderMap,
    blossom_hostname: &str,
    max_write_bytes: i64,
    now: u64,
) -> (r: Result<(BlossomExchange, AuthorizationRequest), Answer>)
    ensures
        opens(
            r,
            opening(
                route_of(method@, path@),
                headers::header_values(*headers),
                blossom_hostname@,
                max_write_bytes,
                now,
            ),
        ),
{
    let route = blossom_route(method, path);
    let needs_authorization = match route {
        BlossomRoute::Other { authorized } => authorized,
        _ => true,
    };
    let authorization = if needs_authorization {
        match signed_demand(&route, headers, hash_field(headers), blossom_hostname, now) {
            Ok(authorization) => Some(authorization),
            Err(message) => {
                return Err(Answer { status: 401, text: message });
            },
        }
    } else {
        None
    };
    Ok(open_exchange(route, headers, authorization, max_write_bytes))
}

/// Opens an exchange for a request now, by the clock of the machine; or answers the request.
pub fn blossom_request(
    method: &str,
    path: &str,
    headers: &HeaderMap,
    blossom_hostname: &str,
    max_write_bytes: i64,
) -> (r: Result<(BlossomExchange, AuthorizationRequest), Answer>)
    ensures
        exists|now: u64|
            opens(
                r,
                #[trigger] opening(
                    route_of(method@, path@),
                    headers::header_values(*headers),
                    blossom_hostname@,
                    max_write_bytes,
                    now,
                ),
            ),
{
    let now = event::now();
    blossom_request_at(method, path, headers, blossom_hostname, max_write_bytes, now)
}

/// How an exchange answers where no storage was set aside.
pub fn blossom_reservation_error(error: ReserveError) -> (r: Answer)
    ensures
        r@ == reservation_fault(error),
{
    match error {
        ReserveError::UploadLimitReached => Answer {
            status: 413,
            text: "Upload exceeds the account plan's file-size limit",
        },
        ReserveError::StorageLimitReached => Answer {
            status: 413,
            text: "Account Blossom storage limit reached",
        },
        ReserveError::Unavailable => Answer {
            status: 503,
            text: "Storage accounting unavailable",
        },
    }
}

fn own_reply(status: u16, text: &'static str) -> (r: ExchangeAction)
    ensures
        r@ == ExchangeActionView::Reply(ReplyView::Own(AnswerView { status, text: text@ })),
{
    ExchangeAction::Reply(Reply::Own(Answer { status, text }))
}

impl BlossomExchange {
    fn reserve_hash(&self) -> (r: Option<String>)
        ensures
            text::optional_string(r) == hash_to_reserve(self@),
    {
        if let Some(hash) = &self.shown_hash {
            return Some(hash.clone());
        }
        match self.route {
            BlossomRoute::UploadPreflight => {
                return None;
            },
            _ => {},
        }
        match &self.authorization {
            Some(authorization) => {
                assert(authorization@.hashes.len() == authorization.hashes@.len());
                if authorization.hashes.len() == 0 {
                    None
                } else {
                    assert(authorization@.hashes[0] == authorization.hashes@[0]@);
                    Some(authorization.hashes[0].clone())
                }
            },
            None => None,
        }
    }

    fn reserve_bytes(&self) -> (r: Result<i64, &'static str>)
        ensures
            match bytes_to_reserve(self@) {
                Ok(requested) => r == Ok::<i64, &'static str>(requested),
                Err(message) => r is Err && r->Err_0@ == message,
            },
    {
        match self.route {
            BlossomRoute::UploadPreflight => match self.announced_length {
                Some(length) => Ok(length),
                None => Err("X-Content-Length is required"),
            },
            BlossomRoute::Upload => match self.content_length {
                Some(length) => Ok(length),
                None => Err("Content-Length is required"),
            },
            _ => Ok(self.max_write_bytes),
        }
    }

    fn on_grant(&mut self, answer: AuthorizationResponse) -> (r: ExchangeAction)
        ensures
            (final(self)@, r@) == grant_step(old(self)@, answer@),
    {
        if !answer.authorized {
            self.phase = Phase::Done;
            return own_reply(403, "Nostr public key is not approved");
        }
        let preflight = match self.route {
            BlossomRoute::UploadPreflight => true,
            _ => false,
        };
        let stores = match self.route {
            BlossomRoute::Upload => true,
            BlossomRoute::UploadPreflight => true,
            BlossomRoute::Mirror => true,
            _ => false,
        };
        if !stores {
            self.account = answer.account_identity_id;
            self.phase = Phase::Forwarding;
            return ExchangeAction::Forward;
        }
        let account = match answer.account_identity_id {
            Some(account) => account,
            None => {
                self.phase = Phase::Done;
                return own_reply(403, "Nostr identity is not linked to an account");
            },
        };
        match self.reserve_bytes() {
            Ok(requested) => {
                let request = ReserveUploadRequest {
                    account_identity_id: account.clone(),
                    requested_bytes: requested,
                    sha256: self.reserve_hash(),
                };
                self.account = Some(account);
                self.phase = if preflight {
                    Phase::Checking
                } else {
                    Phase::Reserving { requested }
                };
                ExchangeAction::Reserve(request)
            },
            Err(message) => {
                self.phase = Phase::Done;
                own_reply(411, message)
            },
        }
    }

    fn on_upload(&mut self, reservation: String, requested: i64, outcome: UploadOutcome) -> (r:
        ExchangeAction)
        ensures
            (final(self)@, r@) == upload_step(
                old(self)@,
                reservation@,
                requested,
                outcome@,
            ),
    {
        let (status, descriptor) = match outcome {
            UploadOutcome::Failed => {
                self.phase = Phase::Cancelling { reply: Reply::Own(proxy::upstream_failed()) };
                return ExchangeAction::Cancel(reservation);
            },
            UploadOutcome::Answered { status, descriptor } => (status, descriptor),
        };
        if !api::is_success(status) {
            self.phase = Phase::Cancelling { reply: Reply::Upstream };
            return ExchangeAction::Cancel(reservation);
        }
        if let Some(found) = descriptor {
            if blob::valid_blob_descriptor(&found) && found.size <= requested {
                self.phase = Phase::Committing { reservation: reservation.clone() };
                return ExchangeAction::Commit(
                    reservation,
                    CommitUploadRequest {
                        sha256: found.sha256,
                        size_bytes: found.size,
                        mime_type: found.mime_type,
                        public_url: found.url,
                        uploaded_at: found.uploaded,
                    },
                );
            }
        }
        self.phase =
        Phase::Cancelling {
            reply: Reply::Own(Answer { status: 502, text: "Invalid Blossom upload response" }),
        };
        ExchangeAction::Cancel(reservation)
    }

    fn on_status(&mut self, status: Option<u16>) -> (r: ExchangeAction)
        ensures
            (final(self)@, r@) == forward_step(old(self)@, status),
    {
        let code = match status {
            Some(code) => code,
            None => {
                self.phase = Phase::Done;
                return own_reply(502, "service temporarily unavailable");
            },
        };
        if api::is_success(code) {
            if let (Some(account), BlossomRoute::Delete(hash)) = (&self.account, &self.route) {
                let request = ReleaseOwnerRequest {
                    account_identity_id: account.clone(),
                    sha256: hash.clone(),
                };
                self.phase = Phase::Releasing;
                return ExchangeAction::Release(request);
            }
        }
        self.phase = Phase::Done;
        ExchangeAction::Stream
    }

    /// Takes what came of an action; `None`, and nothing changes, where the exchange does not wait
    /// for it.
    pub fn step(&mut self, event: ExchangeEvent) -> (r: Option<ExchangeAction>)
        ensures
            match r {
                Some(action) => exchange_step(old(self)@, event@) == Some(
                    (final(self)@, action@),
                ),
                None => exchange_step(old(self)@, event@) is None && final(self)@ == old(self)@,
            },
    {
        let mut phase = Phase::Done;
        std::mem::swap(&mut phase, &mut self.phase);
        match (phase, event) {
            (Phase::Authorizing, ExchangeEvent::Granted(answer)) => {
                self.phase = Phase::Authorizing;
                Some(self.on_grant(answer))
            },
            (Phase::Checking, ExchangeEvent::Reserved(outcome)) => match outcome {
                Ok(made) => {
                    self.phase = Phase::ClearingCheck;
                    Some(ExchangeAction::Cancel(made.reservation_id))
                },
                Err(error) => Some(
                    ExchangeAction::Reply(Reply::Own(blossom_reservation_error(error))),
                ),
            },
            (Phase::ClearingCheck, ExchangeEvent::Cancelled) => {
                self.phase = Phase::Forwarding;
                Some(ExchangeAction::Forward)
            },
            (Phase::Reserving { requested }, ExchangeEvent::Reserved(outcome)) => match outcome {
                Ok(made) => {
                    self.phase = Phase::Uploading { reservation: made.reservation_id, requested };
                    Some(ExchangeAction::Upload)
                },
                Err(error) => Some(
                    ExchangeAction::Reply(Reply::Own(blossom_reservation_error(error))),
                ),
            },
            (Phase::Uploading { reservation, requested }, ExchangeEvent::Uploaded(outcome)) => {
                Some(self.on_upload(reservation, requested, outcome))
            },
            (Phase::Committing { reservation }, ExchangeEvent::Committed(done)) => if done {
                Some(ExchangeAction::Reply(Reply::Upstream))
            } else {
                self.phase =
                Phase::Cancelling {
                    reply: Reply::Own(
                        Answer { status: 503, text: "Storage accounting unavailable" },
                    ),
                };
                Some(ExchangeAction::Cancel(reservation))
            },
            (Phase::Cancelling { reply }, ExchangeEvent::Cancelled) => Some(
                ExchangeAction::Reply(reply),
            ),
            (Phase::Forwarding, ExchangeEvent::Forwarded(status)) => Some(self.on_status(status)),
            (Phase::Releasing, ExchangeEvent::Released(_)) => Some(ExchangeAction::Stream),
            (other, _) => {
                self.phase = other;
                None
            },
        }
    }
}

} // verus!
