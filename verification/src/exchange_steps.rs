//! What each step of an exchange with the media store comes to, said of requests, fields and answers.

use vstd::prelude::*;
use crate::api::{AuthorizationRequest, GrantView, ReserveError};
use crate::blob::{self, BlobDescriptor, DescriptorView};
use crate::blossom::{self, BlossomAuthorizationView};
use crate::exchange::{
    self, BlossomExchange, BlossomRoute, ExchangeAction, ExchangeActionView, ExchangeEvent,
    ExchangeInput, ExchangeView, PhaseView, Reply, ReplyView, RouteView, UploadOutcome, UploadView,
};
use crate::headers;
use crate::proxy::{Answer, AnswerView};
use crate::text;

verus! {

proof fn lemma_names_differ()
    ensures
        "PUT"@ != "HEAD"@,
        "PUT"@ != "DELETE"@,
        "HEAD"@ != "DELETE"@,
        "PUT"@ != "GET"@,
        "/upload"@ != "/mirror"@,
        "/upload"@ != "/media"@,
        "/mirror"@ != "/media"@,
        "/upload"@ != "/report"@,
        "/mirror"@ != "/report"@,
{
    reveal_strlit("PUT");
    reveal_strlit("GET");
    reveal_strlit("HEAD");
    reveal_strlit("DELETE");
    reveal_strlit("/upload");
    reveal_strlit("/mirror");
    reveal_strlit("/media");
    reveal_strlit("/report");
    assert("PUT"@.len() == 3 && "HEAD"@.len() == 4 && "DELETE"@.len() == 6);
    assert("PUT"@[0] == 'P' && "GET"@[0] == 'G');
    assert("/media"@.len() == 6 && "/upload"@.len() == 7 && "/mirror"@.len() == 7);
    assert("/upload"@[1] == 'u' && "/mirror"@[1] == 'm' && "/report"@[1] == 'r');
}

/// What a request is for goes by its method and path alone: uploads, questions for an upload, mirrored
/// blobs, other forms of blobs, and deletions of the blob that the path names. Anything else has to be
/// authorized unless it is a download or a report.
pub proof fn law_routes(method: Seq<char>, path: Seq<char>, hash: Seq<char>)
    ensures
        ({
            let route = exchange::route_of(method, path);
            let put = method == "PUT"@;
            let head = method == "HEAD"@;
            let named = blossom::hash_in_path(path) is Some;
            let stored = (put || head) && (path == "/upload"@ || path == "/media"@);
            &&& put && path == "/upload"@ ==> route == RouteView::Upload
            &&& head && path == "/upload"@ ==> route == RouteView::UploadPreflight
            &&& put && path == "/mirror"@ ==> route == RouteView::Mirror
            &&& (put || head) && path == "/media"@ ==> route == RouteView::Media
            &&& method == "DELETE"@ && blossom::hash_in_path(path) == Some(hash) ==> route
                == RouteView::Delete(hash)
            &&& !stored && !(put && path == "/mirror"@) && !(method == "DELETE"@ && named) ==> route
                == RouteView::Other {
                authorized: method != "GET"@ && method != "HEAD"@ && path != "/report"@,
            }
        }),
{
    lemma_names_differ();
}

/// What a request has to be authorized for: to upload, for an upload, for the question for one and for
/// a mirrored blob; to delete the blob that it names; for media, for another form; and for anything at
/// all otherwise. Mirrored blobs, other forms and deletions have to name a hash.
pub proof fn law_demands(
    route: RouteView,
    server: Seq<char>,
    shown_hash: Option<Seq<char>>,
    hash: Seq<char>,
)
    ensures
        ({
            let demand = route.demand(server, shown_hash);
            &&& demand.server == server
            &&& route is Upload || route is UploadPreflight || route is Mirror ==> demand.action
                == Some("upload"@) && demand.hash == shown_hash
            &&& route is Media ==> demand.action == Some("media"@) && demand.hash == shown_hash
            &&& route == RouteView::Delete(hash) ==> demand.action == Some("delete"@) && demand.hash
                == Some(hash)
            &&& route is Other ==> demand.action is None && demand.hash == shown_hash
            &&& demand.hash_required <==> route is Mirror || route is Media || route is Delete
            &&& route.needs_authorization() <==> route != (RouteView::Other { authorized: false })
        }),
{
}

/// A field gives a length where it is a number that is not below zero.
pub proof fn law_lengths(field: Seq<char>, n: i64)
    ensures
        exchange::length_in(None) is None,
        exchange::length_in(Some(field)) == Some(n) <==> text::decimal_i64(field) == Some(n) && n >= 0,
{
}

/// A field gives a hash where it is one.
pub proof fn law_shown_hashes(field: Seq<char>, hash: Seq<char>)
    ensures
        exchange::hash_in(None) is None,
        exchange::hash_in(Some(field)) == Some(hash) <==> field == hash && blossom::is_hash(hash),
{
}

/// An exchange opens with what its request shows: the hash, the length and the announced length in
/// the fields for them, its authorization and no account.
pub proof fn law_opened(
    route: RouteView,
    values: Map<Seq<char>, Seq<Seq<u8>>>,
    authorization: Option<BlossomAuthorizationView>,
    max_write_bytes: i64,
    n: i64,
    hash: Seq<char>,
)
    ensures
        ({
            let start = exchange::opened(route, values, authorization, max_write_bytes);
            let given = headers::text_of(values, "content-length"@);
            let announced = headers::text_of(values, "x-content-length"@);
            let shown = headers::text_of(values, "x-sha-256"@);
            &&& start.route == route
            &&& start.authorization == authorization
            &&& start.max_write_bytes == max_write_bytes
            &&& start.account is None
            &&& start.phase is Authorizing
            &&& start.content_length == Some(n) <==> given is Some && text::decimal_i64(given->0)
                == Some(n) && n >= 0
            &&& start.announced_length == Some(n) <==> announced is Some && text::decimal_i64(
                announced->0,
            ) == Some(n) && n >= 0
            &&& start.shown_hash == Some(hash) <==> shown == Some(hash) && blossom::is_hash(hash)
        }),
{
}

/// A request that needs no authorization always opens an exchange, and one that needs it opens one
/// exactly where the field for it authorizes the request; else the request is answered with the status
/// 401 and the reason.
pub proof fn law_opening(
    route: RouteView,
    values: Map<Seq<char>, Seq<Seq<u8>>>,
    server: Seq<char>,
    max_write_bytes: i64,
    now: u64,
)
    ensures
        ({
            let outcome = exchange::opening(route, values, server, max_write_bytes, now);
            let shown_hash = exchange::hash_in(headers::text_of(values, "x-sha-256"@));
            let shown = blossom::authorization(
                headers::text_of(values, "authorization"@),
                route.demand(server, shown_hash),
                now,
            );
            let open = route == (RouteView::Other { authorized: false });
            &&& open ==> outcome == Ok::<ExchangeView, AnswerView>(
                exchange::opened(route, values, None, max_write_bytes),
            )
            &&& !open && shown is Ok ==> outcome == Ok::<ExchangeView, AnswerView>(
                exchange::opened(route, values, Some(shown->Ok_0), max_write_bytes),
            )
            &&& !open && shown is Err ==> outcome is Err && outcome->Err_0.status == 401
                && outcome->Err_0.text == shown->Err_0
        }),
{
}

/// An exchange asks first whether the key that authorized the request may write to the media store;
/// where no authorization is needed, whether anybody may read.
pub proof fn law_grant_asked(request: AuthorizationRequest, exchange: ExchangeView)
    requires
        exchange::grant_asked(request, exchange),
    ensures
        request.service@ == "shared-blossom"@,
        exchange.route != (RouteView::Other { authorized: false }) ==> request.action@ == "write"@,
        exchange.route == (RouteView::Other { authorized: false }) ==> request.action@ == "read"@,
        request.public_key is Some <==> exchange.authorization is Some,
        request.public_key is Some ==> request.public_key->0@
            == exchange.authorization->0.public_key,
{
}

/// A request opens what is expected exactly where it opens that exchange and asks for its grant, or is
/// answered so.
pub proof fn law_opens(
    outcome: Result<(BlossomExchange, AuthorizationRequest), Answer>,
    expected: ExchangeView,
    answer: AnswerView,
)
    ensures
        exchange::opens(outcome, Ok(expected)) <==> outcome is Ok && ({
            let opened = outcome->Ok_0;
            opened.0@ == expected && exchange::grant_asked(opened.1, expected)
        }),
        exchange::opens(outcome, Err(answer)) <==> outcome is Err && outcome->Err_0.status
            == answer.status && outcome->Err_0.text@ == answer.text,
{
}

/// What a granted account sets aside: for an upload, as many bytes as the field for its length says,
/// however many may be mirrored; for a mirrored blob, as many as may be; for the question for an
/// upload, as many as it announces. Where the field says no number from zero up, the request is
/// answered with the status 411.
pub proof fn law_bytes_set_aside(
    route: RouteView,
    values: Map<Seq<char>, Seq<Seq<u8>>>,
    authorization: Option<BlossomAuthorizationView>,
    max_write_bytes: i64,
    account: Seq<char>,
    n: i64,
)
    ensures
        ({
            let start = exchange::opened(route, values, authorization, max_write_bytes);
            let answer = GrantView { authorized: true, account: Some(account) };
            let next = exchange::exchange_step(start, ExchangeInput::Granted(answer));
            let step = next->0;
            let given = headers::text_of(values, "content-length"@);
            let announced = headers::text_of(values, "x-content-length"@);
            let said = given is Some && text::decimal_i64(given->0) == Some(n) && n >= 0;
            let foretold = announced is Some && text::decimal_i64(announced->0) == Some(n) && n >= 0;
            let unsaid = given is None || text::decimal_i64(given->0) is None || text::decimal_i64(
                given->0,
            )->0 < 0;
            let unforetold = announced is None || text::decimal_i64(announced->0) is None
                || text::decimal_i64(announced->0)->0 < 0;
            &&& next is Some
            &&& route is Upload && said ==> {
                &&& step.1 is Reserve
                &&& step.1->account == account
                &&& step.1->requested == n
                &&& step.0.phase == PhaseView::Reserving { asked: n }
                &&& step.0.account == Some(account)
            }
            &&& route is Upload && unsaid ==> {
                &&& step.0.phase is Done
                &&& step.1 == ExchangeActionView::Reply(
                    ReplyView::Own(AnswerView { status: 411, text: "Content-Length is required"@ }),
                )
            }
            &&& route is Mirror ==> {
                &&& step.1 is Reserve
                &&& step.1->account == account
                &&& step.1->requested == max_write_bytes
                &&& step.0.phase == PhaseView::Reserving { asked: max_write_bytes }
                &&& step.0.account == Some(account)
            }
            &&& route is UploadPreflight && foretold ==> {
                &&& step.1 is Reserve
                &&& step.1->account == account
                &&& step.1->requested == n
                &&& step.0.phase is Checking
                &&& step.0.account == Some(account)
            }
            &&& route is UploadPreflight && unforetold ==> {
                &&& step.0.phase is Done
                &&& step.1 == ExchangeActionView::Reply(
                    ReplyView::Own(
                        AnswerView { status: 411, text: "X-Content-Length is required"@ },
                    ),
                )
            }
        }),
{
}

/// How much an upload sets aside does not go by how much may be mirrored: two exchanges for one
/// request, under two such limits, set the same aside.
pub proof fn law_uploads_are_not_capped(
    values: Map<Seq<char>, Seq<Seq<u8>>>,
    authorization: Option<BlossomAuthorizationView>,
    one: i64,
    other: i64,
    answer: GrantView,
)
    ensures
        ({
            let granted = ExchangeInput::Granted(answer);
            let first = exchange::exchange_step(
                exchange::opened(RouteView::Upload, values, authorization, one),
                granted,
            );
            let second = exchange::exchange_step(
                exchange::opened(RouteView::Upload, values, authorization, other),
                granted,
            );
            let a = first->0;
            let b = second->0;
            a.1 == b.1
        }),
{
}

/// The hash under which storage is set aside: the one that the request shows; else, but for the
/// question for an upload, the first that its authorization names; else none.
pub proof fn law_hash_set_aside(
    route: RouteView,
    values: Map<Seq<char>, Seq<Seq<u8>>>,
    authorization: Option<BlossomAuthorizationView>,
    max_write_bytes: i64,
    answer: GrantView,
)
    ensures
        ({
            let start = exchange::opened(route, values, authorization, max_write_bytes);
            let next = exchange::exchange_step(start, ExchangeInput::Granted(answer));
            let step = next->0;
            let shown = headers::text_of(values, "x-sha-256"@);
            let given = shown is Some && blossom::is_hash(shown->0);
            let names = authorization is Some && authorization->0.hashes.len() > 0 && route
                !is UploadPreflight;
            step.1 is Reserve ==> {
                &&& given ==> step.1->hash == shown
                &&& !given && names ==> step.1->hash == Some(authorization->0.hashes[0])
                &&& !given && !names ==> step.1->hash is None
            }
        }),
{
}

/// What the answer to the question for a grant leads to. Without a grant the request is answered with
/// the status 403, and so is one that stores something for no account. With one, whatever stores
/// nothing is sent on.
pub proof fn law_grants(exchange: ExchangeView, answer: GrantView)
    requires
        exchange.phase is Authorizing,
    ensures
        ({
            let next = exchange::exchange_step(exchange, ExchangeInput::Granted(answer));
            let stores = exchange.route is Upload || exchange.route is UploadPreflight
                || exchange.route is Mirror;
            &&& !answer.authorized ==> next == Some(
                (
                    ExchangeView { phase: PhaseView::Done, ..exchange },
                    ExchangeActionView::Reply(
                        ReplyView::Own(
                            AnswerView { status: 403, text: "Nostr public key is not approved"@ },
                        ),
                    ),
                ),
            )
            &&& answer.authorized && !stores ==> next == Some(
                (
                    ExchangeView {
                        phase: PhaseView::Forwarding,
                        account: answer.account,
                        ..exchange
                    },
                    ExchangeActionView::Forward,
                ),
            )
            &&& answer.authorized && stores && answer.account is None ==> next == Some(
                (
                    ExchangeView { phase: PhaseView::Done, ..exchange },
                    ExchangeActionView::Reply(
                        ReplyView::Own(
                            AnswerView {
                                status: 403,
                                text: "Nostr identity is not linked to an account"@,
                            },
                        ),
                    ),
                ),
            )
        }),
{
}

/// How a request is answered where no storage is set aside: with the status 413 where a limit is
/// reached, which is named, and with 503 where the accounts are not reached.
pub proof fn law_refused_storage(exchange: ExchangeView, error: ReserveError)
    requires
        exchange.phase is Checking || exchange.phase is Reserving,
    ensures
        ({
            let next = exchange::exchange_step(exchange, ExchangeInput::Reserved(Err(error)));
            let step = next->0;
            let own = step.1->Reply_0;
            let answer = own->Own_0;
            &&& exchange::reservation_fault(error) == answer
            &&& next is Some
            &&& step.0 == ExchangeView { phase: PhaseView::Done, ..exchange }
            &&& step.1 is Reply && own is Own
            &&& error == ReserveError::UploadLimitReached ==> answer.status == 413 && answer.text
                == "Upload exceeds the account plan's file-size limit"@
            &&& error == ReserveError::StorageLimitReached ==> answer.status == 413 && answer.text
                == "Account Blossom storage limit reached"@
            &&& error == ReserveError::Unavailable ==> answer.status == 503 && answer.text
                == "Storage accounting unavailable"@
        }),
{
}

/// Storage that was set aside only to check is given back at once, and then the request is sent on.
/// Storage that was set aside for an upload is kept for it, in its size, and the upload sent.
pub proof fn law_storage_set_aside(exchange: ExchangeView, reservation: Seq<char>, asked: i64)
    ensures
        ({
            let made = ExchangeInput::Reserved(Ok(reservation));
            &&& exchange.phase is Checking ==> exchange::exchange_step(exchange, made) == Some(
                (
                    ExchangeView { phase: PhaseView::ClearingCheck, ..exchange },
                    ExchangeActionView::Cancel(reservation),
                ),
            )
            &&& exchange.phase is ClearingCheck ==> exchange::exchange_step(
                exchange,
                ExchangeInput::Cancelled,
            ) == Some(
                (
                    ExchangeView { phase: PhaseView::Forwarding, ..exchange },
                    ExchangeActionView::Forward,
                ),
            )
            &&& exchange.phase == (PhaseView::Reserving { asked })
                ==> exchange::exchange_step(exchange, made) == Some(
                (
                    ExchangeView {
                        phase: PhaseView::Uploading { reserved: reservation, requested: asked },
                        ..exchange
                    },
                    ExchangeActionView::Upload,
                ),
            )
        }),
{
}

/// What the outcome of an upload leads to. It is accounted for exactly where the media store reports
/// success, from 200 up to 299, and says what can be kept and takes no more than was set aside. Else
/// storage is given back, to answer then with the response of the media store where that reports no
/// success, and with the status 502 where it was not reached or what it says is no good.
pub proof fn law_uploads(
    exchange: ExchangeView,
    reservation: Seq<char>,
    requested: i64,
    status: u16,
    descriptor: Option<DescriptorView>,
)
    requires
        exchange.phase == (PhaseView::Uploading { reserved: reservation, requested }),
    ensures
        ({
            let lost = exchange::exchange_step(
                exchange,
                ExchangeInput::Uploaded(UploadView::Failed),
            );
            let next = exchange::exchange_step(
                exchange,
                ExchangeInput::Uploaded(UploadView::Answered { status, descriptor }),
            );
            let taken = 200 <= status <= 299;
            let good = descriptor is Some && blob::valid_descriptor(descriptor->0)
                && descriptor->0.size <= requested;
            &&& lost == Some(
                (
                    ExchangeView {
                        phase: PhaseView::Cancelling {
                            reply: ReplyView::Own(
                                AnswerView { status: 502, text: "service temporarily unavailable"@ },
                            ),
                        },
                        ..exchange
                    },
                    ExchangeActionView::Cancel(reservation),
                ),
            )
            &&& !taken ==> next == Some(
                (
                    ExchangeView {
                        phase: PhaseView::Cancelling { reply: ReplyView::Upstream },
                        ..exchange
                    },
                    ExchangeActionView::Cancel(reservation),
                ),
            )
            &&& taken && good ==> next == Some(
                (
                    ExchangeView { phase: PhaseView::Committing { reservation }, ..exchange },
                    ExchangeActionView::Commit { reservation, descriptor: descriptor->0 },
                ),
            )
            &&& taken && !good ==> next == Some(
                (
                    ExchangeView {
                        phase: PhaseView::Cancelling {
                            reply: ReplyView::Own(
                                AnswerView { status: 502, text: "Invalid Blossom upload response"@ },
                            ),
                        },
                        ..exchange
                    },
                    ExchangeActionView::Cancel(reservation),
                ),
            )
        }),
{
}

/// What accounting for an upload, and giving storage back, lead to: the response of the media store
/// once the upload is accounted for; where it cannot be, storage is given back, to answer with the
/// status 503; and once it is given back, the answer that was to follow.
pub proof fn law_settlements(exchange: ExchangeView, reservation: Seq<char>, reply: ReplyView)
    ensures
        exchange.phase == (PhaseView::Committing { reservation }) ==> exchange::exchange_step(
            exchange,
            ExchangeInput::Committed(true),
        ) == Some(
            (
                ExchangeView { phase: PhaseView::Done, ..exchange },
                ExchangeActionView::Reply(ReplyView::Upstream),
            ),
        ),
        exchange.phase == (PhaseView::Committing { reservation }) ==> exchange::exchange_step(
            exchange,
            ExchangeInput::Committed(false),
        ) == Some(
            (
                ExchangeView {
                    phase: PhaseView::Cancelling {
                        reply: ReplyView::Own(
                            AnswerView { status: 503, text: "Storage accounting unavailable"@ },
                        ),
                    },
                    ..exchange
                },
                ExchangeActionView::Cancel(reservation),
            ),
        ),
        exchange.phase == (PhaseView::Cancelling { reply }) ==> exchange::exchange_step(
            exchange,
            ExchangeInput::Cancelled,
        ) == Some(
            (
                ExchangeView { phase: PhaseView::Done, ..exchange },
                ExchangeActionView::Reply(reply),
            ),
        ),
{
}

/// What the status of the media store leads to. Where it is not reached the answer has the status 502.
/// Where it reports that it deleted a blob, with a status from 200 up to 299, the account that was
/// granted gives up its share in the blob first. Anything else is streamed as it is.
pub proof fn law_statuses(exchange: ExchangeView, status: u16, hash: Seq<char>, released: bool)
    ensures
        exchange.phase is Forwarding ==> {
            let next = exchange::exchange_step(exchange, ExchangeInput::Forwarded(Some(status)));
            let shares = 200 <= status <= 299 && exchange.account is Some;
            &&& exchange::exchange_step(exchange, ExchangeInput::Forwarded(None)) == Some(
                (
                    ExchangeView { phase: PhaseView::Done, ..exchange },
                    ExchangeActionView::Reply(
                        ReplyView::Own(
                            AnswerView { status: 502, text: "service temporarily unavailable"@ },
                        ),
                    ),
                ),
            )
            &&& shares && exchange.route == RouteView::Delete(hash) ==> next == Some(
                (
                    ExchangeView { phase: PhaseView::Releasing, ..exchange },
                    ExchangeActionView::Release { owner: exchange.account->0, sha256: hash },
                ),
            )
            &&& !shares || exchange.route !is Delete ==> next == Some(
                (
                    ExchangeView { phase: PhaseView::Done, ..exchange },
                    ExchangeActionView::Stream,
                ),
            )
        },
        exchange.phase is Releasing ==> exchange::exchange_step(
            exchange,
            ExchangeInput::Released(released),
        ) == Some(
            (ExchangeView { phase: PhaseView::Done, ..exchange }, ExchangeActionView::Stream),
        ),
{
}

/// An exchange takes what it waits for, and nothing else.
pub proof fn law_what_is_awaited(exchange: ExchangeView, input: ExchangeInput)
    ensures
        exchange::exchange_step(exchange, input) is Some <==> {
            ||| exchange.phase is Authorizing && input is Granted
            ||| exchange.phase is Checking && input is Reserved
            ||| exchange.phase is ClearingCheck && input is Cancelled
            ||| exchange.phase is Reserving && input is Reserved
            ||| exchange.phase is Uploading && input is Uploaded
            ||| exchange.phase is Committing && input is Committed
            ||| exchange.phase is Cancelling && input is Cancelled
            ||| exchange.phase is Forwarding && input is Forwarded
            ||| exchange.phase is Releasing && input is Released
        },
{
}

/// What is to be done is what the action holds: the account, the bytes and the hash to set aside, the
/// reservation to give back, all that is to be kept of a blob, and the owner and blob of a share.
pub proof fn law_actions_hold(action: ExchangeAction)
    ensures
        match action {
            ExchangeAction::Reserve(request) => {
                &&& action@ is Reserve
                &&& action@->account == request.account_identity_id@
                &&& action@->requested == request.requested_bytes
                &&& action@->hash is Some <==> request.sha256 is Some
                &&& request.sha256 is Some ==> action@->hash == Some(request.sha256->0@)
            },
            ExchangeAction::Cancel(reservation) => action@ == ExchangeActionView::Cancel(
                reservation@,
            ),
            ExchangeAction::Upload => action@ is Upload,
            ExchangeAction::Forward => action@ is Forward,
            ExchangeAction::Commit(reservation, request) => {
                let kept = action@->descriptor;
                &&& action@ is Commit
                &&& action@->Commit_reservation == reservation@
                &&& kept.sha256 == request.sha256@
                &&& kept.size == request.size_bytes
                &&& kept.mime_type == request.mime_type@
                &&& kept.url == request.public_url@
                &&& kept.uploaded == request.uploaded_at
            },
            ExchangeAction::Release(request) => {
                &&& action@ is Release
                &&& action@->owner == request.account_identity_id@
                &&& action@->sha256 == request.sha256@
            },
            ExchangeAction::Reply(Reply::Own(answer)) => {
                &&& action@ == ExchangeActionView::Reply(ReplyView::Own(answer@))
                &&& answer@.status == answer.status
                &&& answer@.text == answer.text@
            },
            ExchangeAction::Reply(Reply::Upstream) => action@ == ExchangeActionView::Reply(
                ReplyView::Upstream,
            ),
            ExchangeAction::Stream => action@ is Stream,
        },
{
}

/// What comes back into an exchange is what the event holds, and what is said of a blob is all that is
/// said of it.
pub proof fn law_events_hold(event: ExchangeEvent, descriptor: BlobDescriptor, route: BlossomRoute)
    ensures
        match event {
            ExchangeEvent::Granted(answer) => {
                let grant = event@->Granted_0;
                &&& event@ is Granted
                &&& grant.authorized == answer.authorized
                &&& grant.account is Some <==> answer.account_identity_id is Some
                &&& grant.account is Some ==> grant.account->0 == answer.account_identity_id->0@
            },
            ExchangeEvent::Reserved(Ok(made)) => event@ == ExchangeInput::Reserved(
                Ok(made.reservation_id@),
            ),
            ExchangeEvent::Reserved(Err(error)) => event@ == ExchangeInput::Reserved(Err(error)),
            ExchangeEvent::Cancelled => event@ is Cancelled,
            ExchangeEvent::Uploaded(UploadOutcome::Failed) => event@ == ExchangeInput::Uploaded(
                UploadView::Failed,
            ),
            ExchangeEvent::Uploaded(UploadOutcome::Answered { status, descriptor }) => event@
                == ExchangeInput::Uploaded(
                UploadView::Answered {
                    status,
                    descriptor: match descriptor {
                        Some(found) => Some(found@),
                        None => None,
                    },
                },
            ),
            ExchangeEvent::Committed(done) => event@ == ExchangeInput::Committed(done),
            ExchangeEvent::Forwarded(status) => event@ == ExchangeInput::Forwarded(status),
            ExchangeEvent::Released(done) => event@ == ExchangeInput::Released(done),
        },
        descriptor@.sha256 == descriptor.sha256@,
        descriptor@.size == descriptor.size,
        descriptor@.mime_type == descriptor.mime_type@,
        descriptor@.url == descriptor.url@,
        descriptor@.uploaded == descriptor.uploaded,
        route@ is Upload <==> route is Upload,
        route@ is UploadPreflight <==> route is UploadPreflight,
        route@ is Mirror <==> route is Mirror,
        route@ is Media <==> route is Media,
        route@ is Delete <==> route is Delete,
        route is Delete ==> route@->Delete_0 == route->Delete_0@,
        route@ is Other <==> route is Other,
        route is Other ==> route@->authorized == route->authorized,
{
}

} // verus!
