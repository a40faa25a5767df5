//! What holds of a whole exchange with the media store, whatever comes back into it.

use vstd::prelude::*;
use crate::api::{self, AuthorizationRequest};
use crate::blob;
use crate::blossom;
use crate::exchange::{
    self, ExchangeActionView, ExchangeInput, ExchangeView, PhaseView, ReplyView, RouteView,
    UploadView,
};
use crate::headers;
use crate::proxy::AnswerView;
use crate::text;

verus! {

/// An exchange after everything that came back into it; `None` where it did not wait for some of it.
pub open spec fn after(start: ExchangeView, inputs: Seq<ExchangeInput>) -> Option<ExchangeView>
    decreases inputs.len(),
{
    if inputs.len() == 0 {
        Some(start)
    } else {
        match after(start, inputs.drop_last()) {
            Some(exchange) => match exchange::exchange_step(exchange, inputs.last()) {
                Some(next) => Some(next.0),
                None => None,
            },
            None => None,
        }
    }
}

/// What an exchange does after the last of what came back into it.
pub open spec fn last_action(
    start: ExchangeView,
    inputs: Seq<ExchangeInput>,
) -> ExchangeActionView {
    let next = exchange::exchange_step(
        after(start, inputs.drop_last())->0,
        inputs.last(),
    )->0;
    next.1
}

/// What came back into an exchange up to a position, and at it.
pub open spec fn up_to(inputs: Seq<ExchangeInput>, i: int) -> Seq<ExchangeInput> {
    inputs.take(i + 1)
}

/// How an exchange came to its phase.
spec fn story(start: ExchangeView, inputs: Seq<ExchangeInput>, exchange: ExchangeView) -> bool {
    &&& exchange.route == start.route
    &&& exchange.authorization == start.authorization
    &&& exchange.shown_hash == start.shown_hash
    &&& exchange.content_length == start.content_length
    &&& exchange.announced_length == start.announced_length
    &&& exchange.max_write_bytes == start.max_write_bytes
    &&& inputs.len() > 0 ==> inputs[0] is Granted
    &&& inputs.len() > 0 && exchange.phase !is Done ==> {
        &&& inputs[0]->Granted_0.authorized
        &&& exchange.account == inputs[0]->Granted_0.account
    }
    &&& match exchange.phase {
        PhaseView::Authorizing => inputs.len() == 0 && exchange == start,
        PhaseView::Checking => inputs.len() == 1 && start.route is UploadPreflight,
        PhaseView::ClearingCheck => inputs.len() == 2 && start.route is UploadPreflight
            && inputs[1] is Reserved && inputs[1]->Reserved_0 is Ok,
        PhaseView::Reserving { asked } => inputs.len() == 1 && reserves(start, inputs, asked),
        PhaseView::Uploading { reserved, requested } => inputs.len() == 2 && reserves(
            start,
            inputs,
            requested,
        ) && inputs[1] == ExchangeInput::Reserved(Ok(reserved)),
        PhaseView::Committing { reservation } => inputs.len() == 3 && (start.route is Upload
            || start.route is Mirror) && inputs[1] == ExchangeInput::Reserved(Ok(reservation)),
        PhaseView::Cancelling { reply } => (inputs.len() == 3 || inputs.len() == 4) && (
        start.route is Upload || start.route is Mirror) && inputs[1] is Reserved
            && inputs[1]->Reserved_0 is Ok,
        PhaseView::Forwarding => !(start.route is Upload || start.route is Mirror)
            && if start.route is UploadPreflight {
            inputs.len() == 3 && inputs[1] is Reserved
        } else {
            inputs.len() == 1
        },
        PhaseView::Releasing => inputs.len() == 2 && start.route is Delete,
        PhaseView::Done => inputs.len() > 0,
    }
}

spec fn reserves(start: ExchangeView, inputs: Seq<ExchangeInput>, requested: i64) -> bool {
    &&& start.route is Upload || start.route is Mirror
    &&& inputs[0]->Granted_0.account is Some
    &&& exchange::bytes_to_reserve(start) == Ok::<i64, Seq<char>>(requested)
}

proof fn lemma_story(start: ExchangeView, inputs: Seq<ExchangeInput>)
    requires
        start.phase is Authorizing,
        after(start, inputs) is Some,
    ensures
        story(start, inputs, after(start, inputs)->0),
        inputs.len() > 0 ==> after(start, inputs.drop_last()) is Some,
    decreases inputs.len(),
{
    if inputs.len() > 0 {
        lemma_story(start, inputs.drop_last());
    }
}

/// The phases in the order in which an exchange can come to them.
pub open spec fn phases_left(phase: PhaseView) -> nat {
    match phase {
        PhaseView::Authorizing => 6,
        PhaseView::Checking => 5,
        PhaseView::Reserving { .. } => 5,
        PhaseView::ClearingCheck => 4,
        PhaseView::Uploading { .. } => 4,
        PhaseView::Committing { .. } => 3,
        PhaseView::Forwarding => 3,
        PhaseView::Cancelling { .. } => 1,
        PhaseView::Releasing => 1,
        PhaseView::Done => 0,
    }
}

/// Every exchange ends: each thing that comes back into it brings it nearer to its end, and it
/// responds when, and only when, it has come there.
pub proof fn law_exchanges_end(exchange: ExchangeView, input: ExchangeInput)
    requires
        exchange::exchange_step(exchange, input) is Some,
    ensures
        ({
            let next = exchange::exchange_step(exchange, input)->0;
            let action = next.1;
            &&& phases_left(next.0.phase) < phases_left(exchange.phase)
            &&& next.0.phase is Done <==> action is Reply || action is Stream
        }),
{
}

/// An exchange that is not granted does nothing but say so.
pub proof fn law_refused_without_a_grant(start: ExchangeView, input: ExchangeInput)
    requires
        start.phase is Authorizing,
        exchange::exchange_step(start, input) is Some,
        !input->Granted_0.authorized,
    ensures
        after(start, seq![input]) == Some(exchange::turned(start, PhaseView::Done)),
        last_action(start, seq![input]) == ExchangeActionView::Reply(
            ReplyView::Own(
                AnswerView { status: 403, text: "Nostr public key is not approved"@ },
            ),
        ),
        forall|other: ExchangeInput|
            after(start, seq![input].push(other)) is None,
{
    let inputs = seq![input];
    reveal_with_fuel(after, 2);
    assert(inputs.drop_last() =~= Seq::empty());
    assert forall|other: ExchangeInput| after(start, inputs.push(other)) is None by {
        assert(inputs.push(other).drop_last() =~= inputs);
    }
}

/// Nothing is sent to the media store, set aside, accounted for or given up before the request is
/// granted.
pub proof fn law_nothing_before_the_grant(start: ExchangeView, inputs: Seq<ExchangeInput>)
    requires
        start.phase is Authorizing,
        inputs.len() > 0,
        after(start, inputs) is Some,
        last_action(start, inputs) !is Reply,
    ensures
        inputs[0] is Granted,
        inputs[0]->Granted_0.authorized,
{
    lemma_story(start, inputs);
    lemma_story(start, inputs.drop_last());
}

/// An upload reaches the media store only after storage was set aside for it: by the account that
/// was granted, in the size that the request gives, or in the largest size for a mirrored blob, and
/// under the hash that the request or its authorization names.
pub proof fn law_uploads_are_reserved(start: ExchangeView, inputs: Seq<ExchangeInput>)
    requires
        start.phase is Authorizing,
        inputs.len() > 0,
        after(start, inputs) is Some,
        last_action(start, inputs) is Upload || (last_action(start, inputs) is Forward && (
        start.route is Upload || start.route is Mirror)),
    ensures
        inputs.len() == 2,
        inputs[0] is Granted,
        inputs[0]->Granted_0.account is Some,
        inputs[1] is Reserved,
        inputs[1]->Reserved_0 is Ok,
        ({
            let asked = last_action(start, up_to(inputs, 0));
            let names = start.authorization is Some && start.authorization->0.hashes.len() > 0;
            &&& start.route is Upload || start.route is Mirror
            &&& asked is Reserve
            &&& asked->account == inputs[0]->Granted_0.account->0
            &&& start.route is Upload ==> start.content_length == Some(asked->requested)
            &&& start.route is Mirror ==> asked->requested == start.max_write_bytes
            &&& start.shown_hash is Some ==> asked->hash == start.shown_hash
            &&& start.shown_hash is None && names ==> asked->hash == Some(
                start.authorization->0.hashes[0],
            )
            &&& start.shown_hash is None && !names ==> asked->hash is None
        }),
{
    lemma_story(start, inputs);
    lemma_story(start, inputs.drop_last());
    assert(up_to(inputs, 0) =~= inputs.drop_last());
    assert(inputs.drop_last().drop_last() =~= Seq::empty());
}

/// An upload is accounted for only under the reservation that was made for it, with what the media
/// store said of it, where that can be kept and takes no more than was set aside.
pub proof fn law_commits_fit_the_reservation(start: ExchangeView, inputs: Seq<ExchangeInput>)
    requires
        start.phase is Authorizing,
        inputs.len() > 0,
        after(start, inputs) is Some,
        last_action(start, inputs) is Commit,
    ensures
        ({
            let commit = last_action(start, inputs);
            let descriptor = commit->descriptor;
            &&& inputs.len() == 3
            &&& inputs[1] == ExchangeInput::Reserved(Ok(commit->Commit_reservation))
            &&& inputs[2] is Uploaded
            &&& inputs[2]->Uploaded_0 is Answered
            &&& api::success(inputs[2]->Uploaded_0->status)
            &&& inputs[2]->Uploaded_0->descriptor == Some(descriptor)
            &&& blob::valid_descriptor(descriptor)
            &&& start.route is Upload ==> start.content_length is Some && descriptor.size
                <= start.content_length->0
            &&& start.route is Mirror ==> descriptor.size <= start.max_write_bytes
            &&& start.route is Upload || start.route is Mirror
        }),
{
    lemma_story(start, inputs);
    lemma_story(start, inputs.drop_last());
}

/// Whether, at a position, an exchange gives a reservation back.
pub open spec fn given_back(
    start: ExchangeView,
    inputs: Seq<ExchangeInput>,
    reservation: Seq<char>,
    i: int,
) -> bool {
    last_action(start, up_to(inputs, i)) == ExchangeActionView::Cancel(reservation)
}

/// Whether, at a position, an exchange learns that an upload is accounted for under a reservation.
pub open spec fn committed(
    start: ExchangeView,
    inputs: Seq<ExchangeInput>,
    reservation: Seq<char>,
    i: int,
) -> bool {
    &&& i > 0
    &&& inputs[i] == ExchangeInput::Committed(true)
    &&& last_action(start, up_to(inputs, i - 1)) is Commit
    &&& last_action(start, up_to(inputs, i - 1))->Commit_reservation == reservation
}

/// Whether, at a position, an exchange settles a reservation: gives it back, or learns that an upload
/// is accounted for under it.
pub open spec fn settled_at(
    start: ExchangeView,
    inputs: Seq<ExchangeInput>,
    reservation: Seq<char>,
    i: int,
) -> bool {
    &&& 0 <= i < inputs.len()
    &&& given_back(start, inputs, reservation, i) || committed(start, inputs, reservation, i)
}

/// Whether an exchange settled a reservation at some position.
pub open spec fn settled(
    start: ExchangeView,
    inputs: Seq<ExchangeInput>,
    reservation: Seq<char>,
) -> bool {
    exists|i: int| settled_at(start, inputs, reservation, i)
}

proof fn lemma_settled_stays(
    start: ExchangeView,
    inputs: Seq<ExchangeInput>,
    reservation: Seq<char>,
)
    requires
        inputs.len() > 0,
        settled(start, inputs.drop_last(), reservation),
    ensures
        settled(start, inputs, reservation),
{
    let front = inputs.drop_last();
    let i = choose|i: int| settled_at(start, front, reservation, i);
    assert(up_to(inputs, i) =~= up_to(front, i));
    assert(up_to(inputs, i - 1) =~= up_to(front, i - 1));
    assert(inputs[i] == front[i]);
    assert(settled_at(start, inputs, reservation, i));
}

/// Whether a phase still owes a reservation a settlement.
spec fn owes(phase: PhaseView, reservation: Seq<char>) -> bool {
    match phase {
        PhaseView::Uploading { reserved, .. } => reserved == reservation,
        PhaseView::Committing { reservation: made } => made == reservation,
        _ => false,
    }
}

proof fn lemma_owed_or_settled(
    start: ExchangeView,
    inputs: Seq<ExchangeInput>,
    reservation: Seq<char>,
    at: int,
)
    requires
        start.phase is Authorizing,
        after(start, inputs) is Some,
        0 <= at < inputs.len(),
        inputs[at] == ExchangeInput::Reserved(Ok(reservation)),
    ensures
        owes(after(start, inputs)->0.phase, reservation) || settled(start, inputs, reservation),
        after(start, inputs)->0.phase is Committing && owes(
            after(start, inputs)->0.phase,
            reservation,
        ) ==> last_action(start, inputs) is Commit && last_action(start, inputs)->Commit_reservation
            == reservation,
    decreases inputs.len(),
{
    let front = inputs.drop_last();
    let last = inputs.len() - 1;
    lemma_story(start, inputs);
    lemma_story(start, front);
    assert(up_to(inputs, last) =~= inputs);
    if at == last {
        if after(start, inputs)->0.phase is ClearingCheck {
            assert(settled_at(start, inputs, reservation, last));
        }
    } else {
        lemma_owed_or_settled(start, front, reservation, at);
        if settled(start, front, reservation) {
            lemma_settled_stays(start, inputs, reservation);
        } else {
            assert(up_to(inputs, last - 1) =~= front);
            if last_action(start, inputs) == ExchangeActionView::Cancel(reservation)
                || inputs[last] == ExchangeInput::Committed(true) {
                assert(settled_at(start, inputs, reservation, last));
            }
        }
    }
}

/// The phases from which nothing is given back or accounted for any more.
spec fn quiet(phase: PhaseView) -> bool {
    phase is ClearingCheck || phase is Cancelling || phase is Forwarding || phase is Releasing
        || phase is Done
}

proof fn lemma_quiet_stays(start: ExchangeView, inputs: Seq<ExchangeInput>, i: int)
    requires
        after(start, inputs) is Some,
        0 <= i < inputs.len(),
    ensures
        after(start, up_to(inputs, i)) is Some,
        quiet(after(start, up_to(inputs, i))->0.phase) ==> quiet(after(start, inputs)->0.phase),
    decreases inputs.len(),
{
    if i == inputs.len() - 1 {
        assert(up_to(inputs, i) =~= inputs);
    } else {
        let front = inputs.drop_last();
        lemma_quiet_stays(start, front, i);
        assert(up_to(front, i) =~= up_to(inputs, i));
    }
}

proof fn lemma_settled_is_quiet(
    start: ExchangeView,
    inputs: Seq<ExchangeInput>,
    reservation: Seq<char>,
    i: int,
)
    requires
        after(start, inputs) is Some,
        settled_at(start, inputs, reservation, i),
    ensures
        quiet(after(start, up_to(inputs, i))->0.phase),
        !(given_back(start, inputs, reservation, i) && committed(start, inputs, reservation, i)),
{
    lemma_quiet_stays(start, inputs, i);
    assert(up_to(inputs, i).last() == inputs[i]);
}

proof fn lemma_not_settled_twice(
    start: ExchangeView,
    inputs: Seq<ExchangeInput>,
    reservation: Seq<char>,
    i: int,
    j: int,
)
    requires
        after(start, inputs) is Some,
        settled_at(start, inputs, reservation, i),
        settled_at(start, inputs, reservation, j),
    ensures
        i >= j,
{
    if i < j {
        let before = up_to(inputs, j - 1);
        lemma_settled_is_quiet(start, inputs, reservation, i);
        lemma_quiet_stays(start, inputs, j);
        lemma_quiet_stays(start, inputs, j - 1);
        lemma_quiet_stays(start, before, i);
        assert(up_to(before, i) =~= up_to(inputs, i));
        assert(up_to(inputs, j).drop_last() =~= before);
        assert(up_to(inputs, j).last() == inputs[j]);
    }
}

/// No storage stays set aside, and none is settled twice: when an exchange responds, every
/// reservation that it made was settled exactly once, either given back or accounted for and never
/// both.
pub proof fn law_reservations_are_settled(
    start: ExchangeView,
    inputs: Seq<ExchangeInput>,
    reservation: Seq<char>,
)
    requires
        start.phase is Authorizing,
        after(start, inputs) is Some,
        after(start, inputs)->0.phase is Done,
        inputs.contains(ExchangeInput::Reserved(Ok(reservation))),
    ensures
        exists|i: int| settled_at(start, inputs, reservation, i),
        forall|i: int, j: int|
            settled_at(start, inputs, reservation, i) && settled_at(start, inputs, reservation, j)
                ==> i == j,
        forall|i: int| #[trigger]
            settled_at(start, inputs, reservation, i) ==> given_back(start, inputs, reservation, i)
                != committed(start, inputs, reservation, i),
{
    let at = inputs.index_of(ExchangeInput::Reserved(Ok(reservation)));
    lemma_owed_or_settled(start, inputs, reservation, at);
    assert forall|i: int, j: int|
        settled_at(start, inputs, reservation, i) && settled_at(
            start,
            inputs,
            reservation,
            j,
        ) implies i == j by {
        lemma_not_settled_twice(start, inputs, reservation, i, j);
        lemma_not_settled_twice(start, inputs, reservation, j, i);
    }
    assert forall|i: int| #[trigger] settled_at(start, inputs, reservation, i) implies given_back(
        start,
        inputs,
        reservation,
        i,
    ) != committed(start, inputs, reservation, i) by {
        lemma_settled_is_quiet(start, inputs, reservation, i);
    }
}

/// An upload is reported to the client as stored only once it is accounted for.
pub proof fn law_success_means_committed(start: ExchangeView, inputs: Seq<ExchangeInput>)
    requires
        start.phase is Authorizing,
        start.route is Upload || start.route is Mirror,
        inputs.len() > 2,
        after(start, inputs) is Some,
        last_action(start, inputs) == ExchangeActionView::Reply(ReplyView::Upstream),
        inputs[2] is Uploaded,
        inputs[2]->Uploaded_0 is Answered,
        api::success(inputs[2]->Uploaded_0->status),
    ensures
        inputs.last() == ExchangeInput::Committed(true),
        last_action(start, inputs.drop_last()) is Commit,
{
    reveal_with_fuel(after, 5);
    lemma_story(start, inputs);
    lemma_story(start, inputs.drop_last());
    lemma_story(start, inputs.drop_last().drop_last());
    if inputs.drop_last().len() == 4 {
        lemma_story(start, inputs.drop_last().drop_last().drop_last());
    }
}

/// An account gives up its share in a blob only where the request deletes that blob and the media
/// store reported success.
pub proof fn law_release_follows_a_delete(start: ExchangeView, inputs: Seq<ExchangeInput>)
    requires
        start.phase is Authorizing,
        inputs.len() > 0,
        after(start, inputs) is Some,
        last_action(start, inputs) is Release,
    ensures
        start.route == RouteView::Delete(last_action(start, inputs)->sha256),
        inputs[0]->Granted_0.account == Some(last_action(start, inputs)->owner),
        inputs.last() is Forwarded,
        inputs.last()->Forwarded_0 is Some,
        api::success(inputs.last()->Forwarded_0->0),
{
    lemma_story(start, inputs);
    lemma_story(start, inputs.drop_last());
}

/// An upload that the media store took in, and of which it says what can be kept and fits, is
/// accounted for; and once it is, the client gets the response of the media store.
pub proof fn law_good_uploads_are_committed(
    exchange: ExchangeView,
    reservation: Seq<char>,
    requested: i64,
    status: u16,
    descriptor: blob::DescriptorView,
)
    requires
        exchange.phase == (PhaseView::Uploading { reserved: reservation, requested }),
        api::success(status),
        blob::valid_descriptor(descriptor),
        descriptor.size <= requested,
    ensures
        ({
            let outcome = ExchangeInput::Uploaded(
                UploadView::Answered { status, descriptor: Some(descriptor) },
            );
            let committing = exchange::turned(exchange, PhaseView::Committing { reservation });
            &&& exchange::exchange_step(exchange, outcome) == Some(
                (committing, ExchangeActionView::Commit { reservation, descriptor }),
            )
            &&& exchange::exchange_step(committing, ExchangeInput::Committed(true)) == Some(
                (
                    exchange::turned(committing, PhaseView::Done),
                    ExchangeActionView::Reply(ReplyView::Upstream),
                ),
            )
        }),
{
}

/// Where the media store reports that it deleted a blob for an account, the account gives up its
/// share in the blob; and whatever comes of that, the client gets the response of the media store.
pub proof fn law_accepted_deletes_release(
    exchange: ExchangeView,
    account: Seq<char>,
    hash: Seq<char>,
    status: u16,
    released: bool,
)
    requires
        exchange.phase is Forwarding,
        exchange.route == RouteView::Delete(hash),
        exchange.account == Some(account),
        api::success(status),
    ensures
        ({
            let releasing = exchange::turned(exchange, PhaseView::Releasing);
            &&& exchange::exchange_step(exchange, ExchangeInput::Forwarded(Some(status))) == Some(
                (releasing, ExchangeActionView::Release { owner: account, sha256: hash }),
            )
            &&& exchange::exchange_step(releasing, ExchangeInput::Released(released)) == Some(
                (exchange::turned(releasing, PhaseView::Done), ExchangeActionView::Stream),
            )
        }),
{
}

/// A request that has to be authorized opens an exchange only with a good authorization for its own
/// action, hash and server; the exchange then asks whether that key may write. Any other request
/// always opens an exchange, which asks whether anybody may read.
pub proof fn law_writes_are_authorized(
    route: RouteView,
    values: Map<Seq<char>, Seq<Seq<u8>>>,
    server: Seq<char>,
    max_write_bytes: i64,
    now: u64,
    request: AuthorizationRequest,
)
    requires
        exchange::opening(route, values, server, max_write_bytes, now) is Ok,
        exchange::grant_asked(
            request,
            exchange::opening(route, values, server, max_write_bytes, now)->Ok_0,
        ),
    ensures
        ({
            let field = headers::text_of(values, "authorization"@);
            let shown_hash = exchange::hash_in(headers::text_of(values, "x-sha-256"@));
            let authorization = blossom::authorization(
                field,
                route.demand(server, shown_hash),
                now,
            );
            &&& request.service@ == "shared-blossom"@
            &&& route.needs_authorization() ==> {
                &&& authorization is Ok
                &&& request.action@ == "write"@
                &&& text::optional_string(request.public_key) == Some(
                    authorization->Ok_0.public_key,
                )
            }
            &&& !route.needs_authorization() ==> {
                &&& request.action@ == "read"@
                &&& text::optional_string(request.public_key) is None
            }
        }),
{
}

/// Whatever is not a download, and no report, has to be authorized.
pub proof fn law_writes_need_authorization(method: Seq<char>, path: Seq<char>)
    requires
        method != "GET"@,
        method != "HEAD"@,
        path != "/report"@,
    ensures
        exchange::route_of(method, path).needs_authorization(),
{
}

/// Downloads need no authorization: a request that gets anything always opens an exchange.
pub proof fn law_downloads_need_no_authorization(
    path: Seq<char>,
    values: Map<Seq<char>, Seq<Seq<u8>>>,
    server: Seq<char>,
    max_write_bytes: i64,
    now: u64,
)
    ensures
        !exchange::route_of("GET"@, path).needs_authorization(),
        exchange::opening(
            exchange::route_of("GET"@, path),
            values,
            server,
            max_write_bytes,
            now,
        ) is Ok,
{
    reveal_strlit("GET");
    reveal_strlit("PUT");
    reveal_strlit("HEAD");
    reveal_strlit("DELETE");
    assert("GET"@[0] != "PUT"@[0]);
    assert("GET"@.len() != "HEAD"@.len());
    assert("GET"@.len() != "DELETE"@.len());
}

} // verus!
