//! The document in which a relay describes itself (NIP-11), and what the gateway adds to it.

use vstd::prelude::*;
use axum::http::HeaderMap;
use crate::api;
use crate::headers::{self, HeaderRule};
use crate::json::{self, Json, JsonView};
use crate::proxy::{self, BufferedUpstreamResponse, GatewayResponse};
use crate::text;

verus! {

/// The number under which a relay says that it authenticates its clients (NIP-42).
pub const AUTHENTICATION_NIP: u64 = 42;

/// Whether a list of media types names that of the document.
pub open spec fn accepts_information(accept: Seq<char>) -> bool {
    exists|i: int| 0 <= i < text::split(accept, ',').len() && #[trigger] is_information_type(
        text::split(accept, ',')[i],
    )
}

/// Whether a media type, whatever its parameters, is that of the document.
pub open spec fn is_information_type(media_type: Seq<char>) -> bool {
    text::trim(text::before(media_type, ';')) == "application/nostr+json"@
}

/// Whether a request asks for the document.
pub open spec fn asks_for_information(
    method: Seq<char>,
    path: Seq<char>,
    accept: Option<Seq<char>>,
) -> bool {
    method == "GET"@ && path == "/"@ && accept is Some && accepts_information(accept->0)
}

fn accepts(accept: &str) -> (r: bool)
    ensures
        r == accepts_information(accept@),
{
    let all = text::pieces(accept, ',');
    let ghost split = text::split(accept@, ',');
    let mut i: usize = 0;
    while i < all.len()
        invariant
            i <= all@.len(),
            all.deep_view() == split,
            split == text::split(accept@, ','),
            forall|j: int| 0 <= j < i ==> !#[trigger] is_information_type(split[j]),
        decreases all@.len() - i,
    {
        assert(all.deep_view()[i as int] == all@[i as int]@);
        if text::same(text::trimmed(text::text_before(all[i], ';')), "application/nostr+json") {
            assert(is_information_type(split[i as int]));
            return true;
        }
        i += 1;
    }
    false
}

/// Whether a request asks for the document: it gets `/` and accepts the document's media type.
pub fn is_relay_information_request(method: &str, path: &str, headers: &HeaderMap) -> (r: bool)
    ensures
        r == asks_for_information(
            method@,
            path@,
            headers::text_of(headers::header_values(*headers), "accept"@),
        ),
{
    proof {
        reveal_strlit("accept");
    }
    text::same(method, "GET") && text::same(path, "/") && match headers::header_text(
        headers,
        "accept",
    ) {
        Some(accept) => accepts(accept),
        None => false,
    }
}

/// The number by which a list of supported NIPs is ordered; anything that is no such number comes
/// last.
pub open spec fn rank(nip: JsonView) -> u64 {
    match nip {
        JsonView::Integer(number) => if 0 <= number <= u64::MAX {
            number as u64
        } else {
            u64::MAX
        },
        _ => u64::MAX,
    }
}

/// An ordered list with one more item, which comes after those of its own rank.
pub open spec fn placed(ordered: Seq<JsonView>, item: JsonView) -> Seq<JsonView>
    decreases ordered.len(),
{
    if ordered.len() > 0 && rank(ordered.last()) > rank(item) {
        placed(ordered.drop_last(), item).push(ordered.last())
    } else {
        ordered.push(item)
    }
}

/// The items of a list by rank; those of one rank stay in their order.
pub open spec fn by_rank(items: Seq<JsonView>) -> Seq<JsonView>
    decreases items.len(),
{
    if items.len() == 0 {
        Seq::empty()
    } else {
        placed(by_rank(items.drop_last()), items.last())
    }
}

/// A list of supported NIPs with authentication in it: the list itself where it has it.
pub open spec fn with_authentication(nips: Seq<JsonView>) -> Seq<JsonView> {
    if nips.contains(JsonView::Integer(AUTHENTICATION_NIP as int)) {
        nips
    } else {
        by_rank(nips.push(JsonView::Integer(AUTHENTICATION_NIP as int)))
    }
}

/// The supported NIPs that a document lists, none where it does not say; `None` where what it says
/// is no list.
pub open spec fn listed_nips(fields: Map<Seq<char>, JsonView>) -> Option<Seq<JsonView>> {
    if fields.contains_key("supported_nips"@) {
        fields["supported_nips"@].items()
    } else {
        Some(Seq::empty())
    }
}

/// The limitations that a document lists, none where it does not say; `None` where what it says is
/// no object.
pub open spec fn listed_limits(fields: Map<Seq<char>, JsonView>) -> Option<
    Map<Seq<char>, JsonView>,
> {
    if fields.contains_key("limitation"@) {
        match fields["limitation"@] {
            JsonView::Object(limits) => Some(limits),
            _ => None,
        }
    } else {
        Some(Map::empty())
    }
}

/// The document with what the gateway adds: that clients can authenticate, and that writes are
/// restricted. `None` where it is not of the shape of such a document.
pub open spec fn described(document: JsonView) -> Option<JsonView> {
    match document {
        JsonView::Object(fields) => match (listed_nips(fields), listed_limits(fields)) {
            (Some(nips), Some(limits)) => Some(
                JsonView::Object(
                    fields.insert(
                        "supported_nips"@,
                        JsonView::Array(with_authentication(nips)),
                    ).insert(
                        "limitation"@,
                        JsonView::Object(
                            limits.insert("restricted_writes"@, JsonView::Bool(true)),
                        ),
                    ),
                ),
            ),
            _ => None,
        },
        _ => None,
    }
}

fn rank_of(nip: &Json) -> (r: u64)
    ensures
        r == rank(nip@),
{
    match nip {
        Json::Unsigned(number) => *number,
        Json::Signed(number) => if *number >= 0 {
            *number as u64
        } else {
            u64::MAX
        },
        _ => u64::MAX,
    }
}

fn lists_authentication(nips: &Vec<Json>) -> (r: bool)
    ensures
        r == json::items_view(nips@).contains(JsonView::Integer(AUTHENTICATION_NIP as int)),
{
    proof {
        json::lemma_items_view(nips@);
    }
    let mut i: usize = 0;
    while i < nips.len()
        invariant
            i <= nips@.len(),
            json::items_view(nips@).len() == nips@.len(),
            forall|j: int|
                0 <= j < nips@.len() ==> #[trigger] json::items_view(nips@)[j] == nips@[j]@,
            forall|j: int|
                0 <= j < i ==> #[trigger] json::items_view(nips@)[j] != JsonView::Integer(
                    AUTHENTICATION_NIP as int,
                ),
        decreases nips@.len() - i,
    {
        assert(json::items_view(nips@)[i as int] == nips@[i as int]@);
        let found = match &nips[i] {
            Json::Unsigned(number) => *number == AUTHENTICATION_NIP,
            Json::Signed(number) => *number >= 0 && *number as u64 == AUTHENTICATION_NIP,
            _ => false,
        };
        if found {
            return true;
        }
        i += 1;
    }
    false
}

fn place(ordered: &mut Vec<Json>, item: Json)
    ensures
        json::items_view(final(ordered)@) == placed(json::items_view(old(ordered)@), item@),
{
    let ghost before = ordered@;
    let ghost shown = json::items_view(before);
    proof {
        json::lemma_items_view(before);
    }
    let mut at: usize = ordered.len();
    assert(shown.take(at as int) =~= shown);
    assert(shown.skip(at as int) =~= Seq::empty());
    assert(placed(shown, item@) =~= placed(shown.take(at as int), item@) + shown.skip(at as int));
    while at > 0 && rank_of(&ordered[at - 1]) > rank_of(&item)
        invariant
            at <= before.len(),
            ordered@ == before,
            shown == json::items_view(before),
            shown.len() == before.len(),
            forall|j: int| 0 <= j < before.len() ==> #[trigger] shown[j] == before[j]@,
            placed(shown, item@) == placed(shown.take(at as int), item@) + shown.skip(at as int),
        decreases at,
    {
        assert(shown[at - 1] == before[at - 1]@);
        assert(shown.take(at as int).drop_last() =~= shown.take(at - 1));
        assert(shown.take(at as int).last() == shown[at - 1]);
        assert(placed(shown.take(at - 1), item@).push(shown[at - 1]) + shown.skip(at as int)
            =~= placed(shown.take(at - 1), item@) + shown.skip(at - 1));
        at -= 1;
    }
    proof {
        if at > 0 {
            assert(shown[at - 1] == before[at - 1]@);
            assert(shown.take(at as int).last() == shown[at - 1]);
        }
        assert(placed(shown.take(at as int), item@) == shown.take(at as int).push(item@));
    }
    ordered.insert(at, item);
    proof {
        json::lemma_items_view(ordered@);
        assert forall|j: int| 0 <= j < ordered@.len() implies #[trigger] json::items_view(
            ordered@,
        )[j] == placed(shown, item@)[j] by {
            assert(json::items_view(ordered@)[j] == ordered@[j]@);
            if j < at {
                assert(shown[j] == before[j]@);
            } else if j > at {
                assert(shown[j - 1] == before[j - 1]@);
            }
        }
        assert(json::items_view(ordered@) =~= placed(shown, item@));
    }
}

fn ordered_by_rank(items: Vec<Json>) -> (r: Vec<Json>)
    ensures
        json::items_view(r@) == by_rank(json::items_view(items@)),
{
    let ghost all = items@;
    let mut items = items;
    let mut reversed: Vec<Json> = Vec::new();
    assert(items@ + reversed@.reverse() =~= all);
    while items.len() > 0
        invariant
            items@ + reversed@.reverse() == all,
        decreases items@.len(),
    {
        let ghost front = items@;
        let ghost back = reversed@;
        if let Some(item) = items.pop() {
            reversed.push(item);
            assert(items@ + reversed@.reverse() =~= front + back.reverse());
        }
    }
    assert(reversed@.reverse() =~= all);
    let mut ordered: Vec<Json> = Vec::new();
    let ghost mut done: int = 0;
    assert(json::items_view(all.take(0)) =~= Seq::empty());
    while reversed.len() > 0
        invariant
            done + reversed@.len() == all.len(),
            0 <= done,
            reversed@.reverse() == all.skip(done),
            json::items_view(ordered@) == by_rank(json::items_view(all.take(done))),
        decreases reversed@.len(),
    {
        let ghost rest = reversed@;
        if let Some(item) = reversed.pop() {
            proof {
                assert(rest.reverse()[0] == rest.last());
                assert(all.skip(done)[0] == all[done]);
                assert(item == all[done]);
                assert(all.take(done + 1).drop_last() =~= all.take(done));
                let shown = json::items_view(all.take(done + 1));
                assert(shown.drop_last() =~= json::items_view(all.take(done)));
                assert(reversed@.reverse() =~= all.skip(done + 1)) by {
                    assert forall|j: int| 0 <= j < reversed@.len() implies #[trigger] reversed@.reverse()[j]
                        == all.skip(done + 1)[j] by {
                        assert(rest.reverse()[j + 1] == all.skip(done)[j + 1]);
                    }
                }
                done = done + 1;
            }
            place(&mut ordered, item);
        }
    }
    assert(all.take(done) =~= all);
    ordered
}

fn add_authentication(nips: Vec<Json>) -> (r: Vec<Json>)
    ensures
        json::items_view(r@) == with_authentication(json::items_view(nips@)),
{
    if lists_authentication(&nips) {
        nips
    } else {
        let ghost before = nips@;
        let mut nips = nips;
        nips.push(Json::Unsigned(AUTHENTICATION_NIP));
        assert(nips@.drop_last() =~= before);
        assert(nips@.last()@ == JsonView::Integer(AUTHENTICATION_NIP as int));
        assert(json::items_view(nips@) == json::items_view(before).push(
            JsonView::Integer(AUTHENTICATION_NIP as int),
        ));
        ordered_by_rank(nips)
    }
}

/// The document with what the gateway adds; `None` where it is not of the shape of such a document.
pub fn describe(document: Json) -> (r: Option<Json>)
    ensures
        match r {
            Some(json) => described(document@) == Some(json@),
            None => described(document@) is None,
        },
{
    proof {
        reveal_strlit("supported_nips");
        reveal_strlit("limitation");
        assert("supported_nips"@.len() != "limitation"@.len());
    }
    let mut fields = match document {
        Json::Object(fields) => fields,
        _ => {
            return None;
        },
    };
    let ghost all = json::fields_view(fields@);
    let nips = match json::take_field(&mut fields, "supported_nips") {
        Some(Json::Array(items)) => items,
        None => Vec::new(),
        _ => {
            return None;
        },
    };
    let ghost rest = json::fields_view(fields@);
    proof {
        assert(rest.remove("supported_nips"@).contains_key("limitation"@) == rest.contains_key(
            "limitation"@,
        ));
        assert(all.remove("supported_nips"@).contains_key("limitation"@) == all.contains_key(
            "limitation"@,
        ));
        assert(rest.remove("supported_nips"@)["limitation"@] == rest["limitation"@]);
        assert(all.remove("supported_nips"@)["limitation"@] == all["limitation"@]);
    }
    let mut limits = match json::take_field(&mut fields, "limitation") {
        Some(Json::Object(limits)) => limits,
        None => Vec::new(),
        _ => {
            return None;
        },
    };
    let ghost last = json::fields_view(fields@);
    let ghost listed = (listed_nips(all), listed_limits(all));
    assert(listed == (Some(json::items_view(nips@)), Some(json::fields_view(limits@))));
    json::set_field(&mut limits, "restricted_writes", Json::Bool(true));
    let nips = add_authentication(nips);
    json::set_field(&mut fields, "supported_nips", Json::Array(nips));
    json::set_field(&mut fields, "limitation", Json::Object(limits));
    proof {
        let array = JsonView::Array(json::items_view(nips@));
        let object = JsonView::Object(json::fields_view(limits@));
        let nips = "supported_nips"@;
        let limitation = "limitation"@;
        assert(json::fields_view(fields@) == last.insert(nips, array).insert(limitation, object));
        assert(last.insert(nips, array).insert(limitation, object) =~= last.remove(
            limitation,
        ).insert(nips, array).insert(limitation, object));
        assert(rest.insert(nips, array).insert(limitation, object) =~= rest.remove(
            limitation,
        ).insert(nips, array).insert(limitation, object));
        assert(rest.insert(nips, array) =~= rest.remove(nips).insert(nips, array));
        assert(all.insert(nips, array) =~= all.remove(nips).insert(nips, array));
    }
    Some(Json::Object(fields))
}

/// The bytes of a document with what the gateway adds, given the bytes of the document; `None` where
/// they are not of the shape of such a document.
pub open spec fn rewritten(body: Seq<u8>) -> Option<Seq<u8>> {
    match json::json_in_bytes(body) {
        Some(document) => match described(document) {
            Some(described) => Some(json::json_bytes(described)),
            None => None,
        },
        None => None,
    }
}

/// The bytes of a document with what the gateway adds; `None` where they are not of the shape of such
/// a document.
///
/// A reader finds in them what was written, and to rewrite them again changes nothing, unless the
/// document is too deep for the reader, has a number that is not an integer of 64 bits, or has an
/// object with the key [`json::RAW_VALUE_KEY`].
pub fn rewrite_relay_information(body: &[u8]) -> (r: Option<Vec<u8>>)
    ensures
        ({
            let document = json::json_in_bytes(body@)->0;
            match r {
                Some(bytes) => {
                    &&& rewritten(body@) == Some(bytes@)
                    &&& json::reads_back(document, 127) ==> {
                        &&& json::json_in_bytes(bytes@) == described(document)
                        &&& rewritten(bytes@) == Some(bytes@)
                    }
                },
                None => rewritten(body@) is None,
            }
        }),
{
    match Json::parse_bytes(body) {
        Some(document) => {
            let ghost found = document@;
            match describe(document) {
                Some(rewritten) => {
                    proof {
                        if json::reads_back(found, 127) {
                            law_description_reads_back(found);
                            law_description_is_settled(found);
                        }
                    }
                    Some(rewritten.to_bytes())
                },
                None => None,
            }
        },
        None => None,
    }
}

/// Whether a response is that of an upstream server with its body replaced by a document.
pub open spec fn passes_on_information(
    response: GatewayResponse,
    status: u16,
    from: Map<Seq<char>, Seq<Seq<u8>>>,
    body: Seq<u8>,
) -> bool {
    &&& response.status == status
    &&& response.body@ == body
    &&& headers::header_values(response.headers) == headers::merged(
        headers::no_fields(),
        from,
        HeaderRule::Response,
    ).insert("content-type"@, seq![headers::ascii_bytes("application/nostr+json"@)]).insert(
        "content-length"@,
        seq![headers::ascii_bytes(text::decimal(body.len()))],
    )
}

/// The response with a document in place of an upstream server's body: the fields that pass, but with
/// the type and the length of the document. `None` where these are too many.
pub fn relay_information_response(status: u16, headers: &HeaderMap, body: Vec<u8>) -> (r: Option<
    GatewayResponse,
>)
    ensures
        r is Some ==> passes_on_information(
            r->0,
            status,
            headers::header_values(*headers),
            body@,
        ),
        headers::room_for(headers::header_values(*headers), 1) ==> r is Some,
{
    match headers::information_headers(headers, body.len()) {
        Some(kept) => Some(GatewayResponse { status, headers: kept, body }),
        None => None,
    }
}

/// Whether a response answers a request for the relay's document with what the relay answered: the
/// document with what the gateway adds, where there is one that can be rewritten, and else all as it
/// came.
pub open spec fn answers(response: GatewayResponse, upstream: BufferedUpstreamResponse) -> bool {
    let found = json::json_in_bytes(upstream.body@);
    if api::success(upstream.status) && found is Some && described(found->0) is Some {
        passes_on_information(
            response,
            upstream.status,
            headers::header_values(upstream.headers),
            json::json_bytes(described(found->0)->0),
        )
    } else {
        proxy::passes_on(response, upstream)
    }
}

/// The response to a request for the document, given that of the relay: the rewritten document where
/// the relay reports success and sends one, and else what the relay sent. `None` where the fields are
/// too many.
pub fn information_answer(upstream: BufferedUpstreamResponse) -> (r: Option<GatewayResponse>)
    ensures
        r is Some ==> {
            let found = json::json_in_bytes(upstream.body@);
            if api::success(upstream.status) && found is Some && described(found->0) is Some {
                passes_on_information(
                    r->0,
                    upstream.status,
                    headers::header_values(upstream.headers),
                    json::json_bytes(described(found->0)->0),
                )
            } else {
                proxy::passes_on(r->0, upstream)
            }
        },
        r is Some ==> answers(r->0, upstream),
        headers::room_for(headers::header_values(upstream.headers), 1) ==> r is Some,
{
    if !api::is_success(upstream.status) {
        return upstream.into_response();
    }
    match rewrite_relay_information(upstream.body.as_slice()) {
        Some(body) => relay_information_response(upstream.status, &upstream.headers, body),
        None => upstream.into_response(),
    }
}

proof fn lemma_placed(ordered: Seq<JsonView>, item: JsonView)
    requires
        in_order(ordered),
    ensures
        in_order(placed(ordered, item)),
        placed(ordered, item).to_multiset() == ordered.to_multiset().insert(item),
        placed(ordered, item).contains(item),
        placed(ordered, item).len() == ordered.len() + 1,
        forall|limit: u64|
            (forall|i: int| 0 <= i < ordered.len() ==> rank(#[trigger] ordered[i]) <= limit)
                && rank(item) <= limit ==> #[trigger] all_within(placed(ordered, item), limit),
    decreases ordered.len(),
{
    broadcast use vstd::seq_lib::group_to_multiset_ensures;

    if ordered.len() > 0 && rank(ordered.last()) > rank(item) {
        let front = ordered.drop_last();
        lemma_placed(front, item);
        assert(all_within(placed(front, item), rank(ordered.last())));
        assert(front.push(ordered.last()) =~= ordered);
        assert(placed(ordered, item).to_multiset() =~= ordered.to_multiset().insert(item));
        let at = placed(front, item).index_of(item);
        assert(placed(ordered, item)[at] == item);
    } else {
        assert(placed(ordered, item)[ordered.len() as int] == item);
    }
}

/// A list in which no rank is smaller than an earlier one.
pub open spec fn in_order(items: Seq<JsonView>) -> bool {
    forall|i: int, j: int|
        0 <= i <= j < items.len() ==> rank(#[trigger] items[i]) <= rank(#[trigger] items[j])
}

spec fn all_within(items: Seq<JsonView>, limit: u64) -> bool {
    forall|i: int| 0 <= i < items.len() ==> rank(#[trigger] items[i]) <= limit
}

/// The items of a list that have a rank, in order.
pub open spec fn of_rank(items: Seq<JsonView>, number: u64) -> Seq<JsonView>
    decreases items.len(),
{
    if items.len() == 0 {
        Seq::empty()
    } else if rank(items.last()) == number {
        of_rank(items.drop_last(), number).push(items.last())
    } else {
        of_rank(items.drop_last(), number)
    }
}

proof fn lemma_placed_of_rank(ordered: Seq<JsonView>, item: JsonView, number: u64)
    ensures
        of_rank(placed(ordered, item), number) == if rank(item) == number {
            of_rank(ordered, number).push(item)
        } else {
            of_rank(ordered, number)
        },
    decreases ordered.len(),
{
    if ordered.len() > 0 && rank(ordered.last()) > rank(item) {
        let front = ordered.drop_last();
        lemma_placed_of_rank(front, item, number);
        assert(placed(ordered, item).drop_last() =~= placed(front, item));
    } else {
        assert(placed(ordered, item).drop_last() =~= ordered);
    }
}

/// A list by rank is the list in another order: no rank is smaller than an earlier one, nothing is
/// added or lost, and the items of one rank keep their order.
pub proof fn law_by_rank_is_a_stable_order(items: Seq<JsonView>)
    ensures
        in_order(by_rank(items)),
        by_rank(items).to_multiset() == items.to_multiset(),
        by_rank(items).len() == items.len(),
        forall|number: u64| #[trigger] of_rank(by_rank(items), number) == of_rank(items, number),
    decreases items.len(),
{
    broadcast use vstd::seq_lib::group_to_multiset_ensures;

    if items.len() > 0 {
        let front = items.drop_last();
        law_by_rank_is_a_stable_order(front);
        lemma_placed(by_rank(front), items.last());
        assert(front.push(items.last()) =~= items);
        assert forall|number: u64| #[trigger] of_rank(by_rank(items), number) == of_rank(
            items,
            number,
        ) by {
            lemma_placed_of_rank(by_rank(front), items.last(), number);
        }
    }
}

proof fn lemma_by_rank_contains(items: Seq<JsonView>, item: JsonView)
    ensures
        by_rank(items).contains(item) == items.contains(item),
{
    law_by_rank_is_a_stable_order(items);
    broadcast use vstd::seq_lib::group_to_multiset_ensures;

    assert(by_rank(items).contains(item) == (by_rank(items).to_multiset().count(item) > 0));
    assert(items.contains(item) == (items.to_multiset().count(item) > 0));
}

/// A rewritten document says that clients can authenticate and that writes are restricted.
pub proof fn law_description_advertises_the_gateway(document: JsonView)
    requires
        described(document) is Some,
    ensures
        ({
            let rewritten = described(document)->0;
            &&& rewritten.get("supported_nips"@) is Some
            &&& rewritten.get("supported_nips"@)->0 is Array
            &&& rewritten.get("supported_nips"@)->0->Array_0.contains(
                JsonView::Integer(AUTHENTICATION_NIP as int),
            )
            &&& rewritten.get("limitation"@) is Some
            &&& rewritten.get("limitation"@)->0.get("restricted_writes"@) == Some(
                JsonView::Bool(true),
            )
        }),
{
    reveal_strlit("supported_nips");
    reveal_strlit("limitation");
    assert("supported_nips"@.len() != "limitation"@.len());
    let nips = listed_nips(document->Object_0)->0;
    let added = nips.push(JsonView::Integer(AUTHENTICATION_NIP as int));
    assert(added[nips.len() as int] == JsonView::Integer(AUTHENTICATION_NIP as int));
    lemma_by_rank_contains(added, JsonView::Integer(AUTHENTICATION_NIP as int));
}

/// A rewritten document says everything else as the relay does: the other fields, the other
/// limitations, and the other NIPs, of which none is added or lost. A list of NIPs that has
/// authentication in it stays as it is; one that gets it is put in order.
pub proof fn law_description_keeps_the_rest(document: JsonView, key: Seq<char>)
    requires
        described(document) is Some,
    ensures
        ({
            let rewritten = described(document)->0;
            let before = listed_nips(document->Object_0)->0;
            let after = rewritten.get("supported_nips"@)->0->Array_0;
            let authentication = JsonView::Integer(AUTHENTICATION_NIP as int);
            &&& key != "supported_nips"@ && key != "limitation"@ ==> rewritten.get(key)
                == document.get(key)
            &&& key != "restricted_writes"@ ==> rewritten.get("limitation"@)->0.get(key)
                == JsonView::Object(listed_limits(document->Object_0)->0).get(key)
            &&& before.contains(authentication) ==> after == before
            &&& !before.contains(authentication) ==> in_order(after) && after.to_multiset()
                == before.to_multiset().insert(authentication)
        }),
{
    broadcast use vstd::seq_lib::group_to_multiset_ensures;

    reveal_strlit("supported_nips");
    reveal_strlit("limitation");
    assert("supported_nips"@.len() != "limitation"@.len());
    let nips = listed_nips(document->Object_0)->0;
    law_by_rank_is_a_stable_order(nips.push(JsonView::Integer(AUTHENTICATION_NIP as int)));
}

/// To rewrite a document twice is to rewrite it once.
pub proof fn law_description_is_settled(document: JsonView)
    requires
        described(document) is Some,
    ensures
        described(described(document)->0) == described(document),
{
    law_description_advertises_the_gateway(document);
    reveal_strlit("supported_nips");
    reveal_strlit("limitation");
    assert("supported_nips"@.len() != "limitation"@.len());
    let rewritten = described(document)->0->Object_0;
    let again = described(described(document)->0)->0->Object_0;
    let limits = listed_limits(rewritten)->0;
    assert(limits.insert("restricted_writes"@, JsonView::Bool(true)) =~= limits);
    assert(again =~= rewritten);
}

/// A document that a reader finds again in its bytes is rewritten to such a document.
pub proof fn law_description_reads_back(document: JsonView)
    requires
        described(document) is Some,
        json::reads_back(document, 127),
    ensures
        json::reads_back(described(document)->0, 127),
{
    reveal_with_fuel(json::reads_back, 4);
    reveal_strlit("supported_nips");
    reveal_strlit("limitation");
    reveal_strlit("restricted_writes");
    json::lemma_raw_value_key();
    assert("supported_nips"@.len() == 14 && "limitation"@.len() == 10);
    assert("restricted_writes"@.len() == 17);
    let fields = document->Object_0;
    let rewritten = described(document)->0->Object_0;
    let nips = listed_nips(fields)->0;
    let limits = listed_limits(fields)->0;
    if fields.contains_key("supported_nips"@) {
        assert(json::reads_back(fields["supported_nips"@], 126));
    }
    if fields.contains_key("limitation"@) {
        assert(json::reads_back(fields["limitation"@], 126));
    }
    let after = with_authentication(nips);
    let added = nips.push(JsonView::Integer(AUTHENTICATION_NIP as int));
    assert forall|i: int| 0 <= i < after.len() implies json::reads_back(
        #[trigger] after[i],
        125,
    ) by {
        if !nips.contains(JsonView::Integer(AUTHENTICATION_NIP as int)) {
            assert(by_rank(added).contains(after[i]));
            lemma_by_rank_contains(added, after[i]);
            let j = added.index_of(after[i]);
            assert(added[j] == after[i]);
            if j < nips.len() {
                assert(nips[j] == after[i]);
            }
        }
    }
    let limited = limits.insert("restricted_writes"@, JsonView::Bool(true));
    assert forall|key: Seq<char>| limited.contains_key(key) implies json::reads_back(
        #[trigger] limited[key],
        125,
    ) by {
        if key != "restricted_writes"@ {
            assert(limits.contains_key(key));
        }
    }
    assert(json::reads_back(JsonView::Array(after), 126));
    assert(json::reads_back(JsonView::Object(limited), 126));
    assert forall|key: Seq<char>| rewritten.contains_key(key) implies json::reads_back(
        #[trigger] rewritten[key],
        126,
    ) by {
        if key != "supported_nips"@ && key != "limitation"@ {
            assert(fields.contains_key(key));
        }
    }
}

} // verus!
