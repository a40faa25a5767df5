//! What holds of every authorization of a request to the media store.

use vstd::prelude::*;
use crate::blob::{self, DescriptorView};
use crate::blossom::{
    self, BlossomAuthorization, BlossomAuthorizationView, Demand, DemandView, ParsedUrl, UrlView,
};
use crate::encoding::{self, Base64Form};
use crate::event;
use crate::exchange::RouteView;
use crate::json::{self, JsonView};
use crate::relay;
use crate::relay_laws;
use crate::text;
use crate::text_laws;

verus! {

/// A hash is written in 64 characters, each a digit or one of the letters `a` to `f`.
pub proof fn law_hashes(value: Seq<char>)
    ensures
        blossom::is_hash(value) <==> value.len() == 64 && forall|i: int|
            0 <= i < value.len() ==> ('0' <= #[trigger] value[i] <= '9' || 'a' <= value[i] <= 'f'),
{
    if value.len() == 64 && forall|i: int|
        0 <= i < value.len() ==> ('0' <= #[trigger] value[i] <= '9' || 'a' <= value[i] <= 'f') {
        assert forall|i: int| 0 <= i < value.len() implies blossom::is_lower_hex(
            #[trigger] value[i],
        ) by {
            assert('0' <= value[i] <= '9' || 'a' <= value[i] <= 'f');
        }
    }
    if blossom::is_hash(value) {
        assert forall|i: int| 0 <= i < value.len() implies ('0' <= #[trigger] value[i] <= '9' || 'a'
            <= value[i] <= 'f') by {
            assert(blossom::is_lower_hex(value[i]));
        }
    }
}

/// A path names the blob with a hash exactly where it is a slash and the hash, and then nothing, or a
/// dot and anything.
pub proof fn law_paths_name_blobs(path: Seq<char>, hash: Seq<char>)
    ensures
        blossom::hash_in_path(path) == Some(hash) <==> blossom::is_hash(hash) && (path == seq!['/']
            + hash || exists|rest: Seq<char>| path == #[trigger] (seq!['/'] + hash + seq!['.']
            + rest)),
{
    if path.len() > 0 && path[0] == '/' {
        let name = path.drop_first();
        text_laws::law_before(name, '.');
        let start = text::before(name, '.');
        if start == hash {
            if start.len() == name.len() {
                assert(path =~= seq!['/'] + hash);
            } else {
                let rest = name.skip(start.len() as int + 1);
                assert(name =~= start + seq!['.'] + rest);
                assert(path =~= seq!['/'] + hash + seq!['.'] + rest);
            }
        }
    }
    if blossom::is_hash(hash) {
        assert forall|i: int| 0 <= i < hash.len() implies hash[i] != '.' by {
            assert(blossom::is_lower_hex(hash[i]));
        }
        if path == seq!['/'] + hash {
            let name = path.drop_first();
            assert(name =~= hash);
            text_laws::law_before(name, '.');
            let start = text::before(name, '.');
            if start.len() < name.len() {
                assert(name[start.len() as int] == '.');
            }
            assert(start =~= hash);
        }
        if exists|rest: Seq<char>| path == #[trigger] (seq!['/'] + hash + seq!['.'] + rest) {
            let rest = choose|rest: Seq<char>|
                path == #[trigger] (seq!['/'] + hash + seq!['.'] + rest);
            let name = path.drop_first();
            assert(name =~= hash + seq!['.'] + rest);
            assert(name.take(hash.len() as int) =~= hash);
            lemma_stops_at(name, hash, '.');
        }
    }
}

/// A text that begins with another, which holds no `c`, and goes on with `c`.
proof fn lemma_stops_at(s: Seq<char>, start: Seq<char>, c: char)
    requires
        start.len() <= s.len(),
        s.take(start.len() as int) == start,
        forall|i: int| 0 <= i < start.len() ==> start[i] != c,
        start.len() == s.len() || s[start.len() as int] == c,
    ensures
        text::before(s, c) == start,
{
    text_laws::law_before(s, c);
    let found = text::before(s, c);
    if found.len() < start.len() {
        assert(s[found.len() as int] == s.take(start.len() as int)[found.len() as int]);
    }
    if found.len() > start.len() {
        assert(found[start.len() as int] == s.take(found.len() as int)[start.len() as int]);
    }
    assert(found =~= start);
}

/// Whether a server names a host: as the host of its address, where it is one, and else as all that
/// stands before its first slash or colon.
pub open spec fn names_host(server: Seq<char>, host: Seq<char>) -> bool {
    if exists|a: Seq<char>, b: Seq<char>| server == #[trigger] ((a + "://"@) + b) {
        &&& blossom::url_in_text(server) is Some
        &&& blossom::url_in_text(server)->0.host == Some(host)
    } else {
        &&& host.len() <= server.len()
        &&& server.take(host.len() as int) == host
        &&& forall|i: int| 0 <= i < host.len() ==> host[i] != '/' && host[i] != ':'
        &&& host.len() == server.len() || server[host.len() as int] == '/' || server[host.len() as int]
            == ':'
    }
}

proof fn lemma_names_host(server: Seq<char>, host: Seq<char>)
    ensures
        blossom::host_of(server) == Some(host) <==> names_host(server, host),
{
    text_laws::law_occurs("://"@, server);
    if !text::occurs("://"@, server) {
        let first = text::before(server, '/');
        let found = text::before(first, ':');
        text_laws::law_before(server, '/');
        text_laws::law_before(first, ':');
        assert forall|i: int| 0 <= i < found.len() implies found[i] != '/' && found[i] != ':' by {
            assert(found[i] == first[i]);
        }
        assert(server.take(found.len() as int) =~= found);
        if found.len() < first.len() {
            assert(first[found.len() as int] == server[found.len() as int]);
        }
        assert(names_host(server, found));
        if names_host(server, host) {
            if host.len() < found.len() {
                assert(found[host.len() as int] == server[host.len() as int]);
            }
            if found.len() < host.len() {
                assert(host[found.len() as int] == server[found.len() as int]);
            }
            assert(host =~= found);
        }
    }
}

/// Whether two texts are of one length and, at every position, of one character, or of one ASCII
/// letter in either case.
pub open spec fn same_in_full(a: Seq<char>, b: Seq<char>) -> bool {
    &&& a.len() == b.len()
    &&& forall|i: int| 0 <= i < a.len() ==> text_laws::one_letter(#[trigger] a[i], b[i])
}

/// Two servers match exactly where they name hosts that are the same in full, up to the case of ASCII
/// letters: nothing of a host is left out.
pub proof fn law_servers_match_by_whole_hosts(server: Seq<char>, expected: Seq<char>)
    ensures
        blossom::same_server(server, expected) <==> exists|host: Seq<char>, other: Seq<char>|
            #![trigger names_host(server, host), names_host(expected, other)]
            names_host(server, host) && names_host(expected, other) && same_in_full(host, other),
{
    let host = blossom::host_of(server);
    let other = blossom::host_of(expected);
    if blossom::same_server(server, expected) {
        lemma_names_host(server, host->0);
        lemma_names_host(expected, other->0);
        text_laws::law_equal_ignoring_case(host->0, other->0);
        assert(names_host(server, host->0) && names_host(expected, other->0) && same_in_full(
            host->0,
            other->0,
        ));
    }
    if exists|host: Seq<char>, other: Seq<char>|
        #![trigger names_host(server, host), names_host(expected, other)]
        names_host(server, host) && names_host(expected, other) && same_in_full(host, other) {
        let (h, o) = choose|host: Seq<char>, other: Seq<char>|
            #![trigger names_host(server, host), names_host(expected, other)]
            names_host(server, host) && names_host(expected, other) && same_in_full(host, other);
        lemma_names_host(server, h);
        lemma_names_host(expected, o);
        text_laws::law_equal_ignoring_case(h, o);
    }
}

/// Two host names without slashes and colons match exactly where they are the same in full, up to the
/// case of ASCII letters.
pub proof fn law_host_names_match_in_full(a: Seq<char>, b: Seq<char>)
    requires
        forall|i: int| 0 <= i < a.len() ==> a[i] != '/' && a[i] != ':',
        forall|i: int| 0 <= i < b.len() ==> b[i] != '/' && b[i] != ':',
    ensures
        blossom::same_server(a, b) <==> a.len() == b.len() && forall|i: int|
            0 <= i < a.len() ==> text_laws::one_letter(#[trigger] a[i], b[i]),
{
    lemma_plain_host(a);
    lemma_plain_host(b);
    text_laws::law_equal_ignoring_case(a, b);
}

proof fn lemma_plain_host(s: Seq<char>)
    requires
        forall|i: int| 0 <= i < s.len() ==> s[i] != '/' && s[i] != ':',
    ensures
        blossom::host_of(s) == Some(s),
{
    reveal_strlit("://");
    text_laws::law_occurs("://"@, s);
    if text::occurs("://"@, s) {
        let i = choose|i: int|
            0 <= i <= s.len() - "://"@.len() && #[trigger] s.subrange(i, i + "://"@.len()) == "://"@;
        assert(s.subrange(i, i + "://"@.len())[0] == s[i]);
    }
    assert(s.take(s.len() as int) =~= s);
    lemma_names_host(s, s);
}

/// The values of a name among tags are those among the first of them, and then those among the rest.
pub proof fn law_tag_values_of_parts(a: Seq<JsonView>, b: Seq<JsonView>, name: Seq<char>)
    ensures
        blossom::tag_values(a + b, name) == blossom::tag_values(a, name) + blossom::tag_values(
            b,
            name,
        ),
    decreases b.len(),
{
    if b.len() == 0 {
        assert(a + b =~= a);
        assert(blossom::tag_values(a + b, name) =~= blossom::tag_values(a, name)
            + blossom::tag_values(b, name));
    } else {
        law_tag_values_of_parts(a, b.drop_last(), name);
        assert((a + b).drop_last() =~= a + b.drop_last());
        assert((a + b).last() == b.last());
        assert(blossom::tag_values(a + b, name) =~= blossom::tag_values(a, name)
            + blossom::tag_values(b, name));
    }
}

/// A tag has a value for a name exactly where it is a list that begins with the texts of the name and
/// the value.
pub proof fn law_tag_values_of_one(tag: JsonView, name: Seq<char>, value: Seq<char>)
    ensures
        blossom::tag_values(Seq::empty(), name) == Seq::<Seq<char>>::empty(),
        relay_laws::begins(tag, name, value) ==> blossom::tag_values(seq![tag], name) == seq![
            value,
        ],
        (forall|any: Seq<char>| !relay_laws::begins(tag, name, any)) ==> blossom::tag_values(
            seq![tag],
            name,
        ) == Seq::<Seq<char>>::empty(),
{
    assert(seq![tag].drop_last() =~= Seq::empty());
    assert(seq![tag].last() == tag);
    let none = Seq::<Seq<char>>::empty();
    assert(blossom::tag_values(Seq::empty(), name) =~= none);
    assert(none.push(value) =~= seq![value]);
    if blossom::tag_value(tag, name) is Some {
        assert(relay_laws::begins(tag, name, blossom::tag_value(tag, name)->0));
    }
}

/// The first number among texts is that of the first text that reads as one.
pub proof fn law_first_number(values: Seq<Seq<char>>, number: u64)
    ensures
        blossom::first_number(values) is None <==> forall|i: int|
            0 <= i < values.len() ==> text::decimal_u64(#[trigger] values[i]) is None,
        blossom::first_number(values) == Some(number) <==> exists|i: int|
            #![trigger values[i]]
            0 <= i < values.len() && text::decimal_u64(values[i]) == Some(number) && forall|j: int|
                0 <= j < i ==> text::decimal_u64(#[trigger] values[j]) is None,
    decreases values.len(),
{
    if values.len() > 0 {
        let rest = values.drop_first();
        law_first_number(rest, number);
        if text::decimal_u64(values[0]) is Some {
            if exists|i: int|
                #![trigger values[i]]
                0 <= i < values.len() && text::decimal_u64(values[i]) == Some(number) && forall|
                    j: int,
                |
                    0 <= j < i ==> text::decimal_u64(#[trigger] values[j]) is None {
                let i = choose|i: int|
                    #![trigger values[i]]
                    0 <= i < values.len() && text::decimal_u64(values[i]) == Some(number)
                        && forall|j: int|
                        0 <= j < i ==> text::decimal_u64(#[trigger] values[j]) is None;
                if i > 0 {
                    assert(text::decimal_u64(values[0]) is None);
                }
            }
        } else {
            if blossom::first_number(values) is None {
                assert forall|i: int| 0 <= i < values.len() implies text::decimal_u64(
                    #[trigger] values[i],
                ) is None by {
                    if i > 0 {
                        assert(text::decimal_u64(rest[i - 1]) is None);
                    }
                }
            }
            if forall|i: int| 0 <= i < values.len() ==> text::decimal_u64(#[trigger] values[i]) is None {
                assert forall|i: int| 0 <= i < rest.len() implies text::decimal_u64(
                    #[trigger] rest[i],
                ) is None by {
                    assert(text::decimal_u64(values[i + 1]) is None);
                }
            }
            if blossom::first_number(rest) == Some(number) {
                let i = choose|i: int|
                    #![trigger rest[i]]
                    0 <= i < rest.len() && text::decimal_u64(rest[i]) == Some(number) && forall|
                        j: int,
                    |
                        0 <= j < i ==> text::decimal_u64(#[trigger] rest[j]) is None;
                assert(text::decimal_u64(values[i + 1]) == Some(number));
                assert forall|j: int| 0 <= j < i + 1 implies text::decimal_u64(
                    #[trigger] values[j],
                ) is None by {
                    if j > 0 {
                        assert(text::decimal_u64(rest[j - 1]) is None);
                    }
                }
            }
            if exists|i: int|
                #![trigger values[i]]
                0 <= i < values.len() && text::decimal_u64(values[i]) == Some(number) && forall|
                    j: int,
                |
                    0 <= j < i ==> text::decimal_u64(#[trigger] values[j]) is None {
                let i = choose|i: int|
                    #![trigger values[i]]
                    0 <= i < values.len() && text::decimal_u64(values[i]) == Some(number)
                        && forall|j: int|
                        0 <= j < i ==> text::decimal_u64(#[trigger] values[j]) is None;
                assert(text::decimal_u64(rest[i - 1]) == Some(number));
                assert forall|j: int| 0 <= j < i - 1 implies text::decimal_u64(
                    #[trigger] rest[j],
                ) is None by {
                    assert(text::decimal_u64(values[j + 1]) is None);
                }
            }
        }
    }
}

/// The hashes among texts are those among the first of them, and then those among the rest; of a
/// single text, it where it is one.
pub proof fn law_hashes_of_parts(a: Seq<Seq<char>>, b: Seq<Seq<char>>, value: Seq<char>)
    ensures
        blossom::hashes_among(a + b) == blossom::hashes_among(a) + blossom::hashes_among(b),
        blossom::is_hash(value) ==> blossom::hashes_among(seq![value]) == seq![value],
        !blossom::is_hash(value) ==> blossom::hashes_among(seq![value]).len() == 0,
        blossom::hashes_among(Seq::empty()).len() == 0,
    decreases b.len(),
{
    assert(seq![value].drop_last() =~= Seq::empty());
    assert(Seq::<Seq<char>>::empty().push(value) =~= seq![value]);
    assert(blossom::hashes_among(Seq::empty()) =~= Seq::empty());
    if b.len() == 0 {
        assert(a + b =~= a);
        assert(blossom::hashes_among(a + b) =~= blossom::hashes_among(a)
            + blossom::hashes_among(b));
    } else {
        law_hashes_of_parts(a, b.drop_last(), value);
        assert((a + b).drop_last() =~= a + b.drop_last());
        assert((a + b).last() == b.last());
        assert(blossom::hashes_among(a + b) =~= blossom::hashes_among(a)
            + blossom::hashes_among(b));
    }
}

/// Whether one of some servers names, in full, the host that another names.
pub open spec fn some_host_matches(servers: Seq<Seq<char>>, expected: Seq<char>) -> bool {
    exists|i: int, host: Seq<char>, other: Seq<char>|
        #![trigger names_host(servers[i], host), names_host(expected, other)]
        0 <= i < servers.len() && names_host(servers[i], host) && names_host(expected, other)
            && same_in_full(host, other)
}

proof fn lemma_some_host_matches(servers: Seq<Seq<char>>, expected: Seq<char>)
    ensures
        blossom::some_server_matches(servers, expected) <==> some_host_matches(servers, expected),
{
    if blossom::some_server_matches(servers, expected) {
        let i = choose|i: int|
            0 <= i < servers.len() && blossom::same_server(#[trigger] servers[i], expected);
        law_servers_match_by_whole_hosts(servers[i], expected);
        let (host, other) = choose|host: Seq<char>, other: Seq<char>|
            #![trigger names_host(servers[i], host), names_host(expected, other)]
            names_host(servers[i], host) && names_host(expected, other) && same_in_full(
                host,
                other,
            );
        assert(names_host(servers[i], host) && names_host(expected, other));
    }
    if some_host_matches(servers, expected) {
        let (i, host, other) = choose|i: int, host: Seq<char>, other: Seq<char>|
            #![trigger names_host(servers[i], host), names_host(expected, other)]
            0 <= i < servers.len() && names_host(servers[i], host) && names_host(expected, other)
                && same_in_full(host, other);
        law_servers_match_by_whole_hosts(servers[i], expected);
        assert(blossom::same_server(servers[i], expected));
    }
}

/// Tags authorize a request at a time where they expire later, are for the action that is expected,
/// name the server, if they name any, and name a hash, if one is asked for or they name any. Where
/// they do not, the first of these that fails is told.
pub proof fn law_tags_authorize(tags: Seq<JsonView>, demand: DemandView, now: u64)
    ensures
        ({
            let told = blossom::tags_fault(tags, demand, now);
            let expiration = blossom::first_number(blossom::tag_values(tags, "expiration"@));
            let actions = blossom::tag_values(tags, "t"@);
            let servers = blossom::tag_values(tags, "server"@);
            let hashes = blossom::hashes_among(blossom::tag_values(tags, "x"@));
            let dated = expiration is Some;
            let valid = dated && now < expiration->0;
            let acts = valid && actions.len() > 0;
            let right = acts && (demand.action == Some(actions[0]) || demand.action is None);
            let here = right && (servers.len() == 0 || some_host_matches(servers, demand.server));
            let named = here && (hashes.len() > 0 || !demand.hash_required);
            let covered = named && (demand.hash is None || hashes.len() == 0 || exists|i: int|
                0 <= i < hashes.len() && #[trigger] hashes[i] == demand.hash->0);
            &&& !dated ==> told == Some("missing Blossom authorization expiration"@)
            &&& dated && !valid ==> told == Some("expired Blossom authorization"@)
            &&& valid && !acts ==> told == Some("missing Blossom authorization action"@)
            &&& acts && !right ==> told == Some(
                "Blossom authorization action does not match request"@,
            )
            &&& right && !here ==> told == Some(
                "Blossom authorization server does not match request"@,
            )
            &&& here && !named ==> told == Some("missing Blossom authorization hash"@)
            &&& named && !covered ==> told == Some(
                "Blossom authorization hash does not match request"@,
            )
            &&& covered ==> told is None
        }),
{
    let servers = blossom::tag_values(tags, "server"@);
    let hashes = blossom::hashes_among(blossom::tag_values(tags, "x"@));
    lemma_some_host_matches(servers, demand.server);
    if demand.hash is Some && hashes.contains(demand.hash->0) {
        let i = hashes.index_of(demand.hash->0);
        assert(hashes[i] == demand.hash->0);
    }
}

/// A verified event authorizes a request at a time where it is of kind 24242, is dated at most a
/// minute ahead, and its document shows tags that authorize the request. Where it does not, the first
/// of these that fails is told.
pub proof fn law_events_authorize(
    kind: u16,
    created_at: u64,
    document: Option<JsonView>,
    tags: Seq<JsonView>,
    demand: DemandView,
    now: u64,
)
    ensures
        ({
            let told = blossom::authorization_fault(kind, created_at, document, demand, now);
            let of_kind = kind == 24242;
            let dated = of_kind && created_at <= now + 60;
            let shown = dated && document is Some;
            &&& !of_kind ==> told == Some("invalid Blossom authorization kind"@)
            &&& of_kind && !dated ==> told == Some(
                "Blossom authorization was created too far in the future"@,
            )
            &&& dated && !shown ==> told == Some("invalid Blossom authorization event"@)
            &&& shown && (forall|any: Seq<JsonView>| !relay_laws::shows_tags(document->0, any))
                ==> told == Some("missing Blossom authorization tags"@)
            &&& shown && relay_laws::shows_tags(document->0, tags) ==> told == blossom::tags_fault(
                tags,
                demand,
                now,
            )
        }),
{
    if document is Some && relay::tags_of(document->0) is Some {
        assert(relay_laws::shows_tags(document->0, relay::tags_of(document->0)->0));
    }
}

/// A request shows its authorization where the field for it is exactly two words, of which the first
/// is the scheme, in whatever case; it is the second word. With fewer words, or no field, it is
/// missing.
pub proof fn law_shown_authorization(field: Seq<char>)
    ensures
        ({
            let words = text::words(field);
            let shown = blossom::shown_authorization(Some(field));
            let scheme = text::equal_ignoring_case(words[0], "nostr"@);
            &&& words.len() < 2 ==> shown == Err::<Seq<char>, Seq<char>>(
                "missing Blossom Nostr authorization"@,
            )
            &&& words.len() == 2 && scheme ==> shown == Ok::<Seq<char>, Seq<char>>(words[1])
            &&& words.len() > 2 || (words.len() == 2 && !scheme) ==> shown == Err::<
                Seq<char>,
                Seq<char>,
            >("invalid Blossom authorization scheme"@)
            &&& blossom::shown_authorization(None) == Err::<Seq<char>, Seq<char>>(
                "missing Blossom Nostr authorization"@,
            )
        }),
{
}

/// What a request shows authorizes it where it is base64 of a verified event that authorizes it; the
/// key is then the event's author, and the hashes those of its tags.
pub proof fn law_requests_are_authorized(
    field: Option<Seq<char>>,
    payload: Seq<u8>,
    demand: DemandView,
    now: u64,
)
    ensures
        ({
            let outcome = blossom::authorization(field, demand, now);
            let shown = blossom::shown_authorization(field);
            let encoded = shown is Ok && encoding::base64_bytes(shown->Ok_0) is Some;
            let worth = blossom::payload_authorization(payload, demand, now);
            let found = event::event_in_bytes(payload);
            let verified = found is Some && event::event_verified(found->0);
            let document = json::json_in_bytes(payload);
            let told = blossom::authorization_fault(
                found->0.kind,
                found->0.created_at,
                document,
                demand,
                now,
            );
            &&& shown is Err ==> outcome is Err && outcome->Err_0 == shown->Err_0
            &&& shown is Ok && !encoded ==> outcome is Err && outcome->Err_0
                == "invalid Blossom authorization encoding"@
            &&& encoded && encoding::base64_bytes(shown->Ok_0) == Some(payload) ==> outcome == worth
            &&& found is None ==> worth is Err && worth->Err_0
                == "invalid Blossom authorization event"@
            &&& found is Some && !verified ==> worth is Err && worth->Err_0
                == "invalid Blossom authorization signature"@
            &&& verified && told is Some ==> worth is Err && worth->Err_0 == told->0
            &&& verified && told is None ==> worth is Ok && worth->Ok_0.public_key
                == found->0.public_key && worth->Ok_0.hashes == blossom::hashes_among(
                blossom::tag_values(relay::tags_of(document->0)->0, "x"@),
            )
        }),
{
}

/// What is demanded of an authorization, and what an address says, is what the demand and the address
/// hold.
pub proof fn law_demands_hold(demand: Demand<'_>, url: ParsedUrl)
    ensures
        demand@.server == demand.server@,
        demand@.hash_required == demand.hash_required,
        demand@.action is Some <==> demand.action is Some,
        demand.action is Some ==> demand@.action->0 == demand.action->0@,
        demand@.hash is Some <==> demand.hash is Some,
        demand.hash is Some ==> demand@.hash->0 == demand.hash->0@,
        url@.scheme == url.scheme@,
        url@.host is Some <==> url.host is Some,
        url.host is Some ==> url@.host->0 == url.host->0@,
{
}

/// An outcome agrees with what is expected where both hold one key and the same hashes, or one
/// message.
pub proof fn law_agrees(
    outcome: Result<BlossomAuthorization, &'static str>,
    expected: BlossomAuthorizationView,
    fault: Seq<char>,
)
    ensures
        blossom::agrees(outcome, Ok(expected)) ==> outcome is Ok && outcome->Ok_0.public_key@
            == expected.public_key && outcome->Ok_0.hashes.deep_view() == expected.hashes,
        blossom::agrees(outcome, Err(fault)) ==> outcome is Err && outcome->Err_0@ == fault,
{
}

/// What is said of a blob can be kept exactly where its hash is one, neither its size nor its time is
/// below zero, its media type has a slash, is not blank and takes at most 255 bytes, and its address
/// takes at most 2048 bytes, is one of HTTP, and has a host.
pub proof fn law_what_can_be_kept(descriptor: DescriptorView, url: Option<UrlView>)
    ensures
        blob::keepable(descriptor, url) <==> {
            &&& blossom::is_hash(descriptor.sha256)
            &&& 0 <= descriptor.size
            &&& 0 <= descriptor.uploaded
            &&& exists|i: int|
                0 <= i < descriptor.mime_type.len() && #[trigger] descriptor.mime_type[i] == '/'
            &&& exists|i: int|
                0 <= i < descriptor.mime_type.len() && !text::is_white(
                    #[trigger] descriptor.mime_type[i],
                )
            &&& vstd::utf8::encode_utf8(descriptor.mime_type).len() <= 255
            &&& vstd::utf8::encode_utf8(descriptor.url).len() <= 2048
            &&& url is Some
            &&& url->0.scheme == "http"@ || url->0.scheme == "https"@
            &&& url->0.host is Some
        },
        blob::valid_descriptor(descriptor) <==> blob::keepable(
            descriptor,
            blossom::url_in_text(descriptor.url),
        ),
{
    text_laws::law_blank(descriptor.mime_type);
    if descriptor.mime_type.contains('/') {
        let i = descriptor.mime_type.index_of('/');
        assert(descriptor.mime_type[i] == '/');
    }
}

proof fn lemma_hashes_among(values: Seq<Seq<char>>)
    ensures
        forall|i: int|
            0 <= i < blossom::hashes_among(values).len() ==> blossom::is_hash(
                #[trigger] blossom::hashes_among(values)[i],
            ) && values.contains(blossom::hashes_among(values)[i]),
        forall|value: Seq<char>|
            #![trigger blossom::hashes_among(values).contains(value)]
            values.contains(value) && blossom::is_hash(value) ==> blossom::hashes_among(
                values,
            ).contains(value),
    decreases values.len(),
{
    if values.len() > 0 {
        let front = values.drop_last();
        lemma_hashes_among(front);
        assert forall|i: int| 0 <= i < blossom::hashes_among(values).len() implies blossom::is_hash(
            #[trigger] blossom::hashes_among(values)[i],
        ) && values.contains(blossom::hashes_among(values)[i]) by {
            let hash = blossom::hashes_among(values)[i];
            if i < blossom::hashes_among(front).len() {
                assert(blossom::hashes_among(front)[i] == hash);
                assert(front.contains(hash));
                let j = front.index_of(hash);
                assert(values[j] == hash);
            } else {
                assert(values[values.len() - 1] == hash);
            }
        }
        assert forall|value: Seq<char>|
            #![trigger blossom::hashes_among(values).contains(value)]
            values.contains(value) && blossom::is_hash(value) implies blossom::hashes_among(
            values,
        ).contains(value) by {
            let at = values.index_of(value);
            if at < front.len() {
                assert(front[at] == value);
                assert(blossom::hashes_among(front).contains(value));
                let i = blossom::hashes_among(front).index_of(value);
                assert(blossom::hashes_among(values)[i] == value);
            } else {
                let i = blossom::hashes_among(values).len() - 1;
                assert(blossom::hashes_among(values)[i] == value);
            }
        }
    }
}

/// A good authorization was signed for the media store: its event verifies, is of the right kind,
/// is dated no more than a minute ahead, has not expired, and is for the action, the server and the
/// hash that the request needs. The hashes that it names are those of its tags that are hashes in
/// lower case.
pub proof fn law_authorizations_are_good(payload: Seq<u8>, demand: DemandView, now: u64)
    requires
        blossom::payload_authorization(payload, demand, now) is Ok,
    ensures
        ({
            let authorization = blossom::payload_authorization(payload, demand, now)->Ok_0;
            let event = event::event_in_bytes(payload)->0;
            let tags = relay::tags_of(json::json_in_bytes(payload)->0)->0;
            let expiration = blossom::first_number(blossom::tag_values(tags, "expiration"@));
            let servers = blossom::tag_values(tags, "server"@);
            &&& event::event_in_bytes(payload) is Some
            &&& event::event_verified(event)
            &&& authorization.public_key == event.public_key
            &&& event.kind == 24242
            &&& event.created_at <= now + 60
            &&& expiration is Some
            &&& expiration->0 > now
            &&& blossom::tag_values(tags, "t"@).len() > 0
            &&& demand.action is Some ==> blossom::tag_values(tags, "t"@)[0] == demand.action->0
            &&& servers.len() > 0 ==> exists|i: int, host: Seq<char>, other: Seq<char>|
                #![trigger names_host(servers[i], host), names_host(demand.server, other)]
                0 <= i < servers.len() && names_host(servers[i], host) && names_host(
                    demand.server,
                    other,
                ) && same_in_full(host, other)
            &&& demand.hash_required ==> authorization.hashes.len() > 0
            &&& demand.hash_required && demand.hash is Some ==> authorization.hashes.contains(
                demand.hash->0,
            )
            &&& forall|i: int|
                0 <= i < authorization.hashes.len() ==> blossom::is_hash(
                    #[trigger] authorization.hashes[i],
                ) && blossom::tag_values(tags, "x"@).contains(authorization.hashes[i])
            &&& forall|hash: Seq<char>|
                #![trigger authorization.hashes.contains(hash)]
                blossom::is_hash(hash) && blossom::tag_values(tags, "x"@).contains(hash)
                    ==> authorization.hashes.contains(hash)
        }),
{
    let tags = relay::tags_of(json::json_in_bytes(payload)->0)->0;
    lemma_hashes_among(blossom::tag_values(tags, "x"@));
    lemma_some_host_matches(blossom::tag_values(tags, "server"@), demand.server);
}

/// To delete a blob takes an authorization that names the blob.
pub proof fn law_deletes_name_their_blob(
    hash: Seq<char>,
    payload: Seq<u8>,
    server: Seq<char>,
    shown_hash: Option<Seq<char>>,
    now: u64,
)
    requires
        blossom::payload_authorization(
            payload,
            RouteView::Delete(hash).demand(server, shown_hash),
            now,
        ) is Ok,
    ensures
        blossom::payload_authorization(
            payload,
            RouteView::Delete(hash).demand(server, shown_hash),
            now,
        )->Ok_0.hashes.contains(hash),
{
    law_authorizations_are_good(
        payload,
        RouteView::Delete(hash).demand(server, shown_hash),
        now,
    );
}

/// What a text is decoded to is encoded, in one of the four forms, as that text; so what is no base64
/// is decoded to nothing.
pub proof fn law_only_base64_counts(encoded: Seq<char>, bytes: Seq<u8>)
    ensures
        encoding::base64_bytes(encoded) == Some(bytes) <==> exists|form: Base64Form|
            encoded == #[trigger] encoding::base64_text(bytes, form),
{
    if exists|form: Base64Form| encoded == #[trigger] encoding::base64_text(bytes, form) {
        let form = choose|form: Base64Form|
            encoded == #[trigger] encoding::base64_text(bytes, form);
        encoding::law_base64_reads_back(bytes, form);
    }
}

/// In whichever form of base64 a request shows an event, the event counts.
pub proof fn law_any_form_of_base64_counts(
    field: Option<Seq<char>>,
    payload: Seq<u8>,
    form: Base64Form,
    demand: DemandView,
    now: u64,
)
    requires
        blossom::shown_authorization(field) == Ok::<Seq<char>, Seq<char>>(
            encoding::base64_text(payload, form),
        ),
    ensures
        blossom::authorization(field, demand, now) == blossom::payload_authorization(
            payload,
            demand,
            now,
        ),
{
    encoding::law_base64_reads_back(payload, form);
}

} // verus!
