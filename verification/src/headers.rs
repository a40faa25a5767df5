//! Header fields of requests and responses, and which of them pass the gateway.

use vstd::prelude::*;
use axum::http::{HeaderMap, HeaderName, HeaderValue};
use crate::text;

verus! {

/// `axum::http::HeaderMap`.
#[verifier::external_type_specification]
#[verifier::external_body]
#[verifier::reject_recursive_types(T)]
pub struct ExternalHeaderMap<T>(HeaderMap<T>);

/// `axum::http::HeaderName`.
#[verifier::external_type_specification]
#[verifier::external_body]
pub struct ExternalHeaderName(HeaderName);

/// `axum::http::HeaderValue`.
#[verifier::external_type_specification]
#[verifier::external_body]
pub struct ExternalHeaderValue(HeaderValue);

/// The fields that a map holds: for each name, in lower case, its values in order. There is at least
/// one value for each name.
pub uninterp spec fn header_values(headers: HeaderMap) -> Map<Seq<char>, Seq<Seq<u8>>>;

/// The text of a name, in lower case.
pub uninterp spec fn header_name(name: HeaderName) -> Seq<char>;

/// The bytes of a value.
pub uninterp spec fn header_bytes(value: HeaderValue) -> Seq<u8>;

/// The number of distinct names up to which a map surely has room for one more.
pub const MAX_NAMES: usize = 6553;

/// Lower-case letters, digits and dashes: a name as the fields that are read or added here have it.
pub open spec fn plain_name(name: Seq<char>) -> bool {
    &&& 0 < name.len() <= 64
    &&& forall|i: int|
        0 <= i < name.len() ==> ('a' <= #[trigger] name[i] <= 'z' || '0' <= name[i] <= '9'
            || name[i] == '-')
}

/// Bytes that are all visible ASCII, spaces or tabs.
pub open spec fn visible(bytes: Seq<u8>) -> bool {
    forall|i: int| 0 <= i < bytes.len() ==> (32 <= #[trigger] bytes[i] < 127 || bytes[i] == 9)
}

/// The characters that ASCII bytes stand for.
pub open spec fn ascii_text(bytes: Seq<u8>) -> Seq<char> {
    bytes.map_values(|b: u8| b as char)
}

/// The bytes that stand for ASCII characters.
pub open spec fn ascii_bytes(text: Seq<char>) -> Seq<u8> {
    text.map_values(|c: char| c as u8)
}

/// The text of the first value of a name; `None` where there is none, or it is not visible ASCII.
pub open spec fn text_of(values: Map<Seq<char>, Seq<Seq<u8>>>, name: Seq<char>) -> Option<
    Seq<char>,
> {
    if values.contains_key(name) && visible(values[name][0]) {
        Some(ascii_text(values[name][0]))
    } else {
        None
    }
}

/// No fields at all.
pub open spec fn no_fields() -> Map<Seq<char>, Seq<Seq<u8>>> {
    Map::empty()
}

/// The values of a name: none where the name is absent.
pub open spec fn values_of(
    values: Map<Seq<char>, Seq<Seq<u8>>>,
    name: Seq<char>,
) -> Seq<Seq<u8>> {
    if values.contains_key(name) {
        values[name]
    } else {
        Seq::empty()
    }
}

/// The fields with one more value at the end of a name's values.
pub open spec fn appended(
    values: Map<Seq<char>, Seq<Seq<u8>>>,
    name: Seq<char>,
    value: Seq<u8>,
) -> Map<Seq<char>, Seq<Seq<u8>>> {
    values.insert(name, values_of(values, name).push(value))
}

/// The fields of a list, one value each.
pub open spec fn listed(fields: Seq<(HeaderName, HeaderValue)>) -> Map<Seq<char>, Seq<Seq<u8>>>
    decreases fields.len(),
{
    if fields.len() == 0 {
        Map::empty()
    } else {
        appended(
            listed(fields.drop_last()),
            header_name(fields.last().0),
            header_bytes(fields.last().1),
        )
    }
}

/// Whether as many more names surely find room in a map.
pub open spec fn room_for(values: Map<Seq<char>, Seq<Seq<u8>>>, more: nat) -> bool {
    values.dom().finite() && values.dom().len() + more <= MAX_NAMES
}

/// `HeaderMap::new`: a map without fields.
#[verifier::external_body]
fn new_headers() -> (r: HeaderMap)
    ensures
        header_values(r) == no_fields(),
{
    HeaderMap::new()
}

/// `HeaderMap::get`: the first value of a name.
#[verifier::external_body]
fn find<'a>(headers: &'a HeaderMap, name: &HeaderName) -> (r: Option<&'a HeaderValue>)
    ensures
        r is Some <==> header_values(*headers).contains_key(header_name(*name)),
        r is Some ==> header_values(*headers)[header_name(*name)].len() > 0 && header_bytes(*r->0)
            == header_values(*headers)[header_name(*name)][0],
{
    headers.get(name)
}

/// `HeaderMap::iter`: every name once for each of its values, in the order of the values.
#[verifier::external_body]
fn fields(headers: &HeaderMap) -> (r: Vec<(HeaderName, HeaderValue)>)
    ensures
        listed(r@) == header_values(*headers),
{
    headers.iter().map(|(name, value)| (name.clone(), value.clone())).collect()
}

/// `HeaderMap::try_append`: adds a value at the end of a name's values, or changes nothing where the
/// map is full.
///
/// A map is not full as long as it has no more than [`MAX_NAMES`] distinct names: it grows up to
/// 32768 slots, and refuses to grow further only once a fifth of them is in use.
#[verifier::external_body]
fn append(headers: &mut HeaderMap, name: &HeaderName, value: &HeaderValue) -> (r: bool)
    ensures
        r ==> header_values(*final(headers)) == appended(
            header_values(*old(headers)),
            header_name(*name),
            header_bytes(*value),
        ),
        !r ==> header_values(*final(headers)) == header_values(*old(headers)),
        room_for(header_values(*old(headers)), 0) ==> r,
{
    headers.try_append(name.clone(), value.clone()).is_ok()
}

/// `HeaderMap::try_insert`: makes a value the only one of a name, or changes nothing where the map is
/// full. It is not full as long as it has no more than [`MAX_NAMES`] distinct names.
#[verifier::external_body]
fn insert(headers: &mut HeaderMap, name: &HeaderName, value: &HeaderValue) -> (r: bool)
    ensures
        r ==> header_values(*final(headers)) == header_values(*old(headers)).insert(
            header_name(*name),
            seq![header_bytes(*value)],
        ),
        !r ==> header_values(*final(headers)) == header_values(*old(headers)),
        room_for(header_values(*old(headers)), 0) ==> r,
{
    headers.try_insert(name.clone(), value.clone()).is_ok()
}

/// `HeaderName::as_str`: the text of a name.
#[verifier::external_body]
fn name_text(name: &HeaderName) -> (r: &str)
    ensures
        r@ == header_name(*name),
{
    name.as_str()
}

/// `HeaderName::from_bytes` on lower-case letters, digits and dashes, which it takes as they are.
#[verifier::external_body]
fn to_name(name: &str) -> (r: HeaderName)
    requires
        plain_name(name@),
    ensures
        header_name(r) == name@,
{
    HeaderName::from_bytes(name.as_bytes()).unwrap()
}

/// `HeaderValue::from_str` on visible ASCII, which it takes as it is.
#[verifier::external_body]
fn to_header_value(value: &str) -> (r: HeaderValue)
    requires
        forall|i: int| 0 <= i < value@.len() ==> ' ' <= #[trigger] value@[i] <= '~',
    ensures
        header_bytes(r) == ascii_bytes(value@),
{
    HeaderValue::from_str(value).unwrap()
}

/// `HeaderValue::to_str`: the text of a value, where it is all visible ASCII, spaces and tabs.
#[verifier::external_body]
fn value_text(value: &HeaderValue) -> (r: Option<&str>)
    ensures
        r is Some <==> visible(header_bytes(*value)),
        r is Some ==> r->0@ == ascii_text(header_bytes(*value)),
{
    value.to_str().ok()
}

/// The text of the first value of a name.
pub fn header_text<'a>(headers: &'a HeaderMap, name: &str) -> (r: Option<&'a str>)
    requires
        plain_name(name@),
    ensures
        text::optional(r) == text_of(header_values(*headers), name@),
{
    match find(headers, &to_name(name)) {
        Some(value) => value_text(value),
        None => None,
    }
}

/// The names of fields that concern a single connection and do not pass the gateway.
pub open spec fn hop_by_hop(name: Seq<char>) -> bool {
    ||| text::equal_ignoring_case(name, "connection"@)
    ||| text::equal_ignoring_case(name, "keep-alive"@)
    ||| text::equal_ignoring_case(name, "proxy-authenticate"@)
    ||| text::equal_ignoring_case(name, "proxy-authorization"@)
    ||| text::equal_ignoring_case(name, "te"@)
    ||| text::equal_ignoring_case(name, "trailer"@)
    ||| text::equal_ignoring_case(name, "transfer-encoding"@)
    ||| text::equal_ignoring_case(name, "upgrade"@)
}

/// Whether a name is that of a field that concerns a single connection.
pub fn is_hop_by_hop(name: &str) -> (r: bool)
    ensures
        r == hop_by_hop(name@),
{
    text::same_ignoring_case(name, "connection") || text::same_ignoring_case(name, "keep-alive")
        || text::same_ignoring_case(name, "proxy-authenticate") || text::same_ignoring_case(
        name,
        "proxy-authorization",
    ) || text::same_ignoring_case(name, "te") || text::same_ignoring_case(name, "trailer")
        || text::same_ignoring_case(name, "transfer-encoding") || text::same_ignoring_case(
        name,
        "upgrade",
    )
}

/// Which fields pass.
#[derive(Clone, Copy, PartialEq, Eq, Structural)]
pub enum HeaderRule {
    /// Those of a response.
    Response,
    /// Those of a request, which may forward its body.
    Request { forwards_body: bool },
}

impl HeaderRule {
    /// Whether a field with a name passes: not one that concerns a single connection, and of a
    /// request neither the host nor, where it forwards no body, the length of the body.
    pub open spec fn keeps(self, name: Seq<char>) -> bool {
        &&& !hop_by_hop(name)
        &&& match self {
            HeaderRule::Response => true,
            HeaderRule::Request { forwards_body } => name != "host"@ && (forwards_body || name
                != "content-length"@),
        }
    }

    fn passes(self, name: &str) -> (r: bool)
        ensures
            r == self.keeps(name@),
    {
        !is_hop_by_hop(name) && match self {
            HeaderRule::Response => true,
            HeaderRule::Request { forwards_body } => !text::same(name, "host") && (forwards_body
                || !text::same(name, "content-length")),
        }
    }
}

/// The fields of `into`, followed for each name by the values that pass of `from`.
pub open spec fn merged(
    into: Map<Seq<char>, Seq<Seq<u8>>>,
    from: Map<Seq<char>, Seq<Seq<u8>>>,
    rule: HeaderRule,
) -> Map<Seq<char>, Seq<Seq<u8>>> {
    Map::new(
        |name: Seq<char>| into.contains_key(name) || (from.contains_key(name) && rule.keeps(name)),
        |name: Seq<char>|
            if rule.keeps(name) {
                values_of(into, name) + values_of(from, name)
            } else {
                into[name]
            },
    )
}

/// The fields that pass, each with its first value alone.
pub open spec fn first_values(
    from: Map<Seq<char>, Seq<Seq<u8>>>,
    rule: HeaderRule,
) -> Map<Seq<char>, Seq<Seq<u8>>> {
    Map::new(
        |name: Seq<char>| from.contains_key(name) && rule.keeps(name),
        |name: Seq<char>| seq![from[name][0]],
    )
}

/// Of the fields that a request or a response goes on with, none concerns a single connection, and
/// none is made up: those that pass do so with all their values. The host of a request never passes,
/// and the length of a body only with the body.
pub proof fn law_what_passes(from: Map<Seq<char>, Seq<Seq<u8>>>, rule: HeaderRule, name: Seq<char>)
    ensures
        ({
            let passed = merged(no_fields(), from, rule);
            &&& passed.contains_key(name) <==> from.contains_key(name) && rule.keeps(name)
            &&& passed.contains_key(name) ==> passed[name] == from[name] && !hop_by_hop(name)
            &&& rule is Request ==> !passed.contains_key("host"@)
            &&& rule == (HeaderRule::Request { forwards_body: false }) ==> !passed.contains_key(
                "content-length"@,
            )
        }),
{
    assert(Seq::<Seq<u8>>::empty() + values_of(from, name) =~= values_of(from, name));
}

proof fn lemma_merged_appended(
    into: Map<Seq<char>, Seq<Seq<u8>>>,
    from: Map<Seq<char>, Seq<Seq<u8>>>,
    rule: HeaderRule,
    name: Seq<char>,
    value: Seq<u8>,
)
    ensures
        merged(into, appended(from, name, value), rule) == if rule.keeps(name) {
            appended(merged(into, from, rule), name, value)
        } else {
            merged(into, from, rule)
        },
{
    let now = appended(from, name, value);
    assert(values_of(into, name) + values_of(from, name).push(value) =~= (values_of(into, name)
        + values_of(from, name)).push(value));
    assert(Seq::<Seq<u8>>::empty() + Seq::<Seq<u8>>::empty() =~= Seq::<Seq<u8>>::empty());
    if rule.keeps(name) {
        assert(merged(into, now, rule) =~= appended(merged(into, from, rule), name, value));
    } else {
        assert(merged(into, now, rule) =~= merged(into, from, rule));
    }
}

proof fn lemma_merged_nothing(into: Map<Seq<char>, Seq<Seq<u8>>>, rule: HeaderRule)
    ensures
        merged(into, no_fields(), rule) == into,
{
    assert forall|name: Seq<char>| into.contains_key(name) implies #[trigger] merged(
        into,
        no_fields(),
        rule,
    )[name] == into[name] by {
        assert(into[name] + Seq::<Seq<u8>>::empty() =~= into[name]);
    }
    assert(merged(into, no_fields(), rule) =~= into);
}

proof fn lemma_listed_prefix(fields: Seq<(HeaderName, HeaderValue)>, i: int)
    requires
        0 <= i <= fields.len(),
    ensures
        listed(fields.take(i)).dom().finite(),
        listed(fields.take(i)).dom().len() <= listed(fields).dom().len(),
        listed(fields.take(i)).dom().subset_of(listed(fields).dom()),
        listed(fields).dom().finite(),
    decreases fields.len(),
{
    if fields.len() == 0 {
        assert(fields.take(i) =~= fields);
    } else if i == fields.len() {
        assert(fields.take(i) =~= fields);
        lemma_listed_prefix(fields.drop_last(), i - 1);
    } else {
        lemma_listed_prefix(fields.drop_last(), i);
        assert(fields.drop_last().take(i) =~= fields.take(i));
    }
    vstd::set_lib::lemma_len_subset(listed(fields.take(i)).dom(), listed(fields).dom());
}

proof fn lemma_merged_names(
    into: Map<Seq<char>, Seq<Seq<u8>>>,
    from: Map<Seq<char>, Seq<Seq<u8>>>,
    rule: HeaderRule,
)
    requires
        into.dom().finite(),
        from.dom().finite(),
    ensures
        merged(into, from, rule).dom().finite(),
        merged(into, from, rule).dom().len() <= into.dom().len() + from.dom().len(),
{
    let both = into.dom().union(from.dom());
    assert(merged(into, from, rule).dom().subset_of(both));
    vstd::set_lib::lemma_len_union(into.dom(), from.dom());
    vstd::set_lib::lemma_len_subset(merged(into, from, rule).dom(), both);
}

/// Adds the fields of a response that pass to those of another; `false` where these become too many.
pub fn copy_response_headers(source: &HeaderMap, destination: &mut HeaderMap) -> (r: bool)
    ensures
        r ==> header_values(*final(destination)) == merged(
            header_values(*old(destination)),
            header_values(*source),
            HeaderRule::Response,
        ),
        room_for(
            header_values(*old(destination)),
            header_values(*source).dom().len(),
        ) ==> r,
{
    copy_headers(source, destination, HeaderRule::Response)
}

fn copy_headers(source: &HeaderMap, destination: &mut HeaderMap, rule: HeaderRule) -> (r: bool)
    ensures
        r ==> header_values(*final(destination)) == merged(
            header_values(*old(destination)),
            header_values(*source),
            rule,
        ),
        room_for(
            header_values(*old(destination)),
            header_values(*source).dom().len(),
        ) ==> r,
{
    let ghost into = header_values(*destination);
    let all = fields(source);
    let mut i: usize = 0;
    assert(all@.take(0) =~= Seq::empty());
    proof {
        lemma_merged_nothing(into, rule);
    }
    while i < all.len()
        invariant
            i <= all@.len(),
            into == header_values(*old(destination)),
            listed(all@) == header_values(*source),
            header_values(*destination) == merged(into, listed(all@.take(i as int)), rule),
        decreases all@.len() - i,
    {
        let (name, value) = &all[i];
        assert(all@.take(i + 1).drop_last() =~= all@.take(i as int));
        proof {
            lemma_merged_appended(
                into,
                listed(all@.take(i as int)),
                rule,
                header_name(*name),
                header_bytes(*value),
            );
        }
        if rule.passes(name_text(name)) {
            proof {
                lemma_listed_prefix(all@, i as int);
                if into.dom().finite() {
                    lemma_merged_names(into, listed(all@.take(i as int)), rule);
                }
            }
            if !append(destination, name, value) {
                return false;
            }
        }
        i += 1;
    }
    assert(all@.take(i as int) =~= all@);
    true
}

/// The fields of a request that pass, whether or not its body is forwarded; `None` where these are
/// too many.
pub fn request_headers(source: &HeaderMap, forwards_body: bool) -> (r: Option<HeaderMap>)
    ensures
        r is Some ==> header_values(r->0) == merged(
            no_fields(),
            header_values(*source),
            HeaderRule::Request { forwards_body },
        ),
        room_for(header_values(*source), 0) ==> r is Some,
{
    let mut headers = new_headers();
    if copy_headers(source, &mut headers, HeaderRule::Request { forwards_body }) {
        Some(headers)
    } else {
        None
    }
}

/// The fields of a response that pass; `None` where these are too many.
pub fn response_headers(source: &HeaderMap) -> (r: Option<HeaderMap>)
    ensures
        r is Some ==> header_values(r->0) == merged(
            no_fields(),
            header_values(*source),
            HeaderRule::Response,
        ),
        room_for(header_values(*source), 0) ==> r is Some,
{
    let mut headers = new_headers();
    if copy_response_headers(source, &mut headers) {
        Some(headers)
    } else {
        None
    }
}

proof fn lemma_listed_nonempty(fields: Seq<(HeaderName, HeaderValue)>)
    ensures
        forall|name: Seq<char>| #[trigger]
            listed(fields).contains_key(name) ==> listed(fields)[name].len() > 0,
    decreases fields.len(),
{
    if fields.len() > 0 {
        lemma_listed_nonempty(fields.drop_last());
        assert forall|name: Seq<char>| #[trigger] listed(fields).contains_key(name) implies listed(
            fields,
        )[name].len() > 0 by {
            if name != header_name(fields.last().0) {
                assert(listed(fields.drop_last()).contains_key(name));
            }
        }
    }
}

proof fn lemma_first_values_appended(
    from: Map<Seq<char>, Seq<Seq<u8>>>,
    rule: HeaderRule,
    name: Seq<char>,
    value: Seq<u8>,
)
    requires
        forall|other: Seq<char>| #[trigger] from.contains_key(other) ==> from[other].len() > 0,
    ensures
        first_values(appended(from, name, value), rule) == if rule.keeps(name)
            && !from.contains_key(name) {
            first_values(from, rule).insert(name, seq![value])
        } else {
            first_values(from, rule)
        },
{
    let now = appended(from, name, value);
    assert(from.contains_key(name) ==> now[name][0] == from[name][0]);
    if rule.keeps(name) && !from.contains_key(name) {
        assert(now[name] =~= seq![value]);
        assert(first_values(now, rule) =~= first_values(from, rule).insert(name, seq![value]));
    } else {
        assert(first_values(now, rule) =~= first_values(from, rule));
    }
}

/// Whether fields are those of a response that is streamed on.
pub open spec fn streams(
    sent: Map<Seq<char>, Seq<Seq<u8>>>,
    from: Map<Seq<char>, Seq<Seq<u8>>>,
) -> bool {
    sent == first_values(from, HeaderRule::Response)
}

/// The fields of a response that is streamed on: of each name that passes the first value alone;
/// `None` where these are too many.
pub fn streamed_headers(source: &HeaderMap) -> (r: Option<HeaderMap>)
    ensures
        r is Some ==> header_values(r->0) == first_values(
            header_values(*source),
            HeaderRule::Response,
        ),
        r is Some ==> streams(header_values(r->0), header_values(*source)),
        room_for(header_values(*source), 0) ==> r is Some,
{
    let mut headers = new_headers();
    let all = fields(source);
    let rule = HeaderRule::Response;
    let mut i: usize = 0;
    assert(all@.take(0) =~= Seq::empty());
    assert(first_values(no_fields(), rule) =~= no_fields());
    while i < all.len()
        invariant
            i <= all@.len(),
            rule == HeaderRule::Response,
            listed(all@) == header_values(*source),
            header_values(headers) == first_values(listed(all@.take(i as int)), rule),
        decreases all@.len() - i,
    {
        let (name, value) = &all[i];
        let ghost before = listed(all@.take(i as int));
        assert(all@.take(i + 1).drop_last() =~= all@.take(i as int));
        proof {
            lemma_listed_nonempty(all@.take(i as int));
            lemma_listed_prefix(all@, i as int);
            lemma_first_values_appended(before, rule, header_name(*name), header_bytes(*value));
            assert(first_values(before, rule).dom().subset_of(before.dom()));
            vstd::set_lib::lemma_len_subset(first_values(before, rule).dom(), before.dom());
        }
        if rule.passes(name_text(name)) && find(&headers, name).is_none() {
            assert(Seq::<Seq<u8>>::empty().push(header_bytes(*value)) =~= seq![
                header_bytes(*value),
            ]);
            if !append(&mut headers, name, value) {
                return None;
            }
        }
        i += 1;
    }
    assert(all@.take(i as int) =~= all@);
    Some(headers)
}

/// The fields that pass of a response whose body was replaced by relay information of a length;
/// `None` where these are too many.
pub(crate) fn information_headers(source: &HeaderMap, content_length: usize) -> (r: Option<
    HeaderMap,
>)
    ensures
        r is Some ==> header_values(r->0) == merged(
            no_fields(),
            header_values(*source),
            HeaderRule::Response,
        ).insert("content-type"@, seq![ascii_bytes("application/nostr+json"@)]).insert(
            "content-length"@,
            seq![ascii_bytes(text::decimal(content_length as nat))],
        ),
        room_for(header_values(*source), 1) ==> r is Some,
{
    let mut headers = match response_headers(source) {
        Some(headers) => headers,
        None => {
            return None;
        },
    };
    let ghost copied = header_values(headers);
    proof {
        let ghost from = header_values(*source);
        if from.dom().finite() {
            lemma_merged_names(no_fields(), from, HeaderRule::Response);
        }
        reveal_strlit("content-type");
        reveal_strlit("content-length");
        reveal_strlit("application/nostr+json");
        text::lemma_decimal_digits(content_length as nat);
    }
    let length = text::decimal_text(content_length);
    if insert(&mut headers, &to_name("content-type"), &to_header_value("application/nostr+json"))
        && insert(
        &mut headers,
        &to_name("content-length"),
        &to_header_value(length.as_str()),
    ) {
        Some(headers)
    } else {
        None
    }
}

} // verus!
