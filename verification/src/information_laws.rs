//! When the relay's document is asked for, and what the gateway makes of it.

use vstd::prelude::*;
use crate::information;
use crate::json::{self, JsonView};
use crate::text;
use crate::text_laws;

verus! {

proof fn lemma_split_between(a: Seq<char>, c: char, b: Seq<char>)
    ensures
        text::split(a.push(c) + b, c) == text::split(a, c) + text::split(b, c),
    decreases b.len(),
{
    let whole = a.push(c) + b;
    text_laws::law_split(a, c);
    text_laws::law_split(b, c);
    if b.len() == 0 {
        assert(whole =~= a.push(c));
        assert(whole.drop_last() =~= a);
        assert(text::split(whole, c) =~= text::split(a, c) + text::split(b, c));
    } else {
        let front = b.drop_last();
        lemma_split_between(a, c, front);
        text_laws::law_split(front, c);
        assert(whole.drop_last() =~= a.push(c) + front);
        assert(whole.last() == b.last());
        let left = text::split(a, c);
        let right = text::split(front, c);
        assert((left + right).drop_last() =~= left + right.drop_last());
        assert(text::split(whole, c) =~= text::split(a, c) + text::split(b, c));
    }
}

/// A list of media types accepts the document exactly where what stands before one of its commas or
/// what stands behind it does.
pub proof fn law_lists_of_media_types(a: Seq<char>, b: Seq<char>)
    ensures
        information::accepts_information(a.push(',') + b) <==> information::accepts_information(a)
            || information::accepts_information(b),
{
    lemma_split_between(a, ',', b);
    let left = text::split(a, ',');
    let right = text::split(b, ',');
    let both = text::split(a.push(',') + b, ',');
    if information::accepts_information(a.push(',') + b) {
        let i = choose|i: int|
            0 <= i < both.len() && #[trigger] information::is_information_type(both[i]);
        if i < left.len() {
            assert(information::is_information_type(left[i]));
        } else {
            assert(information::is_information_type(right[i - left.len()]));
        }
    }
    if information::accepts_information(a) {
        let i = choose|i: int|
            0 <= i < left.len() && #[trigger] information::is_information_type(left[i]);
        assert(information::is_information_type(both[i]));
    }
    if information::accepts_information(b) {
        let i = choose|i: int|
            0 <= i < right.len() && #[trigger] information::is_information_type(right[i]);
        assert(information::is_information_type(both[left.len() + i]));
    }
}

proof fn lemma_one_piece(s: Seq<char>, c: char)
    requires
        !s.contains(c),
    ensures
        text::split(s, c) == seq![s],
    decreases s.len(),
{
    if s.len() > 0 {
        let front = s.drop_last();
        assert(s[s.len() - 1] != c);
        assert(!front.contains(c)) by {
            if front.contains(c) {
                let i = front.index_of(c);
                assert(s[i] == c);
            }
        }
        lemma_one_piece(front, c);
        assert(front.push(s.last()) =~= s);
    } else {
        assert(s =~= Seq::empty());
    }
    assert(text::split(s, c) =~= seq![s]);
}

/// A single media type accepts the document exactly where it is the document's, whatever white space
/// stands around it and whatever parameters follow it.
pub proof fn law_one_media_type(media_type: Seq<char>)
    requires
        !media_type.contains(','),
    ensures
        information::accepts_information(media_type) <==> text::trim(text::before(media_type, ';'))
            == "application/nostr+json"@,
{
    lemma_one_piece(media_type, ',');
    let pieces = text::split(media_type, ',');
    if text::trim(text::before(media_type, ';')) == "application/nostr+json"@ {
        assert(information::is_information_type(pieces[0]));
    }
}

/// A NIP ranks by its number, where it is an integer of 64 bits without a sign; anything else ranks
/// last.
pub proof fn law_rank(number: int, other: JsonView)
    ensures
        0 <= number <= 0xffff_ffff_ffff_ffff ==> information::rank(JsonView::Integer(number))
            == number,
        number < 0 ==> information::rank(JsonView::Integer(number)) == 0xffff_ffff_ffff_ffff,
        other !is Integer ==> information::rank(other) == 0xffff_ffff_ffff_ffff,
{
}

/// A document is rewritten exactly where it is an object whose supported NIPs, if any are told, are a
/// list and whose limitations, if any are told, are an object.
pub proof fn law_what_is_rewritten(document: JsonView)
    ensures
        information::described(document) is Some <==> {
            let fields = document->Object_0;
            &&& document is Object
            &&& fields.contains_key("supported_nips"@) ==> fields["supported_nips"@] is Array
            &&& fields.contains_key("limitation"@) ==> fields["limitation"@] is Object
        },
{
}

/// A rewritten document is an object that says what the document said, but for two fields. Of the
/// limitations, that writes are restricted is set, and the others stay. The supported NIPs stay as
/// they are where 42 is among them; else they are the NIPs and 42, by number, those of one number in
/// their order.
pub proof fn law_what_a_document_becomes(
    fields: Map<Seq<char>, JsonView>,
    nips: Seq<JsonView>,
    limits: Map<Seq<char>, JsonView>,
    key: Seq<char>,
    number: u64,
)
    requires
        if fields.contains_key("supported_nips"@) {
            fields["supported_nips"@] == JsonView::Array(nips)
        } else {
            nips.len() == 0
        },
        if fields.contains_key("limitation"@) {
            fields["limitation"@] == JsonView::Object(limits)
        } else {
            limits == Map::<Seq<char>, JsonView>::empty()
        },
    ensures
        ({
            let written = information::described(JsonView::Object(fields))->0->Object_0;
            let limited = written["limitation"@]->Object_0;
            let listed = written["supported_nips"@]->Array_0;
            let added = nips.push(JsonView::Integer(42));
            &&& information::described(JsonView::Object(fields)) == Some(
                JsonView::Object(written),
            )
            &&& written.contains_key("limitation"@)
            &&& written["limitation"@] == JsonView::Object(limited)
            &&& written.contains_key("supported_nips"@)
            &&& written["supported_nips"@] == JsonView::Array(listed)
            &&& key != "limitation"@ && key != "supported_nips"@ ==> {
                &&& written.contains_key(key) <==> fields.contains_key(key)
                &&& written.contains_key(key) ==> written[key] == fields[key]
            }
            &&& limited.contains_key("restricted_writes"@)
            &&& limited["restricted_writes"@] == JsonView::Bool(true)
            &&& key != "restricted_writes"@ ==> {
                &&& limited.contains_key(key) <==> limits.contains_key(key)
                &&& limited.contains_key(key) ==> limited[key] == limits[key]
            }
            &&& nips.contains(JsonView::Integer(42)) ==> listed == nips
            &&& !nips.contains(JsonView::Integer(42)) ==> {
                &&& listed.to_multiset() == added.to_multiset()
                &&& information::in_order(listed)
                &&& information::of_rank(listed, number) == information::of_rank(added, number)
            }
        }),
{
    reveal_strlit("supported_nips");
    reveal_strlit("limitation");
    assert("supported_nips"@.len() != "limitation"@.len());
    information::law_by_rank_is_a_stable_order(nips.push(JsonView::Integer(42)));
    let empty = Seq::<JsonView>::empty();
    if !fields.contains_key("supported_nips"@) {
        assert(nips =~= empty);
    }
    assert(information::listed_nips(fields) == Some(nips));
    assert(information::listed_limits(fields) == Some(limits));
}

/// Bytes are rewritten exactly where they are a document that is; then they become the bytes of the
/// rewritten document.
pub proof fn law_what_bytes_become(body: Seq<u8>)
    ensures
        ({
            let found = json::json_in_bytes(body);
            let rewritten = information::described(found->0);
            &&& information::rewritten(body) is Some <==> found is Some && rewritten is Some
            &&& found is Some && rewritten is Some ==> information::rewritten(body) == Some(
                json::json_bytes(rewritten->0),
            )
        }),
{
}

} // verus!
