//! JSON values.
//!
//! [`Json`] holds a document in plain values; `serde_json` reads and writes its text.

use vstd::prelude::*;
use crate::text;

verus! {

/// `serde_json::Value`, which only this module takes apart.
#[verifier::external_type_specification]
#[verifier::external_body]
pub struct ExternalValue(serde_json::Value);

/// `serde_json::Number`.
#[verifier::external_type_specification]
#[verifier::external_body]
pub struct ExternalNumber(serde_json::Number);

/// `serde_json::Error`.
#[verifier::external_type_specification]
#[verifier::external_body]
pub struct ExternalError(serde_json::Error);

/// A number that is not an integer of 64 bits, with a sign or without one: one with a fraction, or one
/// too large.
///
/// One comes into being only where a document is taken apart, and is carried through unread.
#[derive(Debug, PartialEq)]
pub struct OtherNumber {
    number: serde_json::Number,
}

/// A JSON document.
///
/// Where a key occurs more than once in an object, the last of its values counts.
#[derive(Debug, PartialEq)]
pub enum Json {
    Null,
    Bool(bool),
    /// An integer; from a document, one that is not below zero.
    Unsigned(u64),
    /// An integer; from a document, one below zero.
    Signed(i64),
    Other(OtherNumber),
    Text(String),
    Array(Vec<Json>),
    Object(Vec<(String, Json)>),
}

/// What a JSON document says.
pub enum JsonView {
    Null,
    Bool(bool),
    Integer(int),
    Other(OtherNumber),
    Text(Seq<char>),
    Array(Seq<JsonView>),
    Object(Map<Seq<char>, JsonView>),
}

impl JsonView {
    /// The value of a key, where this is an object that has the key.
    pub open spec fn get(self, key: Seq<char>) -> Option<JsonView> {
        match self {
            JsonView::Object(fields) => if fields.contains_key(key) {
                Some(fields[key])
            } else {
                None
            },
            _ => None,
        }
    }

    /// The items, where this is an array.
    pub open spec fn items(self) -> Option<Seq<JsonView>> {
        match self {
            JsonView::Array(items) => Some(items),
            _ => None,
        }
    }

    /// The item at a position, where this is an array that is long enough.
    pub open spec fn at(self, index: int) -> Option<JsonView> {
        match self {
            JsonView::Array(items) => if 0 <= index < items.len() {
                Some(items[index])
            } else {
                None
            },
            _ => None,
        }
    }

    /// The characters, where this is a text.
    pub open spec fn text(self) -> Option<Seq<char>> {
        match self {
            JsonView::Text(text) => Some(text),
            _ => None,
        }
    }

    /// The text at a position of an array.
    pub open spec fn text_at(self, index: int) -> Option<Seq<char>> {
        match self.at(index) {
            Some(item) => item.text(),
            None => None,
        }
    }
}

impl View for Json {
    type V = JsonView;

    open spec fn view(&self) -> JsonView {
        json_view(*self)
    }
}

pub open spec fn json_view(json: Json) -> JsonView
    decreases json,
{
    match json {
        Json::Null => JsonView::Null,
        Json::Bool(b) => JsonView::Bool(b),
        Json::Unsigned(n) => JsonView::Integer(n as int),
        Json::Signed(n) => JsonView::Integer(n as int),
        Json::Other(n) => JsonView::Other(n),
        Json::Text(s) => JsonView::Text(s@),
        Json::Array(items) => JsonView::Array(items_view(items@)),
        Json::Object(fields) => JsonView::Object(fields_view(fields@)),
    }
}

pub open spec fn items_view(items: Seq<Json>) -> Seq<JsonView>
    decreases items,
{
    if items.len() == 0 {
        Seq::empty()
    } else {
        items_view(items.drop_last()).push(json_view(items.last()))
    }
}

pub open spec fn fields_view(fields: Seq<(String, Json)>) -> Map<Seq<char>, JsonView>
    decreases fields,
{
    if fields.len() == 0 {
        Map::empty()
    } else {
        fields_view(fields.drop_last()).insert(fields.last().0@, json_view(fields.last().1))
    }
}

pub proof fn lemma_items_view(items: Seq<Json>)
    ensures
        items_view(items).len() == items.len(),
        forall|i: int| 0 <= i < items.len() ==> #[trigger] items_view(items)[i] == items[i]@,
    decreases items.len(),
{
    if items.len() > 0 {
        lemma_items_view(items.drop_last());
        assert forall|i: int| 0 <= i < items.len() implies #[trigger] items_view(items)[i]
            == items[i]@ by {
            if i < items.len() - 1 {
                assert(items_view(items.drop_last())[i] == items.drop_last()[i]@);
            }
        }
    }
}

impl Json {
    /// The value of a key, where this is an object that has the key.
    pub fn get(&self, key: &str) -> (r: Option<&Json>)
        ensures
            match r {
                Some(value) => self@.get(key@) == Some(value@),
                None => self@.get(key@) is None,
            },
    {
        match self {
            Json::Object(fields) => {
                let mut found: Option<&Json> = None;
                let mut i: usize = 0;
                assert(fields@.take(0) =~= Seq::empty());
                while i < fields.len()
                    invariant
                        i <= fields@.len(),
                        match found {
                            Some(value) => {
                                &&& fields_view(fields@.take(i as int)).contains_key(key@)
                                &&& fields_view(fields@.take(i as int))[key@] == value@
                            },
                            None => !fields_view(fields@.take(i as int)).contains_key(key@),
                        },
                    decreases fields@.len() - i,
                {
                    assert(fields@.take(i + 1).drop_last() =~= fields@.take(i as int));
                    if text::same(fields[i].0.as_str(), key) {
                        found = Some(&fields[i].1);
                    }
                    i += 1;
                }
                assert(fields@.take(i as int) =~= fields@);
                found
            },
            _ => None,
        }
    }

    /// The items, where this is an array.
    pub fn as_array(&self) -> (r: Option<&Vec<Json>>)
        ensures
            match r {
                Some(items) => self@ == JsonView::Array(items_view(items@)),
                None => self@.items() is None,
            },
    {
        match self {
            Json::Array(items) => Some(items),
            _ => None,
        }
    }

    /// The item at a position, where this is an array that is long enough.
    pub fn at(&self, index: usize) -> (r: Option<&Json>)
        ensures
            match r {
                Some(item) => self@.at(index as int) == Some(item@),
                None => self@.at(index as int) is None,
            },
    {
        match self {
            Json::Array(items) => {
                proof {
                    lemma_items_view(items@);
                }
                if index < items.len() {
                    Some(&items[index])
                } else {
                    None
                }
            },
            _ => None,
        }
    }

    /// The characters, where this is a text.
    pub fn as_text(&self) -> (r: Option<&str>)
        ensures
            match r {
                Some(text) => self@.text() == Some(text@),
                None => self@.text() is None,
            },
    {
        match self {
            Json::Text(text) => Some(text.as_str()),
            _ => None,
        }
    }

    /// The text at a position of an array.
    pub fn text_at(&self, index: usize) -> (r: Option<&str>)
        ensures
            match r {
                Some(text) => self@.text_at(index as int) == Some(text@),
                None => self@.text_at(index as int) is None,
            },
    {
        match self.at(index) {
            Some(item) => item.as_text(),
            None => None,
        }
    }
}

proof fn lemma_without_field(fields: Seq<(String, Json)>, i: int)
    requires
        0 <= i < fields.len(),
    ensures
        fields_view(fields.remove(i)).remove(fields[i].0@) == fields_view(fields).remove(
            fields[i].0@,
        ),
    decreases fields.len(),
{
    let key = fields[i].0@;
    let front = fields.drop_last();
    if i == fields.len() - 1 {
        assert(fields.remove(i) =~= front);
        assert(fields_view(fields).remove(key) =~= fields_view(front).remove(key));
    } else {
        lemma_without_field(front, i);
        let last = fields.last();
        assert(front[i] == fields[i]);
        assert(fields.remove(i).drop_last() =~= front.remove(i));
        assert(fields.remove(i).last() == last);
        let less = fields_view(front.remove(i));
        let all = fields_view(front);
        assert(fields_view(fields.remove(i)) == less.insert(last.0@, last.1@));
        assert(fields_view(fields) == all.insert(last.0@, last.1@));
        if last.0@ == key {
            assert(less.insert(last.0@, last.1@).remove(key) =~= less.remove(key));
            assert(all.insert(last.0@, last.1@).remove(key) =~= all.remove(key));
        } else {
            assert(less.insert(last.0@, last.1@).remove(key) =~= less.remove(key).insert(
                last.0@,
                last.1@,
            ));
            assert(all.insert(last.0@, last.1@).remove(key) =~= all.remove(key).insert(
                last.0@,
                last.1@,
            ));
        }
    }
}

/// Takes the value of a key out of an object's fields; `None` where there is none. The other fields
/// stay.
pub fn take_field(fields: &mut Vec<(String, Json)>, key: &str) -> (r: Option<Json>)
    ensures
        match r {
            Some(value) => fields_view(old(fields)@).contains_key(key@) && fields_view(
                old(fields)@,
            )[key@] == value@,
            None => !fields_view(old(fields)@).contains_key(key@),
        },
        fields_view(final(fields)@).remove(key@) == fields_view(old(fields)@).remove(key@),
{
    let ghost all = fields@;
    let mut i: usize = fields.len();
    assert(all.take(i as int) =~= all);
    while i > 0
        invariant
            i <= all.len(),
            fields@ == all,
            all == old(fields)@,
            fields_view(all).contains_key(key@) == fields_view(all.take(i as int)).contains_key(
                key@,
            ),
            fields_view(all).contains_key(key@) ==> fields_view(all)[key@] == fields_view(
                all.take(i as int),
            )[key@],
        decreases i,
    {
        assert(all.take(i as int).drop_last() =~= all.take(i - 1));
        assert(all.take(i as int).last() == all[i - 1]);
        i -= 1;
        if text::same(fields[i].0.as_str(), key) {
            proof {
                lemma_without_field(all, i as int);
            }
            let (_, value) = fields.remove(i);
            return Some(value);
        }
    }
    None
}

/// Gives a key of an object's fields a value.
pub fn set_field(fields: &mut Vec<(String, Json)>, key: &str, value: Json)
    ensures
        fields_view(final(fields)@) == fields_view(old(fields)@).insert(key@, value@),
{
    let ghost before = fields@;
    fields.push((key.to_owned(), value));
    assert(fields@.drop_last() =~= before);
}

/// What a `serde_json::Value` holds.
pub uninterp spec fn value_json(value: serde_json::Value) -> JsonView;

/// The document that `serde_json::from_str` reads in a text; `None` where the text is not JSON.
pub uninterp spec fn json_in_text(text: Seq<char>) -> Option<JsonView>;

/// The document that `serde_json::from_slice` reads in bytes; `None` where they are not JSON.
pub uninterp spec fn json_in_bytes(bytes: Seq<u8>) -> Option<JsonView>;

/// The compact text that `serde_json::Value` displays for a document.
pub uninterp spec fn json_text(json: JsonView) -> Seq<char>;

/// The bytes that `serde_json::to_vec` writes for a document.
pub uninterp spec fn json_bytes(json: JsonView) -> Seq<u8>;

/// One level of a `serde_json::Value`, borrowed from it.
enum Shape<'a> {
    Null,
    Bool(bool),
    Unsigned(u64),
    Signed(i64),
    Other(OtherNumber),
    Text(&'a String),
    Array(&'a Vec<serde_json::Value>),
    Object(Vec<(&'a String, &'a serde_json::Value)>),
}

/// One level of a `serde_json::Value` that is to be put together.
enum Parts<'a> {
    Null,
    Bool(bool),
    Unsigned(u64),
    Signed(i64),
    Other(&'a OtherNumber),
    Text(&'a String),
    Array(Vec<serde_json::Value>),
    Object(Vec<(String, serde_json::Value)>),
}

spec fn values_json(values: Seq<serde_json::Value>) -> Seq<JsonView> {
    values.map_values(|value: serde_json::Value| value_json(value))
}

spec fn borrowed_json(fields: Seq<(&String, &serde_json::Value)>) -> Map<Seq<char>, JsonView>
    decreases fields.len(),
{
    if fields.len() == 0 {
        Map::empty()
    } else {
        borrowed_json(fields.drop_last()).insert(fields.last().0@, value_json(*fields.last().1))
    }
}

spec fn owned_json(fields: Seq<(String, serde_json::Value)>) -> Map<Seq<char>, JsonView>
    decreases fields.len(),
{
    if fields.len() == 0 {
        Map::empty()
    } else {
        owned_json(fields.drop_last()).insert(fields.last().0@, value_json(fields.last().1))
    }
}

spec fn shape_json(shape: Shape<'_>) -> JsonView {
    match shape {
        Shape::Null => JsonView::Null,
        Shape::Bool(b) => JsonView::Bool(b),
        Shape::Unsigned(n) => JsonView::Integer(n as int),
        Shape::Signed(n) => JsonView::Integer(n as int),
        Shape::Other(n) => JsonView::Other(n),
        Shape::Text(s) => JsonView::Text(s@),
        Shape::Array(items) => JsonView::Array(values_json(items@)),
        Shape::Object(fields) => JsonView::Object(borrowed_json(fields@)),
    }
}

spec fn distinct_keys(shape: Shape<'_>) -> bool {
    match shape {
        Shape::Object(fields) => all_distinct(fields@),
        _ => true,
    }
}

spec fn all_distinct(fields: Seq<(&String, &serde_json::Value)>) -> bool {
    forall|i: int, j: int|
        0 <= i < j < fields.len() ==> (#[trigger] fields[i]).0@ != (#[trigger] fields[j]).0@
}

spec fn parts_json(parts: Parts<'_>) -> JsonView {
    match parts {
        Parts::Null => JsonView::Null,
        Parts::Bool(b) => JsonView::Bool(b),
        Parts::Unsigned(n) => JsonView::Integer(n as int),
        Parts::Signed(n) => JsonView::Integer(n as int),
        Parts::Other(n) => JsonView::Other(*n),
        Parts::Text(s) => JsonView::Text(s@),
        Parts::Array(items) => JsonView::Array(values_json(items@)),
        Parts::Object(fields) => JsonView::Object(owned_json(fields@)),
    }
}

proof fn lemma_borrowed_field(fields: Seq<(&String, &serde_json::Value)>, i: int)
    requires
        0 <= i < fields.len(),
        all_distinct(fields),
    ensures
        borrowed_json(fields).dom().finite(),
        borrowed_json(fields).contains_key(fields[i].0@),
        borrowed_json(fields)[fields[i].0@] == value_json(*fields[i].1),
    decreases fields.len(),
{
    let front = fields.drop_last();
    if front.len() == 0 {
        assert(borrowed_json(front) == Map::<Seq<char>, JsonView>::empty());
    } else if i < front.len() {
        lemma_borrowed_field(front, i);
        assert(front[i] == fields[i]);
        assert(fields[i].0@ != fields[fields.len() - 1].0@);
    } else {
        lemma_borrowed_field(front, 0);
    }
}

proof fn lemma_item_is_smaller(json: JsonView, i: int)
    requires
        json is Array,
        0 <= i < json->Array_0.len(),
    ensures
        decreases_to!(json => json->Array_0[i]),
{
    let items = json->Array_0;
    assert(decreases_to!(json => items));
    assert(decreases_to!(items => items[i]));
}

proof fn lemma_field_is_smaller(json: JsonView, key: Seq<char>)
    requires
        json is Object,
        json->Object_0.dom().finite(),
        json->Object_0.contains_key(key),
    ensures
        decreases_to!(json => json->Object_0[key]),
{
    let fields = json->Object_0;
    assert(decreases_to!(json => fields));
    assert(decreases_to!(fields => fields[key]));
}

/// Takes one level of a `serde_json::Value` apart.
///
/// The variant of the value becomes the variant of the shape. Of a number, `Number::as_u64` gives
/// the integer where it is one of 64 bits without a sign, and `Number::as_i64` where it is one with a
/// sign; any other number is kept as it is. An object's map hands out each of its entries once, and
/// no two entries have one key.
#[verifier::external_body]
fn take_apart(value: &serde_json::Value) -> (r: Shape<'_>)
    ensures
        shape_json(r) == value_json(*value),
        distinct_keys(r),
{
    match value {
        serde_json::Value::Null => Shape::Null,
        serde_json::Value::Bool(b) => Shape::Bool(*b),
        serde_json::Value::Number(n) => match (n.as_u64(), n.as_i64()) {
            (Some(integer), _) => Shape::Unsigned(integer),
            (None, Some(integer)) => Shape::Signed(integer),
            (None, None) => Shape::Other(OtherNumber { number: n.clone() }),
        },
        serde_json::Value::String(s) => Shape::Text(s),
        serde_json::Value::Array(items) => Shape::Array(items),
        serde_json::Value::Object(fields) => Shape::Object(fields.iter().collect()),
    }
}

/// Puts a `serde_json::Value` together from one level of it.
///
/// The variants correspond. `Number::from` holds an integer of 64 bits, with a sign or without one, as
/// that integer. A map collected from entries keeps, of those with one key, the last.
#[verifier::external_body]
fn put_together(parts: Parts<'_>) -> (r: serde_json::Value)
    ensures
        value_json(r) == parts_json(parts),
{
    match parts {
        Parts::Null => serde_json::Value::Null,
        Parts::Bool(b) => serde_json::Value::Bool(b),
        Parts::Unsigned(n) => serde_json::Value::Number(serde_json::Number::from(n)),
        Parts::Signed(n) => serde_json::Value::Number(serde_json::Number::from(n)),
        Parts::Other(n) => serde_json::Value::Number(n.number.clone()),
        Parts::Text(s) => serde_json::Value::String(s.clone()),
        Parts::Array(items) => serde_json::Value::Array(items),
        Parts::Object(fields) => serde_json::Value::Object(fields.into_iter().collect()),
    }
}

/// `serde_json::from_str` for a `Value`: whether the text is JSON, and which document it is, depends
/// on the text alone.
#[verifier::external_body]
fn read_text(text: &str) -> (r: Result<serde_json::Value, serde_json::Error>)
    ensures
        match r {
            Ok(value) => json_in_text(text@) == Some(value_json(value)),
            Err(_) => json_in_text(text@) is None,
        },
{
    serde_json::from_str::<serde_json::Value>(text)
}

/// `serde_json::from_slice` for a `Value`: whether the bytes are JSON, and which document they are,
/// depends on the bytes alone.
#[verifier::external_body]
fn read_bytes(bytes: &[u8]) -> (r: Result<serde_json::Value, serde_json::Error>)
    ensures
        match r {
            Ok(value) => json_in_bytes(bytes@) == Some(value_json(value)),
            Err(_) => json_in_bytes(bytes@) is None,
        },
{
    serde_json::from_slice::<serde_json::Value>(bytes)
}

/// `serde_json::Value::to_string`: the compact text, which depends on the document alone.
#[verifier::external_body]
fn write_text(value: &serde_json::Value) -> (r: String)
    ensures
        r@ == json_text(value_json(*value)),
{
    value.to_string()
}

/// `serde_json::to_vec` for a `Value`, which never fails: a map of a `Value` has text for its keys.
///
/// `serde_json::from_slice` reads a document back from these bytes, as long as the document is no
/// deeper than the 127 levels that the reader follows, all its numbers are integers of 64 bits, with
/// a sign or without one, and none of its objects has the key [`RAW_VALUE_KEY`]. Of other numbers
/// nothing is claimed: the reader may round a fraction. Nor is anything of objects with that key: where
/// it comes first, the reader takes its text for the document.
#[verifier::external_body]
fn write_bytes(value: &serde_json::Value) -> (r: Result<Vec<u8>, serde_json::Error>)
    ensures
        r is Ok,
        r->Ok_0@ == json_bytes(value_json(*value)),
        reads_back(value_json(*value), 127) ==> json_in_bytes(r->Ok_0@) == Some(
            value_json(*value),
        ),
{
    serde_json::to_vec(value)
}

/// The key by which `serde_json` marks an object that stands for the text of a document.
pub const RAW_VALUE_KEY: &'static str = "$serde_json::private::RawValue";

pub proof fn lemma_raw_value_key()
    ensures
        RAW_VALUE_KEY@.len() == 30,
{
    reveal_strlit("$serde_json::private::RawValue");
}

/// A document of at most `depth` nested arrays and objects whose numbers are all integers of 64
/// bits, with a sign or without one, and none of whose objects has the key [`RAW_VALUE_KEY`].
pub open spec fn reads_back(json: JsonView, depth: nat) -> bool
    decreases depth,
{
    match json {
        JsonView::Integer(n) => i64::MIN <= n <= u64::MAX,
        JsonView::Other(_) => false,
        JsonView::Array(items) => depth > 0 && forall|i: int|
            0 <= i < items.len() ==> reads_back(#[trigger] items[i], (depth - 1) as nat),
        JsonView::Object(fields) => depth > 0 && !fields.contains_key(RAW_VALUE_KEY@) && forall|
            key: Seq<char>,
        |
            fields.contains_key(key) ==> reads_back(#[trigger] fields[key], (depth - 1) as nat),
        _ => true,
    }
}

impl Json {
    /// The document that a `serde_json::Value` holds.
    pub(crate) fn from_value(value: &serde_json::Value) -> (r: Json)
        ensures
            r@ == value_json(*value),
        decreases value_json(*value),
    {
        match take_apart(value) {
            Shape::Null => Json::Null,
            Shape::Bool(b) => Json::Bool(b),
            Shape::Unsigned(n) => Json::Unsigned(n),
            Shape::Signed(n) => Json::Signed(n),
            Shape::Other(n) => Json::Other(n),
            Shape::Text(s) => Json::Text(s.clone()),
            Shape::Array(values) => {
                let mut items: Vec<Json> = Vec::new();
                let mut i: usize = 0;
                while i < values.len()
                    invariant
                        i <= values@.len(),
                        value_json(*value) == JsonView::Array(values_json(values@)),
                        items@.len() == i,
                        forall|j: int| 0 <= j < i ==> #[trigger] items@[j]@ == value_json(values@[j]),
                    decreases values@.len() - i,
                {
                    let ghost models = values_json(values@);
                    assert(models[i as int] == value_json(values@[i as int]));
                    proof {
                        lemma_item_is_smaller(value_json(*value), i as int);
                    }
                    let item = Json::from_value(&values[i]);
                    items.push(item);
                    i += 1;
                }
                proof {
                    lemma_items_view(items@);
                    assert(items_view(items@) =~= values_json(values@));
                }
                Json::Array(items)
            },
            Shape::Object(entries) => {
                let mut fields: Vec<(String, Json)> = Vec::new();
                let mut i: usize = 0;
                assert(entries@.take(0) =~= Seq::empty());
                while i < entries.len()
                    invariant
                        i <= entries@.len(),
                        value_json(*value) == JsonView::Object(borrowed_json(entries@)),
                        all_distinct(entries@),
                        fields@.len() == i,
                        fields_view(fields@) == borrowed_json(entries@.take(i as int)),
                    decreases entries@.len() - i,
                {
                    assert(entries@.take(i + 1).drop_last() =~= entries@.take(i as int));
                    let ghost earlier = fields@;
                    proof {
                        lemma_borrowed_field(entries@, i as int);
                        lemma_field_is_smaller(value_json(*value), entries@[i as int].0@);
                    }
                    let field = Json::from_value(entries[i].1);
                    fields.push((entries[i].0.clone(), field));
                    assert(fields@.drop_last() =~= earlier);
                    i += 1;
                }
                assert(entries@.take(i as int) =~= entries@);
                Json::Object(fields)
            },
        }
    }
}

impl Json {
    /// The `serde_json::Value` that holds this document.
    pub(crate) fn to_value(&self) -> (r: serde_json::Value)
        ensures
            value_json(r) == self@,
        decreases *self,
    {
        match self {
            Json::Null => put_together(Parts::Null),
            Json::Bool(b) => put_together(Parts::Bool(*b)),
            Json::Unsigned(n) => put_together(Parts::Unsigned(*n)),
            Json::Signed(n) => put_together(Parts::Signed(*n)),
            Json::Other(n) => put_together(Parts::Other(n)),
            Json::Text(s) => put_together(Parts::Text(s)),
            Json::Array(items) => {
                let mut values: Vec<serde_json::Value> = Vec::new();
                let mut i: usize = 0;
                while i < items.len()
                    invariant
                        i <= items@.len(),
                        *self == Json::Array(*items),
                        values@.len() == i,
                        forall|j: int|
                            0 <= j < i ==> value_json(#[trigger] values@[j]) == items@[j]@,
                    decreases items@.len() - i,
                {
                    assert(decreases_to!(*self => self->Array_0));
                    assert(decreases_to!(*items => items@));
                    assert(decreases_to!(items@ => items@[i as int]));
                    let value = items[i].to_value();
                    values.push(value);
                    i += 1;
                }
                proof {
                    lemma_items_view(items@);
                    assert(values_json(values@) =~= items_view(items@));
                }
                put_together(Parts::Array(values))
            },
            Json::Object(fields) => {
                let mut entries: Vec<(String, serde_json::Value)> = Vec::new();
                let mut i: usize = 0;
                assert(fields@.take(0) =~= Seq::empty());
                while i < fields.len()
                    invariant
                        i <= fields@.len(),
                        *self == Json::Object(*fields),
                        owned_json(entries@) == fields_view(fields@.take(i as int)),
                    decreases fields@.len() - i,
                {
                    assert(fields@.take(i + 1).drop_last() =~= fields@.take(i as int));
                    let ghost earlier = entries@;
                    assert(decreases_to!(*self => self->Object_0));
                    assert(decreases_to!(*fields => fields@));
                    assert(decreases_to!(fields@ => fields@[i as int]));
                    assert(decreases_to!(fields@[i as int] => fields@[i as int].1));
                    let value = fields[i].1.to_value();
                    entries.push((fields[i].0.clone(), value));
                    assert(entries@.drop_last() =~= earlier);
                    i += 1;
                }
                assert(fields@.take(i as int) =~= fields@);
                put_together(Parts::Object(entries))
            },
        }
    }

    /// The document in a text; `None` where the text is not JSON.
    pub fn parse_text(text: &str) -> (r: Option<Json>)
        ensures
            match r {
                Some(json) => json_in_text(text@) == Some(json@),
                None => json_in_text(text@) is None,
            },
    {
        match read_text(text) {
            Ok(value) => Some(Json::from_value(&value)),
            Err(_) => None,
        }
    }

    /// The document in bytes; `None` where they are not JSON.
    pub fn parse_bytes(bytes: &[u8]) -> (r: Option<Json>)
        ensures
            match r {
                Some(json) => json_in_bytes(bytes@) == Some(json@),
                None => json_in_bytes(bytes@) is None,
            },
    {
        match read_bytes(bytes) {
            Ok(value) => Some(Json::from_value(&value)),
            Err(_) => None,
        }
    }

    /// The compact text of this document.
    pub fn to_text(&self) -> (r: String)
        ensures
            r@ == json_text(self@),
    {
        write_text(&self.to_value())
    }

    /// The bytes of this document, which [`Json::parse_bytes`] reads back unless the document is
    /// deeper than it follows, has a number that is not an integer of 64 bits, or has an object with
    /// the key [`RAW_VALUE_KEY`].
    pub fn to_bytes(&self) -> (r: Vec<u8>)
        ensures
            r@ == json_bytes(self@),
            reads_back(self@, 127) ==> json_in_bytes(r@) == Some(self@),
    {
        write_bytes(&self.to_value()).unwrap()
    }
}

/// An object gives the value of a key that it has, and an array the item at a position that it has,
/// and, where that is a text, its characters. Nothing else gives anything.
pub proof fn law_parts_of_a_document(
    json: JsonView,
    key: Seq<char>,
    index: int,
    value: JsonView,
    characters: Seq<char>,
    items: Seq<JsonView>,
)
    ensures
        json.get(key) == Some(value) <==> json is Object && json->Object_0.contains_key(key)
            && json->Object_0[key] == value,
        json.at(index) == Some(value) <==> json is Array && 0 <= index < json->Array_0.len()
            && json->Array_0[index] == value,
        json.text_at(index) == Some(characters) <==> json is Array && 0 <= index
            < json->Array_0.len() && json->Array_0[index] == JsonView::Text(characters),
        json.text() == Some(characters) <==> json == JsonView::Text(characters),
        json.items() == Some(items) <==> json == JsonView::Array(items),
{
}

} // verus!
