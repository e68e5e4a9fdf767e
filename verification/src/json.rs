//! JSON documents and the records read from them.
//!
//! The JSON text is read by `serde_json`; what this module adds is the
//! reading of records out of the values it hands back. A value of
//! `serde_json` is opaque here: the specifications speak of what it holds,
//! [`Json`], and the executable code reaches into it through a handful of
//! `serde_json`'s own accessors.

use vstd::prelude::*;
use crate::outcome::{parsed_view, ParseError, ParseErrorView};

verus! {

/// What a JSON value holds, as far as records read it. A number is kept by
/// its value where it is an integer from 0 to 2^64 - 1, and as nothing
/// where it is negative or has a fraction or an exponent.
pub enum Json {
    Null,
    Bool(bool),
    Number(Option<u64>),
    Text(Seq<char>),
    List(Seq<Json>),
    Object(Map<Seq<char>, Json>),
}

/// `serde_json::Value`, a JSON value, is carried through as it is; nothing
/// is known of what is inside but through the names and accessors below.
#[verifier::external_type_specification]
#[verifier::external_body]
pub struct ExValue(serde_json::Value);

/// What `serde_json` reads from `text`: the value of the document, or the
/// message of its error where `text` is not one JSON document.
pub uninterp spec fn json_document(text: Seq<char>) -> Result<Json, Seq<char>>;

/// What a value of `serde_json` holds.
pub uninterp spec fn json_value(value: serde_json::Value) -> Json;

/// Calls `serde_json::from_str` for a `serde_json::Value`, and turns its
/// error into the error's message. Trusted: that value and message are a
/// function of the text alone, which is what the name `json_document`
/// stands for.
#[verifier::external_body]
pub(crate) fn parse_json(text: &str) -> (document: Result<serde_json::Value, String>)
    ensures
        match document {
            Ok(value) => json_document(text@) == Ok::<Json, Seq<char>>(json_value(value)),
            Err(reason) => json_document(text@) == Err::<Json, Seq<char>>(reason@),
        },
{
    serde_json::from_str::<serde_json::Value>(text).map_err(|e| e.to_string())
}

/// The member of an object under `key`; none where `json` is no object or
/// has no such member.
pub open spec fn member_of(json: Json, key: Seq<char>) -> Option<Json> {
    match json {
        Json::Object(members) => if members.dom().contains(key) {
            Some(members[key])
        } else {
            None
        },
        _ => None,
    }
}

/// Calls `serde_json::Value::get` with a string key. Trusted: it hands out
/// the member under that key where the value is an object that has one, and
/// nothing otherwise.
#[verifier::external_body]
fn json_member<'a>(value: &'a serde_json::Value, key: &str) -> (member: Option<
    &'a serde_json::Value,
>)
    ensures
        match member {
            Some(m) => member_of(json_value(*value), key@) == Some(json_value(*m)),
            None => member_of(json_value(*value), key@) is None,
        },
{
    value.get(key)
}

/// `serde_json::Value::as_array` hands out the items of a list, and nothing
/// for any other value.
pub assume_specification<'a>[ serde_json::Value::as_array ](value: &'a serde_json::Value) -> (items:
    Option<&'a Vec<serde_json::Value>>)
    ensures
        match items {
            Some(v) => json_value(*value) == Json::List(
                Seq::new(v@.len(), |i: int| json_value(v@[i])),
            ),
            None => !(json_value(*value) is List),
        },
;

/// `serde_json::Value::as_str` hands out the text of a string, and nothing
/// for any other value.
pub assume_specification<'a>[ serde_json::Value::as_str ](value: &'a serde_json::Value) -> (text:
    Option<&'a str>)
    ensures
        match text {
            Some(t) => json_value(*value) == Json::Text(t@),
            None => !(json_value(*value) is Text),
        },
;

/// `serde_json::Value::as_u64` hands out a number that is an integer from 0
/// to 2^64 - 1, and nothing for any other number or value.
pub assume_specification[ serde_json::Value::as_u64 ](value: &serde_json::Value) -> (number:
    Option<u64>)
    ensures
        number == match json_value(*value) {
            Json::Number(n) => n,
            _ => None,
        },
;

/// `serde_json::Value::as_bool` hands out a boolean, and nothing for any
/// other value.
pub assume_specification[ serde_json::Value::as_bool ](value: &serde_json::Value) -> (truth:
    Option<bool>)
    ensures
        truth == match json_value(*value) {
            Json::Bool(b) => Some(b),
            _ => None,
        },
;

/// `serde_json::Value::is_null` tells whether the value is `null`.
pub assume_specification[ serde_json::Value::is_null ](value: &serde_json::Value) -> (null: bool)
    ensures
        null == (json_value(*value) is Null),
;

/// The text under `key`: the member must be there and be a string.
pub open spec fn text_member(json: Json, key: Seq<char>) -> Option<Seq<char>> {
    match member_of(json, key) {
        Some(Json::Text(text)) => Some(text),
        _ => None,
    }
}

/// The text under `key` where the member may be missing or `null`: no text
/// then; a member of another kind than string is an error, which is the
/// outer `None`.
pub open spec fn optional_text_member(json: Json, key: Seq<char>) -> Option<Option<Seq<char>>> {
    match member_of(json, key) {
        None => Some(None),
        Some(Json::Null) => Some(None),
        Some(Json::Text(text)) => Some(Some(text)),
        _ => None,
    }
}

/// The number under `key`: the member must be there and be an integer from
/// 0 to `max`.
pub open spec fn number_member(json: Json, key: Seq<char>, max: u64) -> Option<u64> {
    match member_of(json, key) {
        Some(Json::Number(Some(n))) => if n <= max {
            Some(n)
        } else {
            None
        },
        _ => None,
    }
}

/// The number under `key` where the member may be missing or `null`; see
/// [`optional_text_member`] and [`number_member`].
pub open spec fn optional_number_member(json: Json, key: Seq<char>, max: u64) -> Option<
    Option<u64>,
> {
    match member_of(json, key) {
        None => Some(None),
        Some(Json::Null) => Some(None),
        Some(Json::Number(Some(n))) => if n <= max {
            Some(Some(n))
        } else {
            None
        },
        _ => None,
    }
}

/// The boolean under `key` where the member may be missing or `null`; see
/// [`optional_text_member`].
pub open spec fn optional_bool_member(json: Json, key: Seq<char>) -> Option<Option<bool>> {
    match member_of(json, key) {
        None => Some(None),
        Some(Json::Null) => Some(None),
        Some(Json::Bool(b)) => Some(Some(b)),
        _ => None,
    }
}

/// Whether every item is a string.
pub open spec fn all_text(items: Seq<Json>) -> bool {
    forall|i: int| 0 <= i < items.len() ==> #[trigger] items[i] is Text
}

/// The texts of a list of strings.
pub open spec fn texts_of(items: Seq<Json>) -> Seq<Seq<char>> {
    Seq::new(items.len(), |i: int| items[i]->Text_0)
}

/// The texts under `key`: the member must be there and be a list of
/// strings.
pub open spec fn text_list_member(json: Json, key: Seq<char>) -> Option<Seq<Seq<char>>> {
    match member_of(json, key) {
        Some(Json::List(items)) => if all_text(items) {
            Some(texts_of(items))
        } else {
            None
        },
        _ => None,
    }
}

/// The items under `key`: the member must be there and be a list.
pub open spec fn list_member(json: Json, key: Seq<char>) -> Option<Seq<Json>> {
    match member_of(json, key) {
        Some(Json::List(items)) => Some(items),
        _ => None,
    }
}

/// What the values of a vector hold, in order.
pub open spec fn json_values(values: Seq<serde_json::Value>) -> Seq<Json> {
    Seq::new(values.len(), |i: int| json_value(values[i]))
}

/// Reads [`text_member`].
pub fn read_text(value: &serde_json::Value, key: &str) -> (text: Option<String>)
    ensures
        text.deep_view() == text_member(json_value(*value), key@),
{
    let member = json_member(value, key)?;
    let text = member.as_str()?;
    Some(text.to_owned())
}

/// Reads [`optional_text_member`].
pub fn read_optional_text(value: &serde_json::Value, key: &str) -> (text: Option<Option<String>>)
    ensures
        text.deep_view() == optional_text_member(json_value(*value), key@),
{
    match json_member(value, key) {
        None => Some(None),
        Some(member) => {
            if member.is_null() {
                Some(None)
            } else {
                let text = member.as_str()?;
                Some(Some(text.to_owned()))
            }
        },
    }
}

/// Reads [`number_member`].
pub fn read_number(value: &serde_json::Value, key: &str, max: u64) -> (number: Option<u64>)
    ensures
        number == number_member(json_value(*value), key@, max),
{
    let member = json_member(value, key)?;
    let number = member.as_u64()?;
    if number <= max {
        Some(number)
    } else {
        None
    }
}

/// Reads [`optional_number_member`].
pub fn read_optional_number(value: &serde_json::Value, key: &str, max: u64) -> (number: Option<
    Option<u64>,
>)
    ensures
        number == optional_number_member(json_value(*value), key@, max),
{
    match json_member(value, key) {
        None => Some(None),
        Some(member) => {
            if member.is_null() {
                Some(None)
            } else {
                let number = member.as_u64()?;
                if number <= max {
                    Some(Some(number))
                } else {
                    None
                }
            }
        },
    }
}

/// Reads [`optional_bool_member`].
pub fn read_optional_bool(value: &serde_json::Value, key: &str) -> (truth: Option<Option<bool>>)
    ensures
        truth == optional_bool_member(json_value(*value), key@),
{
    match json_member(value, key) {
        None => Some(None),
        Some(member) => {
            if member.is_null() {
                Some(None)
            } else {
                let truth = member.as_bool()?;
                Some(Some(truth))
            }
        },
    }
}

/// Reads [`text_list_member`].
pub fn read_text_list(value: &serde_json::Value, key: &str) -> (texts: Option<Vec<String>>)
    ensures
        texts.deep_view() == text_list_member(json_value(*value), key@),
{
    let member = json_member(value, key)?;
    let items = member.as_array()?;
    let ghost held = json_values(items@);
    let mut texts: Vec<String> = Vec::new();
    let mut i: usize = 0;
    while i < items.len()
        invariant
            i <= items.len(),
            held == json_values(items@),
            member_of(json_value(*value), key@) == Some(Json::List(held)),
            texts@.len() == i,
            forall|k: int| 0 <= k < i ==> #[trigger] held[k] == Json::Text(texts@[k]@),
        decreases items.len() - i,
    {
        match items[i].as_str() {
            Some(text) => {
                texts.push(text.to_owned());
            },
            None => {
                assert(!(held[i as int] is Text));
                return None;
            },
        }
        i += 1;
    }
    assert(all_text(held));
    assert(texts.deep_view() =~= texts_of(held));
    Some(texts)
}

/// Reads [`list_member`].
pub fn read_list<'a>(value: &'a serde_json::Value, key: &str) -> (items: Option<
    &'a Vec<serde_json::Value>,
>)
    ensures
        match items {
            Some(v) => list_member(json_value(*value), key@) == Some(json_values(v@)),
            None => list_member(json_value(*value), key@) is None,
        },
{
    let member = json_member(value, key)?;
    member.as_array()
}

/// A record that can be read from a JSON value.
pub trait JsonRecord: DeepView + Sized {
    /// The record that `json` holds; none where `json` has not the shape of
    /// such a record.
    spec fn shape(json: Json) -> Option<Self::V>;

    /// Reads the record out of `value`.
    fn read(value: &serde_json::Value) -> (record: Option<Self>)
        ensures
            record.deep_view() == Self::shape(json_value(*value)),
    ;
}

/// The records that the items of a list hold, in order; where an item has
/// not the shape of a record, the error that names the first such item.
pub open spec fn list_records<T: JsonRecord>(items: Seq<Json>) -> Result<Seq<T::V>, ParseErrorView>
    decreases items.len(),
{
    if items.len() == 0 {
        Ok(Seq::empty())
    } else {
        match list_records::<T>(items.drop_last()) {
            Err(error) => Err(error),
            Ok(records) => match T::shape(items.last()) {
                Some(record) => Ok(records.push(record)),
                None => Err(ParseErrorView::Record { index: (items.len() - 1) as usize }),
            },
        }
    }
}

/// Reads the records that the items of a list hold. See [`list_records`].
pub fn read_records<T: JsonRecord>(items: &Vec<serde_json::Value>) -> (records: Result<
    Vec<T>,
    ParseError,
>)
    ensures
        parsed_view(records) == list_records::<T>(json_values(items@)),
{
    let ghost held = json_values(items@);
    let mut list: Vec<T> = Vec::new();
    let mut i: usize = 0;
    assert(held.take(0) =~= Seq::<Json>::empty());
    assert(list.deep_view() =~= Seq::<T::V>::empty());
    while i < items.len()
        invariant
            i <= items.len(),
            held == json_values(items@),
            list_records::<T>(held.take(i as int)) == Ok::<Seq<T::V>, ParseErrorView>(
                list.deep_view(),
            ),
        decreases items.len() - i,
    {
        proof {
            assert(held.take(i + 1).drop_last() =~= held.take(i as int));
            assert(held.take(i + 1).last() == json_value(items@[i as int]));
        }
        match T::read(&items[i]) {
            Some(record) => {
                let ghost before = list.deep_view();
                let ghost added = record.deep_view();
                list.push(record);
                assert(list.deep_view() =~= before.push(added));
            },
            None => {
                proof {
                    lemma_list_records_error_stays::<T>(held, i + 1);
                }
                return Err(ParseError::Record { index: i });
            },
        }
        i += 1;
    }
    assert(held.take(i as int) =~= held);
    Ok(list)
}

/// An error among the first `upto` items is the error of the whole list.
pub proof fn lemma_list_records_error_stays<T: JsonRecord>(items: Seq<Json>, upto: int)
    requires
        0 <= upto <= items.len(),
        list_records::<T>(items.take(upto)) is Err,
    ensures
        list_records::<T>(items) == list_records::<T>(items.take(upto)),
    decreases items.len() - upto,
{
    if upto == items.len() {
        assert(items.take(upto) =~= items);
    } else {
        assert(items.take(upto + 1).drop_last() =~= items.take(upto));
        lemma_list_records_error_stays::<T>(items, upto + 1);
    }
}

/// The records that a JSON document holds: the document must be a list,
/// and each of its items a record. A text that is not JSON gives the
/// parser's message, as the error of line 0.
pub open spec fn record_document<T: JsonRecord>(text: Seq<char>) -> Result<
    Seq<T::V>,
    ParseErrorView,
> {
    match json_document(text) {
        Err(reason) => Err(ParseErrorView::Json { line: 0, reason }),
        Ok(Json::List(items)) => list_records::<T>(items),
        Ok(_) => Err(ParseErrorView::NotAList),
    }
}

/// Reads the records of a JSON document. See [`record_document`].
pub fn read_document<T: JsonRecord>(text: &str) -> (records: Result<Vec<T>, ParseError>)
    ensures
        parsed_view(records) == record_document::<T>(text@),
{
    match parse_json(text) {
        Err(reason) => Err(ParseError::Json { line: 0, reason }),
        Ok(value) => match value.as_array() {
            None => Err(ParseError::NotAList),
            Some(items) => read_records::<T>(items),
        },
    }
}

} // verus!
