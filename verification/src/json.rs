//! The JSON that crosses the library's border, read and written by
//! `serde_json`. Nothing in this file is proved: each contract says what the
//! outside function does, and the rest of the library builds on it.

use crate::text::{decimal, lex_lt};
use vstd::prelude::*;
use zed_extension_api::serde_json::Value;

verus! {

/// A JSON value as `serde_json` holds it. Its inside is not looked into: see
/// [`text_members`] and [`unsigned_members`].
#[verifier::external_type_specification]
#[verifier::external_body]
pub struct ExJsonValue(Value);

/// What `serde_json::from_str` makes of a text: the members that
/// [`text_members`] and [`unsigned_members`] find in the value it returns,
/// or the message of the error it returns.
pub uninterp spec fn parsed_document(text: Seq<char>) -> Result<
    (Map<Seq<char>, Seq<char>>, Map<Seq<char>, u64>),
    Seq<char>,
>;

/// The members of a JSON object whose value is a string, by key. A value
/// that is no object has none.
pub uninterp spec fn text_members(value: Value) -> Map<Seq<char>, Seq<char>>;

/// The members of a JSON object whose value is a number from 0 to
/// 2<sup>64</sup> - 1 that is written without fraction and exponent, by key.
/// A value that is no object has none.
pub uninterp spec fn unsigned_members(value: Value) -> Map<Seq<char>, u64>;

/// A character that `serde_json` writes into a JSON string as it is: a
/// printable ASCII character other than the quotation mark and the
/// backslash.
pub open spec fn is_plain(c: char) -> bool {
    ' ' <= c <= '~' && c != '"' && c != '\\'
}

/// A text made of plain characters only.
pub open spec fn is_plain_text(s: Seq<char>) -> bool {
    forall|i: int| 0 <= i < s.len() ==> is_plain(#[trigger] s[i])
}

/// The compact writing of the JSON object with no member.
pub open spec fn empty_object_text() -> Seq<char> {
    seq!['{', '}']
}

/// The compact writing of the JSON object whose one member is the number
/// `n` under `key`.
pub open spec fn number_object_text(key: Seq<char>, n: nat) -> Seq<char> {
    seq!['{', '"'] + key + seq!['"', ':'] + decimal(n) + seq!['}']
}

/// The compact writing of the JSON object with two members: first the
/// string `text` under `text_key`, then the number `n` under `number_key`.
pub open spec fn text_number_object_text(
    text_key: Seq<char>,
    text: Seq<char>,
    number_key: Seq<char>,
    n: nat,
) -> Seq<char> {
    seq!['{', '"'] + text_key + seq!['"', ':', '"'] + text + seq!['"', ',', '"'] + number_key
        + seq!['"', ':'] + decimal(n) + seq!['}']
}

/// `serde_json::from_str` at the type `Value`, with the error turned into
/// its message. The same text always gives the same outcome, which
/// [`parsed_document`] names; nothing more is claimed of it.
#[verifier::external_body]
pub(crate) fn parse_document(text: &str) -> (r: Result<Value, String>)
    ensures
        match r {
            Ok(value) => parsed_document(text@) == Ok::<
                (Map<Seq<char>, Seq<char>>, Map<Seq<char>, u64>),
                Seq<char>,
            >((text_members(value), unsigned_members(value))),
            Err(reason) => parsed_document(text@) == Err::<
                (Map<Seq<char>, Seq<char>>, Map<Seq<char>, u64>),
                Seq<char>,
            >(reason@),
        },
{
    zed_extension_api::serde_json::from_str::<Value>(text).map_err(|error| error.to_string())
}

/// `Value::get` with a string key, followed by `Value::as_str`: the string
/// under `key`, where `value` is an object that has a member `key` whose
/// value is a string, and nothing otherwise.
#[verifier::external_body]
pub(crate) fn text_member(value: &Value, key: &str) -> (r: Option<String>)
    ensures
        match r {
            Some(text) => text_members(*value).contains_key(key@) && text_members(*value)[key@]
                == text@,
            None => !text_members(*value).contains_key(key@),
        },
{
    value.get(key).and_then(|member| member.as_str()).map(|text| text.to_string())
}

/// `Value::get` with a string key, followed by `Value::as_u64`: the number
/// under `key`, where `value` is an object that has a member `key` whose
/// value is a number from 0 to 2<sup>64</sup> - 1 written without fraction
/// and exponent, and nothing otherwise.
#[verifier::external_body]
pub(crate) fn unsigned_member(value: &Value, key: &str) -> (r: Option<u64>)
    ensures
        match r {
            Some(n) => unsigned_members(*value).contains_key(key@) && unsigned_members(
                *value,
            )[key@] == n,
            None => !unsigned_members(*value).contains_key(key@),
        },
{
    value.get(key).and_then(|member| member.as_u64())
}

/// `Value::to_string` on an object without members: `{}`.
#[verifier::external_body]
pub(crate) fn empty_object() -> (r: String)
    ensures
        r@ == empty_object_text(),
{
    Value::Object(zed_extension_api::serde_json::Map::new()).to_string()
}

/// `Value::to_string` on an object with one member, a number. The writing
/// is compact: no blanks, the key in quotation marks, the number in decimal.
/// The key is written as it is because it is plain.
#[verifier::external_body]
pub(crate) fn number_object(key: &str, n: u64) -> (r: String)
    requires
        is_plain_text(key@),
    ensures
        r@ == number_object_text(key@, n as nat),
{
    let mut members = zed_extension_api::serde_json::Map::new();
    members.insert(key.to_string(), Value::from(n));
    Value::Object(members).to_string()
}

/// `Value::to_string` on an object with two members, a string and a number.
/// The writing is compact, and the member with the string comes first: an
/// object is written in the order of its keys, and `text_key` is the lesser.
/// Keys and string are written as they are because they are plain.
#[verifier::external_body]
pub(crate) fn text_number_object(text_key: &str, text: &str, number_key: &str, n: u64) -> (r:
    String)
    requires
        is_plain_text(text_key@),
        is_plain_text(text@),
        is_plain_text(number_key@),
        lex_lt(text_key@, number_key@),
    ensures
        r@ == text_number_object_text(text_key@, text@, number_key@, n as nat),
{
    let mut members = zed_extension_api::serde_json::Map::new();
    members.insert(text_key.to_string(), Value::from(text));
    members.insert(number_key.to_string(), Value::from(n));
    Value::Object(members).to_string()
}

} // verus!
