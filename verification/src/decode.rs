//! Decoding of JSON values into strict types: numbers that the probe tool
//! writes as text, the `N/A` it writes for a value it does not have, and the
//! records of its report.

use vstd::prelude::*;
use crate::json::{Json, Number};
use crate::text::FromText;
use vstd::string::StringExecFns;

verus! {

/// What a decoder found in place of what it expected.
#[derive(Clone, Debug, PartialEq, Eq)]
pub enum Unexpected {
    Null,
    Bool(bool),
    Unsigned(u64),
    Signed(i64),
    /// A number that is not whole, by its text.
    Float(String),
    Text(String),
    Array,
    Object,
}

/// What a decoder expected.
#[derive(Clone, Copy, Debug, PartialEq, Eq, Structural)]
pub enum Expected {
    /// A text.
    Text,
    /// A whole number from 0 to 2^64 - 1.
    Unsigned64,
    /// A whole number from -2^63 to 2^63 - 1.
    Signed64,
    /// A whole number from -2^31 to 2^31 - 1.
    Signed32,
    /// A list of values.
    List,
    /// A record with named fields.
    Record,
    /// A text that stands for a value of the type asked for.
    TextNumber,
    /// The text `N/A`, or a text that stands for a value of the type asked for.
    NaOrTextNumber,
    /// The text `N/A`, or a whole number from -2^63 to 2^63 - 1.
    NaOrSigned64,
}

/// Why a value could not be decoded.
#[derive(Clone, Debug, PartialEq, Eq)]
pub enum Mismatch {
    /// The value is of another kind than expected, or a text that does not
    /// stand for a value of the type asked for.
    InvalidType { found: Unexpected, expected: Expected },
    /// The value is of the expected kind but out of range.
    InvalidValue { found: Unexpected, expected: Expected },
}

/// The text that stands for a value that the probe tool does not have.
pub open spec fn na() -> Seq<char> {
    "N/A"@
}

/// What a decoder reports to have found, for a JSON value.
pub open spec fn unexpected(json: Json) -> Unexpected {
    match json {
        Json::Null => Unexpected::Null,
        Json::Bool(b) => Unexpected::Bool(b),
        Json::Number(Number::PosInt(n)) => Unexpected::Unsigned(n),
        Json::Number(Number::NegInt(n)) => Unexpected::Signed(n),
        Json::Number(Number::Float(text)) => Unexpected::Float(text),
        Json::Text(text) => Unexpected::Text(text),
        Json::Array(_) => Unexpected::Array,
        Json::Object(_) => Unexpected::Object,
    }
}

/// What a decoder reports to have found, for a JSON value.
pub fn describe(json: &Json) -> (found: Unexpected)
    ensures
        found == unexpected(*json),
{
    match json {
        Json::Null => Unexpected::Null,
        Json::Bool(b) => Unexpected::Bool(*b),
        Json::Number(Number::PosInt(n)) => Unexpected::Unsigned(*n),
        Json::Number(Number::NegInt(n)) => Unexpected::Signed(*n),
        Json::Number(Number::Float(text)) => Unexpected::Float(text.clone()),
        Json::Text(text) => Unexpected::Text(text.clone()),
        Json::Array(_) => Unexpected::Array,
        Json::Object(_) => Unexpected::Object,
    }
}

/// The value that a JSON text stands for: any other JSON value is of the
/// wrong type, and so is a text that stands for no value of the type.
pub open spec fn from_string<T: FromText>(json: Json) -> Result<T, Mismatch> {
    match json {
        Json::Text(text) => match T::parsed(text@) {
            Some(value) => Ok(value),
            None => Err(
                Mismatch::InvalidType {
                    found: Unexpected::Text(text),
                    expected: Expected::TextNumber,
                },
            ),
        },
        _ => Err(
            Mismatch::InvalidType { found: unexpected(json), expected: Expected::TextNumber },
        ),
    }
}

/// Decodes a value that is written as a JSON text.
pub fn de_from_string<T: FromText>(json: &Json) -> (r: Result<T, Mismatch>)
    ensures
        r == from_string::<T>(*json),
{
    match json {
        Json::Text(text) => match T::from_text(text.as_str()) {
            Some(value) => Ok(value),
            None => Err(
                Mismatch::InvalidType {
                    found: Unexpected::Text(text.clone()),
                    expected: Expected::TextNumber,
                },
            ),
        },
        _ => Err(Mismatch::InvalidType { found: describe(json), expected: Expected::TextNumber }),
    }
}

/// The value that a JSON text stands for, or nothing where the text is `N/A`:
/// any other JSON value is of the wrong type, and so is a text that is not
/// `N/A` and stands for no value of the type.
pub open spec fn na_or_string<T: FromText>(json: Json) -> Result<Option<T>, Mismatch> {
    match json {
        Json::Text(text) => if text@ == na() {
            Ok(None)
        } else {
            match T::parsed(text@) {
                Some(value) => Ok(Some(value)),
                None => Err(
                    Mismatch::InvalidType {
                        found: Unexpected::Text(text),
                        expected: Expected::NaOrTextNumber,
                    },
                ),
            }
        },
        _ => Err(
            Mismatch::InvalidType { found: unexpected(json), expected: Expected::NaOrTextNumber },
        ),
    }
}

/// Whether two texts are the same.
fn same_text(a: &str, b: &str) -> (same: bool)
    ensures
        same == (a@ == b@),
{
    let left: String = a.to_owned();
    let right: String = b.to_owned();
    left == right
}

/// Decodes a value that is written as a JSON text, or as `N/A` where there is none.
pub fn na_or_from_string<T: FromText>(json: &Json) -> (r: Result<Option<T>, Mismatch>)
    ensures
        r == na_or_string::<T>(*json),
{
    match json {
        Json::Text(text) => {
            if same_text(text.as_str(), "N/A") {
                Ok(None)
            } else {
                match T::from_text(text.as_str()) {
                    Some(value) => Ok(Some(value)),
                    None => Err(
                        Mismatch::InvalidType {
                            found: Unexpected::Text(text.clone()),
                            expected: Expected::NaOrTextNumber,
                        },
                    ),
                }
            }
        },
        _ => Err(
            Mismatch::InvalidType { found: describe(json), expected: Expected::NaOrTextNumber },
        ),
    }
}

/// The whole number that a JSON number is, or nothing where the value is the
/// text `N/A`: any other JSON value is of the wrong type, and so is a number
/// that is not whole or not in the range of `i64`.
pub open spec fn na_or_number(json: Json) -> Result<Option<i64>, Mismatch> {
    match json {
        Json::Text(text) if text@ == na() => Ok(None),
        Json::Number(Number::NegInt(n)) => Ok(Some(n)),
        Json::Number(Number::PosInt(n)) if n <= i64::MAX as u64 => Ok(Some(n as i64)),
        _ => Err(
            Mismatch::InvalidType { found: unexpected(json), expected: Expected::NaOrSigned64 },
        ),
    }
}

/// Decodes a whole number, or `N/A` where there is none.
pub fn na_or_i64(json: &Json) -> (r: Result<Option<i64>, Mismatch>)
    ensures
        r == na_or_number(*json),
{
    match json {
        Json::Text(text) => {
            if same_text(text.as_str(), "N/A") {
                return Ok(None);
            }
        },
        Json::Number(Number::NegInt(n)) => {
            return Ok(Some(*n));
        },
        Json::Number(Number::PosInt(n)) => {
            if *n <= 0x7fff_ffff_ffff_ffff {
                return Ok(Some(*n as i64));
            }
        },
        _ => {},
    }
    Err(Mismatch::InvalidType { found: describe(json), expected: Expected::NaOrSigned64 })
}

/// Why a JSON document could not be decoded.
#[derive(Clone, Debug, PartialEq, Eq)]
pub enum DecodeError {
    /// The output is no JSON document. Holds the reader's message.
    Syntax(String),
    /// A record lacks a field.
    Missing { field: &'static str },
    /// A field holds a value that cannot be decoded. For a record that is
    /// itself of the wrong kind, `field` is the name of the record's type.
    Invalid { field: &'static str, mismatch: Mismatch },
}

/// What to tell the user of an output that could not be decoded: the reader's
/// message for an output that is no JSON, else the field and what is wrong
/// with it.
pub open spec fn decode_message(e: DecodeError) -> Seq<char> {
    match e {
        DecodeError::Syntax(message) => message@,
        DecodeError::Missing { field } => "missing field `"@ + field@ + "`"@,
        DecodeError::Invalid { field, mismatch: Mismatch::InvalidType { .. } } => "invalid type at `"@
            + field@ + "`"@,
        DecodeError::Invalid { field, mismatch: Mismatch::InvalidValue { .. } } => "invalid value at `"@
            + field@ + "`"@,
    }
}

impl DecodeError {
    /// What to tell the user of the error.
    pub fn message(&self) -> (text: String)
        ensures
            text@ == decode_message(*self),
    {
        match self {
            DecodeError::Syntax(message) => message.clone(),
            DecodeError::Missing { field } => {
                let mut text: String = "missing field `".to_owned();
                text.append(field);
                text.append("`");
                text
            },
            DecodeError::Invalid { field, mismatch } => {
                let mut text: String = match mismatch {
                    Mismatch::InvalidType { .. } => "invalid type at `".to_owned(),
                    Mismatch::InvalidValue { .. } => "invalid value at `".to_owned(),
                };
                text.append(field);
                text.append("`");
                text
            },
        }
    }
}

/// The value under `key` in the members of a JSON object: that of the first
/// member with this key.
pub open spec fn member_of(members: Seq<(String, Json)>, key: Seq<char>) -> Option<Json>
    decreases members.len(),
{
    if members.len() == 0 {
        None
    } else if members[0].0@ == key {
        Some(members[0].1)
    } else {
        member_of(members.drop_first(), key)
    }
}

/// Looks up the value under `key` in the members of a JSON object.
pub fn member<'a>(members: &'a Vec<(String, Json)>, key: &str) -> (r: Option<&'a Json>)
    ensures
        match r {
            Some(json) => member_of(members@, key@) == Some(*json),
            None => member_of(members@, key@) is None,
        },
{
    let wanted: String = key.to_owned();
    let mut i: usize = 0;
    assert(members@.skip(0) =~= members@);
    while i < members.len()
        invariant
            i <= members.len(),
            wanted@ == key@,
            member_of(members@, key@) == member_of(members@.skip(i as int), key@),
        decreases members.len() - i,
    {
        proof {
            assert(members@.skip(i as int).drop_first() =~= members@.skip(i as int + 1));
        }
        if members[i].0 == wanted {
            return Some(&members[i].1);
        }
        i += 1;
    }
    None
}

/// Names the field at which a value could not be decoded.
pub open spec fn at_field<T>(field: &'static str, r: Result<T, Mismatch>) -> Result<T, DecodeError> {
    match r {
        Ok(value) => Ok(value),
        Err(mismatch) => Err(DecodeError::Invalid { field, mismatch }),
    }
}

/// Names the field at which a value could not be decoded.
fn at<T>(field: &'static str, r: Result<T, Mismatch>) -> (named: Result<T, DecodeError>)
    ensures
        named == at_field(field, r),
{
    match r {
        Ok(value) => Ok(value),
        Err(mismatch) => Err(DecodeError::Invalid { field, mismatch }),
    }
}

/// The value of a field that a record must have.
pub open spec fn required(members: Seq<(String, Json)>, field: &'static str) -> Result<
    Json,
    DecodeError,
> {
    match member_of(members, field@) {
        Some(json) => Ok(json),
        None => Err(DecodeError::Missing { field }),
    }
}

/// Looks up a field that a record must have.
pub fn require<'a>(members: &'a Vec<(String, Json)>, field: &'static str) -> (r: Result<
    &'a Json,
    DecodeError,
>)
    ensures
        match r {
            Ok(json) => required(members@, field) == Ok::<Json, DecodeError>(*json),
            Err(e) => required(members@, field) == Err::<Json, DecodeError>(e),
        },
{
    match member(members, field) {
        Some(json) => Ok(json),
        None => Err(DecodeError::Missing { field }),
    }
}

/// The whole number from 0 to 2^64 - 1 that a JSON value is.
pub open spec fn as_unsigned_64(json: Json) -> Result<u64, Mismatch> {
    match json {
        Json::Number(Number::PosInt(n)) => Ok(n),
        Json::Number(Number::NegInt(n)) => Err(
            Mismatch::InvalidValue { found: Unexpected::Signed(n), expected: Expected::Unsigned64 },
        ),
        _ => Err(
            Mismatch::InvalidType { found: unexpected(json), expected: Expected::Unsigned64 },
        ),
    }
}

/// Decodes a whole number from 0 to 2^64 - 1.
pub fn unsigned_64(json: &Json) -> (r: Result<u64, Mismatch>)
    ensures
        r == as_unsigned_64(*json),
{
    match json {
        Json::Number(Number::PosInt(n)) => Ok(*n),
        Json::Number(Number::NegInt(n)) => Err(
            Mismatch::InvalidValue {
                found: Unexpected::Signed(*n),
                expected: Expected::Unsigned64,
            },
        ),
        _ => Err(Mismatch::InvalidType { found: describe(json), expected: Expected::Unsigned64 }),
    }
}

/// The whole number from -2^63 to 2^63 - 1 that a JSON value is.
pub open spec fn as_signed_64(json: Json) -> Result<i64, Mismatch> {
    match json {
        Json::Number(Number::NegInt(n)) => Ok(n),
        Json::Number(Number::PosInt(n)) => if n <= i64::MAX as u64 {
            Ok(n as i64)
        } else {
            Err(
                Mismatch::InvalidValue {
                    found: Unexpected::Unsigned(n),
                    expected: Expected::Signed64,
                },
            )
        },
        _ => Err(Mismatch::InvalidType { found: unexpected(json), expected: Expected::Signed64 }),
    }
}

/// Decodes a whole number from -2^63 to 2^63 - 1.
pub fn signed_64(json: &Json) -> (r: Result<i64, Mismatch>)
    ensures
        r == as_signed_64(*json),
{
    match json {
        Json::Number(Number::NegInt(n)) => Ok(*n),
        Json::Number(Number::PosInt(n)) => {
            if *n <= 0x7fff_ffff_ffff_ffff {
                Ok(*n as i64)
            } else {
                Err(
                    Mismatch::InvalidValue {
                        found: Unexpected::Unsigned(*n),
                        expected: Expected::Signed64,
                    },
                )
            }
        },
        _ => Err(Mismatch::InvalidType { found: describe(json), expected: Expected::Signed64 }),
    }
}

/// The whole number from -2^31 to 2^31 - 1 that a JSON value is.
pub open spec fn as_signed_32(json: Json) -> Result<i32, Mismatch> {
    match json {
        Json::Number(Number::NegInt(n)) => if i32::MIN as i64 <= n {
            Ok(n as i32)
        } else {
            Err(
                Mismatch::InvalidValue {
                    found: Unexpected::Signed(n),
                    expected: Expected::Signed32,
                },
            )
        },
        Json::Number(Number::PosInt(n)) => if n <= i32::MAX as u64 {
            Ok(n as i32)
        } else {
            Err(
                Mismatch::InvalidValue {
                    found: Unexpected::Unsigned(n),
                    expected: Expected::Signed32,
                },
            )
        },
        _ => Err(Mismatch::InvalidType { found: unexpected(json), expected: Expected::Signed32 }),
    }
}

/// Decodes a whole number from -2^31 to 2^31 - 1.
pub fn signed_32(json: &Json) -> (r: Result<i32, Mismatch>)
    ensures
        r == as_signed_32(*json),
{
    match json {
        Json::Number(Number::NegInt(n)) => {
            if -0x8000_0000 <= *n {
                Ok(*n as i32)
            } else {
                Err(
                    Mismatch::InvalidValue {
                        found: Unexpected::Signed(*n),
                        expected: Expected::Signed32,
                    },
                )
            }
        },
        Json::Number(Number::PosInt(n)) => {
            if *n <= 0x7fff_ffff {
                Ok(*n as i32)
            } else {
                Err(
                    Mismatch::InvalidValue {
                        found: Unexpected::Unsigned(*n),
                        expected: Expected::Signed32,
                    },
                )
            }
        },
        _ => Err(Mismatch::InvalidType { found: describe(json), expected: Expected::Signed32 }),
    }
}

/// The text that a JSON value is.
pub open spec fn as_text(json: Json) -> Result<String, Mismatch> {
    match json {
        Json::Text(text) => Ok(text),
        _ => Err(Mismatch::InvalidType { found: unexpected(json), expected: Expected::Text }),
    }
}

/// Decodes a text.
pub fn text(json: &Json) -> (r: Result<String, Mismatch>)
    ensures
        r == as_text(*json),
{
    match json {
        Json::Text(text) => Ok(text.clone()),
        _ => Err(Mismatch::InvalidType { found: describe(json), expected: Expected::Text }),
    }
}

/// A record that can be decoded from a JSON value.
pub trait FromJson: Sized + View {
    /// What a JSON value decodes to: the record, by its view, or why there is none.
    spec fn decoded(json: Json) -> Result<Self::V, DecodeError>;

    /// Decodes a record from a JSON value.
    fn from_json(json: &Json) -> (r: Result<Self, DecodeError>)
        ensures
            match r {
                Ok(record) => Self::decoded(*json) == Ok::<Self::V, DecodeError>(record@),
                Err(e) => Self::decoded(*json) == Err::<Self::V, DecodeError>(e),
            },
    ;
}

/// The members of a JSON value that is an object; for any other value, that a
/// record of type `name` was expected.
pub open spec fn members_of(json: Json, name: &'static str) -> Result<
    Seq<(String, Json)>,
    DecodeError,
> {
    match json {
        Json::Object(members) => Ok(members@),
        _ => Err(
            DecodeError::Invalid {
                field: name,
                mismatch: Mismatch::InvalidType {
                    found: unexpected(json),
                    expected: Expected::Record,
                },
            },
        ),
    }
}

/// The members of a JSON value that is to hold a record of type `name`.
pub fn record<'a>(json: &'a Json, name: &'static str) -> (r: Result<
    &'a Vec<(String, Json)>,
    DecodeError,
>)
    ensures
        match r {
            Ok(members) => members_of(*json, name) == Ok::<Seq<(String, Json)>, DecodeError>(
                members@,
            ),
            Err(e) => members_of(*json, name) == Err::<Seq<(String, Json)>, DecodeError>(e),
        },
{
    match json {
        Json::Object(members) => Ok(members),
        _ => Err(
            DecodeError::Invalid {
                field: name,
                mismatch: Mismatch::InvalidType {
                    found: describe(json),
                    expected: Expected::Record,
                },
            },
        ),
    }
}

/// The value of a required field, decoded by `decode`.
pub open spec fn field_of<T>(
    members: Seq<(String, Json)>,
    field: &'static str,
    decode: spec_fn(Json) -> Result<T, Mismatch>,
) -> Result<T, DecodeError> {
    match required(members, field) {
        Ok(json) => at_field(field, decode(json)),
        Err(e) => Err(e),
    }
}

/// A required field that holds a whole number from 0 to 2^64 - 1.
pub fn field_unsigned_64(members: &Vec<(String, Json)>, field: &'static str) -> (r: Result<
    u64,
    DecodeError,
>)
    ensures
        r == field_of(members@, field, |json: Json| as_unsigned_64(json)),
{
    match require(members, field) {
        Ok(json) => at(field, unsigned_64(json)),
        Err(e) => Err(e),
    }
}

/// A required field that holds a whole number from -2^63 to 2^63 - 1.
pub fn field_signed_64(members: &Vec<(String, Json)>, field: &'static str) -> (r: Result<
    i64,
    DecodeError,
>)
    ensures
        r == field_of(members@, field, |json: Json| as_signed_64(json)),
{
    match require(members, field) {
        Ok(json) => at(field, signed_64(json)),
        Err(e) => Err(e),
    }
}

/// A required field that holds a whole number from -2^31 to 2^31 - 1.
pub fn field_signed_32(members: &Vec<(String, Json)>, field: &'static str) -> (r: Result<
    i32,
    DecodeError,
>)
    ensures
        r == field_of(members@, field, |json: Json| as_signed_32(json)),
{
    match require(members, field) {
        Ok(json) => at(field, signed_32(json)),
        Err(e) => Err(e),
    }
}

/// A required field that holds a text.
pub fn field_text(members: &Vec<(String, Json)>, field: &'static str) -> (r: Result<
    String,
    DecodeError,
>)
    ensures
        r == field_of(members@, field, |json: Json| as_text(json)),
{
    match require(members, field) {
        Ok(json) => at(field, text(json)),
        Err(e) => Err(e),
    }
}

/// A required field that holds a value written as text.
pub fn field_from_string<T: FromText>(members: &Vec<(String, Json)>, field: &'static str) -> (r:
    Result<T, DecodeError>)
    ensures
        r == field_of(members@, field, |json: Json| from_string::<T>(json)),
{
    match require(members, field) {
        Ok(json) => at(field, de_from_string::<T>(json)),
        Err(e) => Err(e),
    }
}

/// A required field that holds a value written as text, or `N/A`.
pub fn field_na_or_from_string<T: FromText>(
    members: &Vec<(String, Json)>,
    field: &'static str,
) -> (r: Result<Option<T>, DecodeError>)
    ensures
        r == field_of(members@, field, |json: Json| na_or_string::<T>(json)),
{
    match require(members, field) {
        Ok(json) => at(field, na_or_from_string::<T>(json)),
        Err(e) => Err(e),
    }
}

/// The value of a section that a record may have: none where the field is
/// absent or holds `null`.
pub open spec fn section_of(members: Seq<(String, Json)>, field: &'static str) -> Option<Json> {
    match member_of(members, field@) {
        Some(Json::Null) => None,
        Some(json) => Some(json),
        None => None,
    }
}

/// Looks up a section that a record may have.
pub fn section<'a>(members: &'a Vec<(String, Json)>, field: &'static str) -> (r: Option<&'a Json>)
    ensures
        match r {
            Some(json) => section_of(members@, field) == Some(*json),
            None => section_of(members@, field) is None,
        },
{
    match member(members, field) {
        Some(Json::Null) => None,
        Some(json) => Some(json),
        None => None,
    }
}

/// The views of a list of records.
pub open spec fn views<T: View>(records: Seq<T>) -> Seq<T::V> {
    records.map_values(|record: T| record@)
}

/// The records that a list of JSON values decodes to, or why its first value
/// that cannot be decoded cannot.
pub open spec fn items_of<T: FromJson>(items: Seq<Json>) -> Result<Seq<T::V>, DecodeError>
    decreases items.len(),
{
    if items.len() == 0 {
        Ok(Seq::empty())
    } else {
        match items_of::<T>(items.drop_last()) {
            Err(e) => Err(e),
            Ok(front) => match T::decoded(items.last()) {
                Ok(record) => Ok(front.push(record)),
                Err(e) => Err(e),
            },
        }
    }
}

/// The records that a JSON array decodes to; for any other value, that a list
/// was expected at `field`.
pub open spec fn list_of<T: FromJson>(json: Json, field: &'static str) -> Result<
    Seq<T::V>,
    DecodeError,
> {
    match json {
        Json::Array(items) => items_of::<T>(items@),
        _ => Err(
            DecodeError::Invalid {
                field,
                mismatch: Mismatch::InvalidType { found: unexpected(json), expected: Expected::List },
            },
        ),
    }
}

/// Decodes a list of records.
pub fn list<T: FromJson>(json: &Json, field: &'static str) -> (r: Result<Vec<T>, DecodeError>)
    ensures
        match r {
            Ok(records) => list_of::<T>(*json, field) == Ok::<Seq<T::V>, DecodeError>(
                views(records@),
            ),
            Err(e) => list_of::<T>(*json, field) == Err::<Seq<T::V>, DecodeError>(e),
        },
{
    let items = match json {
        Json::Array(items) => items,
        _ => {
            return Err(
                DecodeError::Invalid {
                    field,
                    mismatch: Mismatch::InvalidType {
                        found: describe(json),
                        expected: Expected::List,
                    },
                },
            );
        },
    };
    let mut records: Vec<T> = Vec::new();
    let mut i: usize = 0;
    assert(views(records@) =~= Seq::<T::V>::empty());
    while i < items.len()
        invariant
            i <= items.len(),
            list_of::<T>(*json, field) == items_of::<T>(items@),
            items_of::<T>(items@.take(i as int)) == Ok::<Seq<T::V>, DecodeError>(views(records@)),
        decreases items.len() - i,
    {
        proof {
            assert(items@.take(i as int + 1).drop_last() =~= items@.take(i as int));
            assert(items@.take(i as int + 1).last() == items@[i as int]);
        }
        match T::from_json(&items[i]) {
            Ok(record) => {
                proof {
                    assert(views(records@.push(record)) =~= views(records@).push(record@));
                }
                records.push(record);
            },
            Err(e) => {
                proof {
                    assert(items_of::<T>(items@.take(i as int + 1)) == Err::<
                        Seq<T::V>,
                        DecodeError,
                    >(e));
                    lemma_items_fail::<T>(items@, i as int + 1);
                }
                return Err(e);
            },
        }
        i += 1;
    }
    proof {
        assert(items@.take(items.len() as int) =~= items@);
    }
    Ok(records)
}

/// A list whose beginning cannot be decoded cannot be decoded, for the same reason.
proof fn lemma_items_fail<T: FromJson>(items: Seq<Json>, upto: int)
    requires
        0 <= upto <= items.len(),
        items_of::<T>(items.take(upto)) is Err,
    ensures
        items_of::<T>(items) == items_of::<T>(items.take(upto)),
    decreases items.len() - upto,
{
    if upto < items.len() {
        assert(items.take(upto + 1).drop_last() =~= items.take(upto));
        lemma_items_fail::<T>(items, upto + 1);
    } else {
        assert(items.take(upto) =~= items);
    }
}

} // verus!
