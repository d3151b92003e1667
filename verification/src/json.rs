use vstd::prelude::*;

verus! {

/// `serde_json::Value`: a decoded JSON value. Nothing of its inside is
/// visible here; what it holds is told by the names below.
#[verifier::external_type_specification]
#[verifier::external_body]
pub struct ExJsonValue(serde_json::Value);

/// `serde_json::Error`: why a text could not be decoded. It is only passed on.
#[verifier::external_type_specification]
#[verifier::external_body]
pub struct ExJsonError(serde_json::Error);

/// The JSON value that a text decodes to; none where the decoder refuses the text.
pub uninterp spec fn json_document(text: Seq<char>) -> Option<serde_json::Value>;

/// The member of a JSON object under a key; none where the value is no
/// object or has no such member.
pub uninterp spec fn json_member(value: serde_json::Value, key: Seq<char>) -> Option<
    serde_json::Value,
>;

/// The elements of a JSON array; none where the value is no array.
pub uninterp spec fn json_items(value: serde_json::Value) -> Option<Seq<serde_json::Value>>;

/// The text of a JSON string; none where the value is no string.
pub uninterp spec fn json_text(value: serde_json::Value) -> Option<Seq<char>>;

/// The number that a JSON integer is, where it fits 64 bits without sign;
/// none for any other value.
pub uninterp spec fn json_number(value: serde_json::Value) -> Option<u64>;

/// The truth value of a JSON boolean; none where the value is no boolean.
pub uninterp spec fn json_flag(value: serde_json::Value) -> Option<bool>;

/// `serde_json::from_str` at `serde_json::Value`: decodes a JSON text. The
/// result depends on the text alone; `json_document` is the value that
/// comes out, and is none exactly where the call gives an error.
#[verifier::external_body]
pub(crate) fn parse_document(text: &str) -> (r: Result<serde_json::Value, serde_json::Error>)
    ensures
        match r {
            Ok(value) => json_document(text@) == Some(value),
            Err(_) => json_document(text@) is None,
        },
{
    serde_json::from_str::<serde_json::Value>(text)
}

/// `serde_json::Value::get` with a text key: the member of an object under
/// that key, `None` for a missing member and for a value that is no object.
#[verifier::external_body]
pub(crate) fn member<'a>(value: &'a serde_json::Value, key: &str) -> (r: Option<
    &'a serde_json::Value,
>)
    ensures
        match r {
            Some(m) => json_member(*value, key@) == Some(*m),
            None => json_member(*value, key@) is None,
        },
{
    value.get(key)
}

/// `serde_json::Value::as_array`, of which the length is taken: the number
/// of elements of an array, `None` for a value that is no array.
#[verifier::external_body]
pub(crate) fn item_count(value: &serde_json::Value) -> (r: Option<usize>)
    ensures
        match r {
            Some(n) => json_items(*value) is Some && json_items(*value)->0.len() == n,
            None => json_items(*value) is None,
        },
{
    match value.as_array() {
        Some(items) => Some(items.len()),
        None => None,
    }
}

/// `serde_json::Value::get` with a position: the element of an array at that
/// position, `None` past the end and for a value that is no array.
#[verifier::external_body]
pub(crate) fn item<'a>(value: &'a serde_json::Value, position: usize) -> (r: Option<
    &'a serde_json::Value,
>)
    ensures
        match r {
            Some(m) => json_items(*value) is Some && position < json_items(*value)->0.len()
                && json_items(*value)->0[position as int] == *m,
            None => json_items(*value) is None || position >= json_items(*value)->0.len(),
        },
{
    value.get(position)
}

/// `serde_json::Value::as_str`: the text of a string, `None` for any other value.
#[verifier::external_body]
pub(crate) fn text(value: &serde_json::Value) -> (r: Option<String>)
    ensures
        match r {
            Some(s) => json_text(*value) == Some(s@),
            None => json_text(*value) is None,
        },
{
    match value.as_str() {
        Some(s) => Some(s.to_owned()),
        None => None,
    }
}

/// `serde_json::Value::as_u64`: an integer that fits 64 bits without sign,
/// `None` for any other value.
#[verifier::external_body]
pub(crate) fn number(value: &serde_json::Value) -> (r: Option<u64>)
    ensures
        r == json_number(*value),
{
    value.as_u64()
}

/// `serde_json::Value::as_bool`: the truth value of a boolean, `None` for
/// any other value.
#[verifier::external_body]
pub(crate) fn flag(value: &serde_json::Value) -> (r: Option<bool>)
    ensures
        r == json_flag(*value),
{
    value.as_bool()
}

} // verus!
