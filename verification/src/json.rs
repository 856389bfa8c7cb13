//! What the library asks of `serde_json`.

use vstd::prelude::*;

verus! {

pub open spec fn opt_string_view(o: Option<String>) -> Option<Seq<char>> {
    match o {
        Some(s) => Some(s@),
        None => None,
    }
}

/// The value that `pointer` (a JSON Pointer) selects in the JSON value that
/// `text` holds: `None` when `text` is not JSON or selects nothing;
/// `Some(Some(s))` when it is the string `s`; `Some(None)` for any other kind.
pub uninterp spec fn json_pointer_text(text: Seq<char>, pointer: Seq<char>) -> Option<Option<Seq<char>>>;

/// The boolean that `pointer` selects in the JSON value that `text` holds;
/// `None` when `text` is not JSON, selects nothing or selects no boolean.
pub uninterp spec fn json_pointer_bool(text: Seq<char>, pointer: Seq<char>) -> Option<bool>;

/// The compact JSON text of the value that `pointer` selects in the JSON
/// value that `text` holds; `None` when `text` is not JSON or selects nothing.
pub uninterp spec fn json_pointer_dump(text: Seq<char>, pointer: Seq<char>) -> Option<Seq<char>>;

/// The number of items of the JSON array that `text` holds; `None` when
/// `text` is not JSON or holds no array.
pub uninterp spec fn json_array_length(text: Seq<char>) -> Option<nat>;

/// Parses `text` with `serde_json::from_str::<serde_json::Value>` and
/// selects `pointer` with `Value::pointer`, telling a string apart from a
/// value of another kind. The result is taken to be `json_pointer_text` of
/// the arguments.
#[verifier::external_body]
pub(crate) fn json_at(text: &str, pointer: &str) -> (r: Option<Option<String>>)
    ensures
        match r {
            None => json_pointer_text(text@, pointer@) is None,
            Some(m) => json_pointer_text(text@, pointer@) == Some(opt_string_view(m)),
        },
{
    match serde_json::from_str::<serde_json::Value>(text) {
        Ok(v) => match v.pointer(pointer) {
            Some(serde_json::Value::String(s)) => Some(Some(s.clone())),
            Some(_) => Some(None),
            None => None,
        },
        Err(_) => None,
    }
}

/// Parses `text` with `serde_json::from_str::<serde_json::Value>`, selects
/// `pointer` with `Value::pointer` and reads it with `Value::as_bool`. The
/// result is taken to be `json_pointer_bool` of the arguments.
#[verifier::external_body]
pub(crate) fn json_bool_at(text: &str, pointer: &str) -> (r: Option<bool>)
    ensures
        r == json_pointer_bool(text@, pointer@),
{
    match serde_json::from_str::<serde_json::Value>(text) {
        Ok(v) => v.pointer(pointer).and_then(|x| x.as_bool()),
        Err(_) => None,
    }
}

/// Parses `text` with `serde_json::from_str::<serde_json::Value>`, selects
/// `pointer` with `Value::pointer` and writes the selected value back out
/// with its `to_string`. The result is taken to be `json_pointer_dump` of the
/// arguments.
#[verifier::external_body]
pub(crate) fn json_dump_at(text: &str, pointer: &str) -> (r: Option<String>)
    ensures
        opt_string_view(r) == json_pointer_dump(text@, pointer@),
{
    match serde_json::from_str::<serde_json::Value>(text) {
        Ok(v) => v.pointer(pointer).map(|x| x.to_string()),
        Err(_) => None,
    }
}

/// Parses `text` with `serde_json::from_str::<serde_json::Value>` and takes
/// the length of the array that `Value::as_array` gives. The result is taken
/// to be `json_array_length` of the input.
#[verifier::external_body]
pub(crate) fn json_array_len(text: &str) -> (r: Option<usize>)
    ensures
        match r {
            Some(n) => json_array_length(text@) == Some(n as nat),
            None => json_array_length(text@) is None,
        },
{
    match serde_json::from_str::<serde_json::Value>(text) {
        Ok(v) => v.as_array().map(|a| a.len()),
        Err(_) => None,
    }
}

} // verus!
