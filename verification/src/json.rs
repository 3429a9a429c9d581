//! Declarations for `serde_json::Value`, the loosely typed JSON tree that the
//! wire schema carries opaquely (tool parameters, unrecognized request fields)
//! and that the backend's reply arrives as. The only part of a backend reply
//! this crate reads is its `data.text` string field; that projection is given
//! a name here and extracted through a single trusted function.

use vstd::prelude::*;

verus! {

#[verifier::external_type_specification]
#[verifier::external_body]
pub struct ExValue(serde_json::Value);

/// Relies on `serde_json::Value`'s derived `Clone`, which copies the whole
/// tree: the clone is equal to the original.
pub assume_specification[ <serde_json::Value as Clone>::clone ](v: &serde_json::Value) -> (res: serde_json::Value)
    ensures
        res == *v,
;

/// The string held by a JSON value's `data.text` field: `Some` exactly when
/// the value is an object with a `"data"` member that is itself an object
/// with a `"text"` member holding a string.
pub uninterp spec fn data_text_of(v: serde_json::Value) -> Option<Seq<char>>;

/// The diagnostic rendering of a JSON value, as its `Debug` implementation
/// writes it; a function of the value alone.
pub uninterp spec fn rendered_of(v: serde_json::Value) -> Seq<char>;

/// Relies on `serde_json::Value::get` (member lookup on an object, `None` on
/// any other value or a missing key) and `Value::as_str` (`Some` exactly for
/// `Value::String`): together they project out the `data.text` string, which
/// is what `data_text_of` names.
#[verifier::external_body]
pub(crate) fn extract_data_text(v: &serde_json::Value) -> (r: Option<String>)
    ensures
        r is Some <==> data_text_of(*v) is Some,
        r is Some ==> r->0@ == data_text_of(*v)->0,
{
    v.get("data")
        .and_then(|d| d.get("text"))
        .and_then(|t| t.as_str())
        .map(|s| s.to_owned())
}

/// Relies on `serde_json::Value`'s `Debug` implementation, which renders the
/// value deterministically from its contents; the result is what
/// `rendered_of` names.
#[verifier::external_body]
pub(crate) fn render_value(v: &serde_json::Value) -> (r: String)
    ensures
        r@ == rendered_of(*v),
{
    format!("{:?}", v)
}

} // verus!
