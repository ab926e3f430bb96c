//! Reading the members of a JSON document. The document is parsed by
//! `serde_json`; this module states what the rest of the library relies on.
use vstd::prelude::*;

verus! {

/// A JSON value of `serde_json`, parsed from a text. Opaque here.
#[verifier::external_type_specification]
#[verifier::external_body]
pub struct ExValue(serde_json::Value);

/// The error with which `serde_json` refuses a text. Opaque here.
#[verifier::external_type_specification]
#[verifier::external_body]
pub struct ExError(serde_json::Error);

/// What a document holds under a key, as far as a message is read from it.
#[derive(Debug, PartialEq, Eq)]
pub enum Member {
    /// The document is no object, or has no member of that key.
    Absent,
    /// The member is `null`.
    Null,
    /// The member is a string: its text.
    Text(String),
    /// The member is a number: the number as `serde_json` writes it.
    Number(String),
    /// The member is a boolean, an array or an object.
    Other,
}

/// A `Member` as the contracts see it.
pub enum MemberView {
    Absent,
    Null,
    Text(Seq<char>),
    Number(Seq<char>),
    Other,
}

impl View for Member {
    type V = MemberView;

    open spec fn view(&self) -> MemberView {
        match self {
            Member::Absent => MemberView::Absent,
            Member::Null => MemberView::Null,
            Member::Text(text) => MemberView::Text(text@),
            Member::Number(text) => MemberView::Number(text@),
            Member::Other => MemberView::Other,
        }
    }
}

/// The members of the document that `serde_json` reads from `text`, by
/// key; `None` where it refuses the text.
pub uninterp spec fn json_members(text: Seq<char>) -> Option<Map<Seq<char>, MemberView>>;

/// The members that a parsed value holds, by key. A value that is no
/// object holds none.
pub uninterp spec fn members_of(value: serde_json::Value) -> Map<Seq<char>, MemberView>;

/// The member under `key`, `Absent` where there is none.
pub open spec fn member_at(members: Map<Seq<char>, MemberView>, key: Seq<char>) -> MemberView {
    if members.dom().contains(key) {
        members[key]
    } else {
        MemberView::Absent
    }
}

/// Parses a JSON document.
///
/// Trusted: calls `serde_json::from_str` for a `serde_json::Value`. The
/// contract claims that whether the text is accepted, and what the value
/// then holds, depend on the text alone; it names both `json_members`.
#[verifier::external_body]
pub(crate) fn parse_value(json: &str) -> (r: Result<serde_json::Value, serde_json::Error>)
    ensures
        match r {
            Ok(value) => json_members(json@) == Some(members_of(value)),
            Err(_) => json_members(json@) is None,
        },
{
    serde_json::from_str::<serde_json::Value>(json)
}

/// Looks a member up.
///
/// Trusted: calls `serde_json::Value::get` with the key, and tells the
/// variants of the value found apart: a string is handed on by its text,
/// a number by the text that `serde_json::Number` displays. The contract
/// claims that the result is the entry of `members_of` under the key.
#[verifier::external_body]
pub(crate) fn member(value: &serde_json::Value, key: &str) -> (r: Member)
    ensures
        r@ == member_at(members_of(*value), key@),
{
    match value.get(key) {
        None => Member::Absent,
        Some(serde_json::Value::Null) => Member::Null,
        Some(serde_json::Value::String(text)) => Member::Text(text.clone()),
        Some(serde_json::Value::Number(number)) => Member::Number(number.to_string()),
        Some(_) => Member::Other,
    }
}

/// The words of an error of `serde_json`.
///
/// Trusted: calls `to_string` on the `serde_json::Error`, which displays
/// it. Nothing is claimed of the text.
#[verifier::external_body]
pub(crate) fn error_text(error: &serde_json::Error) -> String {
    error.to_string()
}

} // verus!
