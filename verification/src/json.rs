//! JSON documents, as `serde_json` decodes them.
//!
//! Decoding is `serde_json`'s work and is not verified here. This module
//! states what the rest of the library relies on: that decoding a text
//! gives a value that depends on the text alone, and what such a value
//! holds under a name.

use vstd::prelude::*;

verus! {

/// `serde_json::Value`, a decoded JSON document. Nothing is known of its
/// inside but through the functions of this module.
#[verifier::external_type_specification]
#[verifier::external_body]
pub struct ExValue(serde_json::Value);

/// `serde_json::Error`, why a text could not be decoded. Nothing is read
/// from it.
#[verifier::external_type_specification]
#[verifier::external_body]
pub struct ExError(serde_json::Error);

/// What a JSON object holds under one name. Of an array and of an object
/// only the kind is kept, of a number its text.
#[derive(Debug)]
pub enum Member {
    Null,
    Bool(bool),
    Number(String),
    Text(String),
    Array,
    Object,
}

/// The mathematical content of a [`Member`].
pub enum MemberView {
    Null,
    Bool(bool),
    Number(Seq<char>),
    Text(Seq<char>),
    Array,
    Object,
}

impl View for Member {
    type V = MemberView;

    open spec fn view(&self) -> MemberView {
        match *self {
            Member::Null => MemberView::Null,
            Member::Bool(b) => MemberView::Bool(b),
            Member::Number(t) => MemberView::Number(t@),
            Member::Text(t) => MemberView::Text(t@),
            Member::Array => MemberView::Array,
            Member::Object => MemberView::Object,
        }
    }
}

/// The mathematical content of a member that may be missing.
pub open spec fn member_view(m: Option<Member>) -> Option<MemberView> {
    match m {
        Some(m) => Some(m@),
        None => None,
    }
}

/// The mathematical content of a JSON document, as far as a reading
/// depends on it: whether it is an object, and its members by name.
pub struct DocumentView {
    pub is_object: bool,
    pub members: Map<Seq<char>, MemberView>,
}

impl DocumentView {
    /// What the document holds under the name `key`, if anything.
    pub open spec fn member(self, key: Seq<char>) -> Option<MemberView> {
        if self.members.contains_key(key) {
            Some(self.members[key])
        } else {
            None
        }
    }
}

/// What `serde_json` decodes the text to, where the text is one JSON
/// document.
pub uninterp spec fn json_decoding(text: Seq<char>) -> Option<DocumentView>;

/// Whether the decoded value is a JSON object.
pub uninterp spec fn json_is_object(doc: serde_json::Value) -> bool;

/// The members of the decoded value by name.
pub uninterp spec fn json_members(doc: serde_json::Value) -> Map<Seq<char>, MemberView>;

/// Calls `serde_json::from_str` for a `serde_json::Value`. Trusted: what
/// comes back depends on the text alone; the call fails on the texts that
/// have no decoding, and gives a value with the content of the decoding on
/// the others.
#[verifier::external_body]
pub(crate) fn decode(line: &str) -> (r: Result<serde_json::Value, serde_json::Error>)
    ensures
        json_decoding(line@) == match r {
            Ok(doc) => Some(
                (DocumentView { is_object: json_is_object(doc), members: json_members(doc) }),
            ),
            Err(_) => None,
        },
{
    serde_json::from_str(line)
}

/// Calls `serde_json::Value::is_object`. Trusted: the result says whether
/// the value is an object.
#[verifier::external_body]
pub(crate) fn is_object(doc: &serde_json::Value) -> (r: bool)
    ensures
        r == json_is_object(*doc),
{
    doc.is_object()
}

/// Calls `serde_json::Value::get` with a name. Trusted: the result is the
/// member of that name, if the value has one, with a number given as the
/// text that its `Display` writes.
#[verifier::external_body]
pub(crate) fn member(doc: &serde_json::Value, key: &str) -> (r: Option<Member>)
    ensures
        member_view(r) == (if json_members(*doc).contains_key(key@) {
            Some(json_members(*doc)[key@])
        } else {
            None
        }),
{
    match doc.get(key) {
        None => None,
        Some(serde_json::Value::Null) => Some(Member::Null),
        Some(serde_json::Value::Bool(b)) => Some(Member::Bool(*b)),
        Some(serde_json::Value::Number(n)) => Some(Member::Number(n.to_string())),
        Some(serde_json::Value::String(s)) => Some(Member::Text(s.clone())),
        Some(serde_json::Value::Array(_)) => Some(Member::Array),
        Some(serde_json::Value::Object(_)) => Some(Member::Object),
    }
}

} // verus!
