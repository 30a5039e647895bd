//! Calls into other crates, with what is claimed of their results.

use crate::ws_clients::Sender;
use vstd::prelude::*;

verus! {

/// A digit of lower-case hexadecimal notation.
pub open spec fn is_hex(c: char) -> bool {
    '0' <= c <= '9' || 'a' <= c <= 'f'
}

/// The hyphenated notation of a random UUID (version 4, RFC variant): 36 characters, hyphens
/// after 8, 12, 16 and 20 digits, lower-case hexadecimal digits elsewhere, of which the
/// thirteenth is the version and the seventeenth carries the variant.
pub open spec fn is_random_uuid(text: Seq<char>) -> bool {
    &&& text.len() == 36
    &&& text[8] == '-' && text[13] == '-' && text[18] == '-' && text[23] == '-'
    &&& forall|i: int|
        0 <= i < 36 && i != 8 && i != 13 && i != 18 && i != 23 ==> is_hex(#[trigger] text[i])
    &&& text[14] == '4'
    &&& text[19] == '8' || text[19] == '9' || text[19] == 'a' || text[19] == 'b'
}

/// A number that an HTTP response can carry as its status.
pub open spec fn is_status(status: u16) -> bool {
    100 <= status <= 999
}

/// Calls `uuid::Uuid::new_v4` and writes the result with its `Display` notation.
///
/// Claims the form of the text, which the version and variant bits and the notation fix. The
/// digits are random: nothing relates two results.
#[verifier::external_body]
pub(crate) fn random_uuid() -> (text: String)
    ensures
        is_random_uuid(text@),
{
    uuid::Uuid::new_v4().to_string()
}

/// What `http` reports for a number that is no status.
#[verifier::external_type_specification]
#[verifier::external_body]
pub struct ExInvalidStatusCode(axum::http::status::InvalidStatusCode);

/// Calls `axum::http::StatusCode::from_u16` and reads the number back with `as_u16`.
///
/// Claims that exactly the numbers from 100 to 999 are accepted and that an accepted number is
/// kept.
#[verifier::external_body]
pub(crate) fn status_from_u16(status: u16) -> (result: Result<
    u16,
    axum::http::status::InvalidStatusCode,
>)
    ensures
        result is Ok <==> is_status(status),
        result matches Ok(code) ==> code == status,
{
    axum::http::StatusCode::from_u16(status).map(|code| code.as_u16())
}

/// The status itself where it is one that a response can carry.
pub fn checked_status(status: u16) -> (checked: Option<u16>)
    ensures
        checked == (if is_status(status) {
            Some(status)
        } else {
            None
        }),
{
    match status_from_u16(status) {
        Ok(code) => Some(code),
        Err(_) => None,
    }
}

/// Calls `rand::seq::SliceRandom::shuffle` with `rand::thread_rng`.
///
/// Claims that the list holds the same items as before, each as often as before. Their order is
/// random: nothing is claimed of it.
#[verifier::external_body]
pub(crate) fn shuffle(list: &mut Vec<Sender>)
    ensures
        final(list)@.to_multiset() == old(list)@.to_multiset(),
{
    rand::seq::SliceRandom::shuffle(list.as_mut_slice(), &mut rand::thread_rng());
}

/// What a JSON text holds under a name.
pub enum JsonMember {
    /// The text is no JSON.
    NotJson,
    /// The text is no object, or one without a member of that name.
    Missing,
    /// The member is no text.
    NotText,
    Text(String),
}

/// What a JSON text holds under a name.
pub enum JsonMemberView {
    NotJson,
    Missing,
    NotText,
    Text(Seq<char>),
}

impl View for JsonMember {
    type V = JsonMemberView;

    open spec fn view(&self) -> JsonMemberView {
        match self {
            JsonMember::NotJson => JsonMemberView::NotJson,
            JsonMember::Missing => JsonMemberView::Missing,
            JsonMember::NotText => JsonMemberView::NotText,
            JsonMember::Text(text) => JsonMemberView::Text(text@),
        }
    }
}

/// What `serde_json` finds under a name in a text.
pub uninterp spec fn member_of(text: Seq<char>, name: Seq<char>) -> JsonMemberView;

/// Calls `serde_json::from_str` for a `serde_json::Value` and reads the member of that name with
/// `Value::get` and `Value::as_str`.
///
/// Claims that the result depends on the text and the name alone.
#[verifier::external_body]
pub(crate) fn json_member(text: &str, name: &str) -> (member: JsonMember)
    ensures
        member@ == member_of(text@, name@),
{
    match serde_json::from_str::<serde_json::Value>(text) {
        Err(_) => JsonMember::NotJson,
        Ok(value) => match value.get(name) {
            None => JsonMember::Missing,
            Some(member) => match member.as_str() {
                None => JsonMember::NotText,
                Some(text) => JsonMember::Text(text.to_owned()),
            },
        },
    }
}

} // verus!
