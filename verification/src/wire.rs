//! What goes over the wire: the JSON text of a chat message and of a presence
//! snapshot, and the reading of the frames that clients send.

use vstd::prelude::*;
use vstd::string::*;
use crate::broadcast::{ChatMessage, ChatMessageView};
use crate::clock::{rfc3339, rfc3339_text, Timestamp};
use crate::presence::{user_views, User, UserView};

verus! {

/// The JSON string literal for `text`, as `serde_json` writes it: the text
/// between double quotes, with the escapes that JSON asks for.
pub uninterp spec fn json_string_literal(text: Seq<char>) -> Seq<char>;

/// What `serde_json` finds under `key` in the JSON document `text`: `None`
/// where `text` is no JSON document; `Some(None)` where it is one, but is no
/// object, has no member `key`, or has one that is no string; else the
/// string.
pub uninterp spec fn json_string_field(text: Seq<char>, key: Seq<char>) -> Option<
    Option<Seq<char>>,
>;

/// The text that `bytes` are in UTF-8, as `std::str::from_utf8` reads them;
/// `None` where they are no UTF-8.
pub uninterp spec fn utf8_text(bytes: Seq<u8>) -> Option<Seq<char>>;

/// The text that `String::from_utf8_lossy` makes of `bytes`: their UTF-8
/// reading, with U+FFFD in place of what is no UTF-8.
pub uninterp spec fn utf8_lossy(bytes: Seq<u8>) -> Seq<char>;

/// The view of a string that may be absent.
pub open spec fn text_view(text: Option<String>) -> Option<Seq<char>> {
    match text {
        Some(s) => Some(s@),
        None => None,
    }
}

/// Writes `text` as a JSON string literal with `serde_json::to_string`.
///
/// The contract only names the result. Writing a string into memory cannot
/// fail, so the error arm is never taken.
#[verifier::external_body]
pub(crate) fn quote(text: &str) -> (r: String)
    ensures
        r@ == json_string_literal(text@),
{
    match serde_json::to_string(text) {
        Ok(literal) => literal,
        Err(_) => String::new(),
    }
}

/// Reads `text` as JSON with `serde_json::from_str` and looks up the string
/// under `key` with `Value::get`.
///
/// The contract only names the result. The parser refuses documents nested
/// deeper than 128 levels rather than overflow the stack.
#[verifier::external_body]
pub(crate) fn string_field(text: &str, key: &str) -> (r: Option<Option<String>>)
    ensures
        match r {
            Some(field) => json_string_field(text@, key@) == Some(text_view(field)),
            None => json_string_field(text@, key@) is None,
        },
{
    match serde_json::from_str::<serde_json::Value>(text) {
        Ok(document) => match document.get(key) {
            Some(serde_json::Value::String(s)) => Some(Some(s.clone())),
            _ => Some(None),
        },
        Err(_) => None,
    }
}

/// Reads `bytes` as UTF-8 with `std::str::from_utf8`, which refuses what is
/// no UTF-8. The contract only names the result.
#[verifier::external_body]
pub(crate) fn strict_text(bytes: &[u8]) -> (r: Option<String>)
    ensures
        text_view(r) == utf8_text(bytes@),
{
    match std::str::from_utf8(bytes) {
        Ok(text) => Some(text.to_string()),
        Err(_) => None,
    }
}

/// Reads `bytes` as text with `String::from_utf8_lossy`. The contract only
/// names the result.
#[verifier::external_body]
pub(crate) fn lossy_text(bytes: &[u8]) -> (r: String)
    ensures
        r@ == utf8_lossy(bytes@),
{
    String::from_utf8_lossy(bytes).into_owned()
}

/// The JSON text of an instant: its RFC 3339 text as a string literal, or
/// `null` for an instant that has no date.
pub open spec fn timestamp_json(at: Timestamp) -> Seq<char> {
    match rfc3339_text(at.secs as int, at.nanos as int) {
        Some(text) => json_string_literal(text),
        None => "null"@,
    }
}

/// The JSON text of a chat message: an object with the members `username`,
/// `content` and `timestamp`, in that order.
pub open spec fn chat_message_json(message: ChatMessageView) -> Seq<char> {
    "{\"username\":"@ + json_string_literal(message.username) + ",\"content\":"@
        + json_string_literal(message.content) + ",\"timestamp\":"@ + timestamp_json(
        message.timestamp,
    ) + "}"@
}

/// The JSON text of a user: an object with the members `username` and
/// `last_seen`, in that order.
pub open spec fn user_json(user: UserView) -> Seq<char> {
    "{\"username\":"@ + json_string_literal(user.username) + ",\"last_seen\":"@ + timestamp_json(
        user.last_seen,
    ) + "}"@
}

/// The JSON texts of `users`, in their order, with a comma between each two.
pub open spec fn users_json(users: Seq<UserView>) -> Seq<char>
    decreases users.len(),
{
    if users.len() == 0 {
        Seq::empty()
    } else if users.len() == 1 {
        user_json(users[0])
    } else {
        users_json(users.drop_last()) + ","@ + user_json(users.last())
    }
}

/// The JSON text of a presence snapshot: an object whose member `type` is
/// `userList` and whose member `users` is the array of the users.
pub open spec fn user_list_json(users: Seq<UserView>) -> Seq<char> {
    "{\"type\":\"userList\",\"users\":["@ + users_json(users) + "]}"@
}

/// Writes an instant as JSON.
pub fn encode_timestamp(at: Timestamp) -> (r: String)
    ensures
        r@ == timestamp_json(at),
{
    match rfc3339(at) {
        Some(text) => quote(text.as_str()),
        None => String::from_str("null"),
    }
}

/// Writes a chat message as JSON.
pub fn encode_chat_message(message: &ChatMessage) -> (r: String)
    ensures
        r@ == chat_message_json(message@),
{
    let mut out = String::from_str("{\"username\":");
    out.append(quote(message.username.as_str()).as_str());
    out.append(",\"content\":");
    out.append(quote(message.content.as_str()).as_str());
    out.append(",\"timestamp\":");
    out.append(encode_timestamp(message.timestamp).as_str());
    out.append("}");
    out
}

/// Writes a user as JSON.
pub fn encode_user(user: &User) -> (r: String)
    ensures
        r@ == user_json(user@),
{
    let mut out = String::from_str("{\"username\":");
    out.append(quote(user.username.as_str()).as_str());
    out.append(",\"last_seen\":");
    out.append(encode_timestamp(user.last_seen).as_str());
    out.append("}");
    out
}

/// Writes a presence snapshot as JSON, the users in the order given.
pub fn encode_user_list(users: &Vec<User>) -> (r: String)
    ensures
        r@ == user_list_json(user_views(users@)),
{
    let ghost all = user_views(users@);
    let mut out = String::from_str("{\"type\":\"userList\",\"users\":[");
    let mut i: usize = 0;
    while i < users.len()
        invariant
            i <= users.len(),
            all == user_views(users@),
            out@ == "{\"type\":\"userList\",\"users\":["@ + users_json(all.take(i as int)),
        decreases users.len() - i,
    {
        if i > 0 {
            out.append(",");
        }
        out.append(encode_user(&users[i]).as_str());
        proof {
            let upto = all.take(i + 1);
            assert(upto.drop_last() =~= all.take(i as int));
            assert(upto.last() == users[i as int]@);
            assert(out@ =~= "{\"type\":\"userList\",\"users\":["@ + users_json(upto));
        }
        i += 1;
    }
    assert(all.take(users.len() as int) =~= all);
    out.append("]}");
    out
}

} // verus!
