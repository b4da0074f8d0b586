//! The cursors of the paged lists: the JSON object `{"<field>":"<uuid>"}`
//! that names the last item of a page, written in URL-safe base64 without
//! padding.

use vstd::prelude::*;

use crate::text::{chars_of, string_of};
use crate::uuid_text::{uuid_hyphenated_text, uuid_to_string};
use crate::web::api_error::PresentationError;

verus! {

/// The text that `base64`'s `URL_SAFE_NO_PAD` engine writes for `bytes`.
pub uninterp spec fn base64_url_no_pad(bytes: Seq<u8>) -> Seq<char>;

/// The bytes that `base64`'s `URL_SAFE_NO_PAD` engine reads from `text`, if
/// it accepts it.
pub uninterp spec fn base64_url_no_pad_decoded(text: Seq<char>) -> Option<Seq<u8>>;

/// `Engine::encode` of `base64::engine::general_purpose::URL_SAFE_NO_PAD`.
/// It panics only where the encoded length overflows, which the bound on
/// the input rules out.
#[verifier::external_body]
fn encode_base64_url_no_pad(bytes: &[u8]) -> (s: String)
    requires
        bytes@.len() <= 1024,
    ensures
        s@ == base64_url_no_pad(bytes@),
{
    base64::Engine::encode(&base64::engine::general_purpose::URL_SAFE_NO_PAD, bytes)
}

/// `Engine::decode` of `base64::engine::general_purpose::URL_SAFE_NO_PAD`.
#[verifier::external_body]
fn decode_base64_url_no_pad(text: &str) -> (r: Option<Vec<u8>>)
    ensures
        match r {
            Some(v) => base64_url_no_pad_decoded(text@) == Some(v@),
            None => base64_url_no_pad_decoded(text@) is None,
        },
{
    match base64::Engine::decode(&base64::engine::general_purpose::URL_SAFE_NO_PAD, text) {
        Ok(bytes) => Some(bytes),
        Err(_) => None,
    }
}

/// The member of a cursor: the position after which the next page starts.
#[derive(Debug, Clone, Copy, PartialEq, Eq, Structural)]
pub enum CursorField {
    /// A comment's or a message's history entry.
    HistoryId,
    NotificationId,
    AnswerId,
    UserId,
}

impl CursorField {
    pub open spec fn spec_name(self) -> Seq<char> {
        match self {
            CursorField::HistoryId => "after_history_id"@,
            CursorField::NotificationId => "after_notification_id"@,
            CursorField::AnswerId => "after_answer_id"@,
            CursorField::UserId => "after_user_id"@,
        }
    }

    pub fn name(self) -> (r: &'static str)
        ensures
            r@ == self.spec_name(),
    {
        match self {
            CursorField::HistoryId => "after_history_id",
            CursorField::NotificationId => "after_notification_id",
            CursorField::AnswerId => "after_answer_id",
            CursorField::UserId => "after_user_id",
        }
    }
}

/// The JSON text of a cursor, as `serde_json` writes the one-member object
/// with the UUID in its hyphenated form.
pub open spec fn cursor_json(field: CursorField, id: u128) -> Seq<char> {
    "{\""@ + field.spec_name() + "\":\""@ + uuid_hyphenated_text(id) + "\"}"@
}

/// The bytes of an ASCII text.
pub open spec fn ascii_bytes(text: Seq<char>) -> Seq<u8> {
    text.map_values(|c: char| c as u8)
}

/// The cursor of a page that ends at the item `id`.
pub open spec fn cursor_text(field: CursorField, id: u128) -> Seq<char> {
    base64_url_no_pad(ascii_bytes(cursor_json(field, id)))
}

fn bytes_of_chars(text: &Vec<char>) -> (v: Vec<u8>)
    ensures
        v@ == ascii_bytes(text@),
{
    let mut v: Vec<u8> = Vec::new();
    let mut i: usize = 0;
    while i < text.len()
        invariant
            i <= text@.len(),
            v@ == ascii_bytes(text@.subrange(0, i as int)),
        decreases text@.len() - i,
    {
        v.push(text[i] as u8);
        i = i + 1;
        assert(v@ =~= ascii_bytes(text@.subrange(0, i as int)));
    }
    assert(text@.subrange(0, i as int) =~= text@);
    v
}

/// Writes the cursor of a page that ends at the item `id`.
pub fn encode_cursor(field: CursorField, id: u128) -> (r: String)
    ensures
        r@ == cursor_text(field, id),
{
    let mut json: Vec<char> = chars_of("{\"");
    crate::text::append_str(&mut json, field.name());
    crate::text::append_str(&mut json, "\":\"");
    let uuid = uuid_to_string(id);
    crate::text::append_str(&mut json, uuid.as_str());
    crate::text::append_str(&mut json, "\"}");
    proof {
        reveal_strlit("{\"");
        reveal_strlit("\":\"");
        reveal_strlit("\"}");
        reveal_strlit("after_history_id");
        reveal_strlit("after_notification_id");
        reveal_strlit("after_answer_id");
        reveal_strlit("after_user_id");
        assert(uuid_hyphenated_text(id).len() == 36);
        assert(json@ =~= cursor_json(field, id));
    }
    let bytes = bytes_of_chars(&json);
    encode_base64_url_no_pad(bytes.as_slice())
}

/// The cursor of a comment's or a message's history.
pub fn encode_history_cursor(history_id: u128) -> (r: String)
    ensures
        r@ == cursor_text(CursorField::HistoryId, history_id),
{
    encode_cursor(CursorField::HistoryId, history_id)
}

/// The cursor of the notification list.
pub fn encode_notification_cursor(notification_id: u128) -> (r: String)
    ensures
        r@ == cursor_text(CursorField::NotificationId, notification_id),
{
    encode_cursor(CursorField::NotificationId, notification_id)
}

/// The cursor of the answer list.
pub fn encode_answer_list_cursor(answer_id: u128) -> (r: String)
    ensures
        r@ == cursor_text(CursorField::AnswerId, answer_id),
{
    encode_cursor(CursorField::AnswerId, answer_id)
}

/// The cursor of the user list.
pub fn encode_user_list_cursor(user_id: u128) -> (r: String)
    ensures
        r@ == cursor_text(CursorField::UserId, user_id),
{
    encode_cursor(CursorField::UserId, user_id)
}

/// The JSON bytes that a cursor carries; a cursor that is not base64 is
/// refused as an invalid query.
pub fn cursor_bytes(cursor: &str) -> (r: Result<Vec<u8>, PresentationError>)
    ensures
        match base64_url_no_pad_decoded(cursor@) {
            Some(bytes) => r matches Ok(v) && v@ == bytes,
            None => r matches Err(PresentationError::QueryRejection { cause }) && cause@
                == "Invalid cursor."@,
        },
{
    match decode_base64_url_no_pad(cursor) {
        Some(bytes) => Ok(bytes),
        None => Err(
            PresentationError::QueryRejection { cause: string_of(&chars_of("Invalid cursor.")) },
        ),
    }
}

} // verus!
