use vstd::prelude::*;

verus! {

/// The JSON text of a string value as `serde_json::to_string` writes it: the
/// text, escaped, between double quotes.
pub uninterp spec fn json_string_text(s: Seq<char>) -> Seq<char>;

/// A text that JSON writes unescaped: no control character (below U+0020),
/// no double quote and no backslash.
pub open spec fn json_plain(s: Seq<char>) -> bool {
    forall|i: int| 0 <= i < s.len() ==> (s[i] as u32) >= 0x20 && s[i] != '"' && s[i] != '\\'
}

/// Calls `serde_json::to_string` on a string slice. The contract names the
/// result `json_string_text(s@)` and states what the source shows of its shape
/// (`begin_string` and `end_string` each write a double quote); the escaping
/// in between is stated only for plain text, which the escape table of
/// `format_escaped_str_contents` passes through unchanged (it escapes bytes
/// below 0x20, the double quote and the backslash alone). Serialising into a vector cannot fail, so the
/// `unwrap` does not panic.
#[verifier::external_body]
fn json_string(s: &str) -> (r: String)
    ensures
        r@ == json_string_text(s@),
        r@.len() >= 2,
        r@[0] == '"',
        r@.last() == '"',
        json_plain(s@) ==> r@ == seq!['"'] + s@ + seq!['"'],
{
    serde_json::to_string(s).unwrap()
}

/// The answer to a request for something that does not exist.
pub struct NotFoundError {
    pub message: String,
}

impl NotFoundError {
    /// An error carrying `error_message`.
    pub fn new(error_message: &str) -> (r: Self)
        ensures
            r.message@ == error_message@,
    {
        let mut message = String::new();
        crate::text::append_str(&mut message, error_message);
        Self { message }
    }

    /// The HTTP answer: status 404, with the message as a JSON string for body
    /// (sent as `application/json`); a plain message is written between two
    /// double quotes as it is.
    pub fn into_response(self) -> (r: (u16, String))
        ensures
            r.0 == 404,
            r.1@ == json_string_text(self.message@),
            r.1@[0] == '"',
            json_plain(self.message@) ==> r.1@ == seq!['"'] + self.message@ + seq!['"'],
    {
        (404, json_string(self.message.as_str()))
    }
}

} // verus!
