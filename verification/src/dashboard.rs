//! The local dashboard page and the access token that authenticates it.

use vstd::prelude::*;
use base64::Engine;
use crate::text::{
    chars_of, string_of, trim, trim_vec, ws_pred, class_pred, CharClass, replace_all, replace_vec,
    json_quote, json_string_encoding,
};

verus! {

/// The page template with every `__VEX_TOKEN__` replaced by the token as a
/// JSON string (`""` if it could not be encoded).
pub open spec fn spec_render(template: Seq<char>, token: Seq<char>) -> Seq<char> {
    replace_all(
        template,
        "__VEX_TOKEN__"@,
        match json_string_encoding(token) {
            Some(t) => t,
            None => "\"\""@,
        },
    )
}

/// The dashboard page for a daemon whose access token is `token`.
pub fn render(template: &str, token: &str) -> (r: String)
    ensures
        r@ == spec_render(template@, token@),
{
    let token_json = match json_quote(token) {
        Some(t) => chars_of(t.as_str()),
        None => chars_of("\"\""),
    };
    let pattern = chars_of("__VEX_TOKEN__");
    proof {
        reveal_strlit("__VEX_TOKEN__");
    }
    string_of(&replace_vec(&chars_of(template), &pattern, &token_json))
}

/// The stored access token, when the token file holds one (trimmed).
pub fn existing_access_token(file_text: &str) -> (r: Option<String>)
    ensures
        match r {
            Some(t) => t@ == trim(file_text@) && t@.len() > 0,
            None => trim(file_text@).len() == 0,
        },
{
    let t = trim_vec(&chars_of(file_text), &CharClass::Whitespace);
    proof {
        assert(class_pred(CharClass::Whitespace) == ws_pred());
    }
    if t.len() == 0 {
        None
    } else {
        Some(string_of(&t))
    }
}

/// URL-safe base64 text of `data` without padding.
pub uninterp spec fn base64_url_unpadded_text(data: Seq<u8>) -> Seq<char>;

/// `base64::engine::general_purpose::URL_SAFE_NO_PAD.encode` of 32 bytes.
#[verifier::external_body]
fn base64_url_unpadded(data: &[u8; 32]) -> (r: String)
    ensures
        r@ == base64_url_unpadded_text(data@),
{
    base64::engine::general_purpose::URL_SAFE_NO_PAD.encode(data)
}

/// A fresh access token from 32 random bytes: their unpadded URL-safe base64.
pub fn new_access_token(random: &[u8; 32]) -> (r: String)
    ensures
        r@ == base64_url_unpadded_text(random@),
{
    base64_url_unpadded(random)
}

} // verus!
