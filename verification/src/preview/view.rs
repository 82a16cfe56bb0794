//! The preview of a comment.
use vstd::prelude::*;
use vstd::utf8::{encode_utf8, encode_utf8_valid_utf8, valid_utf8};
use crate::markdown::{markdown_html, render};
use crate::markdown_utf8::html_of_utf8_text_is_utf8;

verus! {

/// `String::from_utf8`: its documentation says that it gives back the string
/// whose UTF-8 bytes are `bytes` when they are valid UTF-8, and an error
/// otherwise.
#[verifier::external_body]
fn string_from_utf8(bytes: Vec<u8>) -> (r: Option<String>)
    ensures
        r is Some <==> valid_utf8(bytes@),
        r matches Some(s) ==> encode_utf8(s@) == bytes@,
{
    match String::from_utf8(bytes) {
        Ok(s) => Some(s),
        Err(_) => None,
    }
}

/// The HTML of the comment text to preview; no text previews as an empty
/// text.
pub fn preview_render_view(text: Option<String>) -> (r: String)
    ensures
        encode_utf8(r@) == markdown_html(encode_utf8(
            match text {
                Some(t) => t@,
                None => Seq::empty(),
            },
        )),
{
    let text: String = match text {
        Some(t) => t,
        None => String::new(),
    };
    let mut out = Vec::new();
    let _ = render(text.as_str()).to_html(&mut out);
    proof {
        encode_utf8_valid_utf8(text@);
        html_of_utf8_text_is_utf8(encode_utf8(text@));
    }
    match string_from_utf8(out) {
        Some(html) => html,
        None => String::new(),
    }
}

} // verus!
