//! Replies of the thread routes that need no page template.
use vstd::prelude::*;
use crate::common::ResponseContentType;
use crate::model::Thread;
use crate::response::Reply;
use crate::text::{push_signed_decimal, signed_decimal};

verus! {

/// `{"redirectURL":"/threads/<uid>"}`
pub open spec fn redirect_json(uid: i32) -> Seq<char> {
    "{\"redirectURL\":\"/threads/"@ + signed_decimal(uid as int) + "\"}"@
}

/// A page whose script sends the browser to `/threads/<uid>`.
pub open spec fn redirect_page(uid: i32) -> Seq<char> {
    "<!doctype html><html><head><script>document.location='/threads/"@ + signed_decimal(
        uid as int,
    ) + "'</script></head></html>"@
}

/// The reply to a thread just opened: where to find it, as JSON where JSON
/// is asked for, else as a page that goes there.
pub fn thread_create_response(content_type: ResponseContentType, thread: Thread) -> (r: Reply)
    ensures
        content_type == ResponseContentType::Json ==> (r matches Reply::Data { content_type, body }
            && content_type@ == "application/json"@ && body@ == vstd::utf8::encode_utf8(
            redirect_json(thread.spec_uid()),
        )),
        content_type != ResponseContentType::Json ==> (r matches Reply::Html { body } && body@
            == redirect_page(thread.spec_uid())),
{
    let uid = thread.get_uid();
    match content_type {
        ResponseContentType::Json => {
            let mut s = String::from_str("{\"redirectURL\":\"/threads/");
            push_signed_decimal(&mut s, uid as i64);
            s.append("\"}");
            let mut res = Vec::new();
            crate::markdown::push_lit(&mut res, s.as_str().as_bytes());
            Reply::Data { content_type: "application/json".to_owned(), body: res }
        },
        _ => {
            let mut s = String::from_str(
                "<!doctype html><html><head><script>document.location='/threads/",
            );
            push_signed_decimal(&mut s, uid as i64);
            s.append("'</script></head></html>");
            Reply::Html { body: s }
        },
    }
}

} // verus!
