//! Replies of the comment routes.
use vstd::prelude::*;
use crate::common::ResponseContentType;
use crate::response::{empty_json, Reply};

verus! {

/// The reply to a comment written or deleted: `{}` as JSON, whatever the
/// format asked for.
pub fn comment_upload_view(content_type: ResponseContentType) -> (r: Reply)
    ensures
        r matches Reply::Data { content_type, body } && content_type@ == "application/json"@
            && body@ == seq![0x7bu8, 0x7du8],
{
    empty_json()
}

/// How a list of comments is answered.
pub enum CommentListForm {
    /// The comments page.
    Page,
    /// The comments as JSON.
    Json,
    /// This reply, whatever the comments.
    Fixed(Reply),
}

/// How a list of comments is answered in the format asked for: the page for
/// HTML, JSON for JSON, and an empty HTML body for XML.
pub fn comment_list_form(content_type: ResponseContentType) -> (r: CommentListForm)
    ensures
        content_type == ResponseContentType::Html ==> r is Page,
        content_type == ResponseContentType::Json ==> r is Json,
        content_type == ResponseContentType::Xml ==> (r matches CommentListForm::Fixed(
            Reply::Html { body },
        ) && body@ == Seq::<char>::empty()),
{
    match content_type {
        ResponseContentType::Html => CommentListForm::Page,
        ResponseContentType::Json => CommentListForm::Json,
        ResponseContentType::Xml => CommentListForm::Fixed(Reply::Html { body: String::new() }),
    }
}

} // verus!
