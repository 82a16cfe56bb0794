//! Replies of the profile routes that need no page template.
use vstd::prelude::*;
use crate::common::ResponseContentType;
use crate::response::{empty_json, Reply};

verus! {

/// The reply to a profile changed: `{}` as JSON, whatever the format asked
/// for.
pub fn ok_view(content_type: ResponseContentType) -> (r: Reply)
    ensures
        r matches Reply::Data { content_type, body } && content_type@ == "application/json"@
            && body@ == seq![0x7bu8, 0x7du8],
{
    empty_json()
}

} // verus!
