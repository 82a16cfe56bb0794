//! The preview route: `GET /preview/comment?text=...` renders a comment text
//! as it would be shown.
use vstd::prelude::*;
use crate::markdown::markdown_html;
use crate::preview::view::preview_render_view;
use crate::response::Reply;
use crate::routing::{is_path, method_named, method_of, path_of, request_path, Method};

verus! {

/// `/preview/comment`
pub open spec fn preview_path() -> Seq<char> {
    seq!['/', 'p', 'r', 'e', 'v', 'i', 'e', 'w', '/', 'c', 'o', 'm', 'm', 'e', 'n', 't']
}

/// Whether a request is a preview.
pub fn route(method: &str, url: &str) -> (b: bool)
    ensures
        b == (method_named(method@) == Method::Get && path_of(url@) == preview_path()),
{
    let p: [char; 16] = ['/', 'p', 'r', 'e', 'v', 'i', 'e', 'w', '/', 'c', 'o', 'm', 'm', 'e', 'n', 't'];
    assert(p@ == preview_path());
    method_of(method) == Method::Get && is_path(request_path(url), &p)
}

/// Where a request is in its handling.
pub enum PreviewState {
    Start,
    /// The `text` parameter is awaited.
    Text,
    Done,
}

/// What the server learnt.
pub enum PreviewEvent {
    /// The request arrived, with its method name and target.
    Request { method: String, url: String },
    /// The `text` parameter, if given.
    Text(Option<String>),
}

/// What the server does next.
pub enum PreviewAction {
    /// The request is not this handler's.
    Decline,
    /// Read the `text` parameter.
    ReadText,
    /// Answer the request.
    Respond(Reply),
}

/// Whether an event can arrive in a state.
pub open spec fn expected(state: PreviewState, event: PreviewEvent) -> bool {
    match (state, event) {
        (PreviewState::Start, PreviewEvent::Request { .. }) => true,
        (PreviewState::Text, PreviewEvent::Text(_)) => true,
        _ => false,
    }
}

/// Handles one event of a preview request: a preview reads the `text`
/// parameter and answers with its HTML.
pub fn process(state: PreviewState, event: PreviewEvent) -> (r: (PreviewState, PreviewAction))
    requires
        expected(state, event),
    ensures
        (state, event) matches (PreviewState::Start, PreviewEvent::Request { method, url }) ==> if method_named(method@) == Method::Get && path_of(url@) == preview_path() {
            r.0 is Text && r.1 is ReadText
        } else {
            r.0 is Done && r.1 is Decline
        },
        (state, event) matches (PreviewState::Text, PreviewEvent::Text(text)) ==> {
            &&& r.0 is Done
            &&& r.1 matches PreviewAction::Respond(Reply::Html { body })
            &&& vstd::utf8::encode_utf8(body@) == markdown_html(vstd::utf8::encode_utf8(
                match text {
                    Some(t) => t@,
                    None => Seq::empty(),
                },
            ))
        },
{
    match (state, event) {
        (PreviewState::Start, PreviewEvent::Request { method, url }) => {
            if route(method.as_str(), url.as_str()) {
                (PreviewState::Text, PreviewAction::ReadText)
            } else {
                (PreviewState::Done, PreviewAction::Decline)
            }
        },
        (PreviewState::Text, PreviewEvent::Text(text)) => {
            let body = preview_render_view(text);
            (PreviewState::Done, PreviewAction::Respond(Reply::Html { body }))
        },
        (_, _) => (PreviewState::Done, PreviewAction::Decline),
    }
}

} // verus!
