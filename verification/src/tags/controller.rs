//! The tag routes: `GET /threads/{uid}/tags` lists the tags of a thread,
//! `GET /tags?q=...` lists the tags whose name holds `q`, and
//! `GET /tags/{tag}` shows the threads of a tag.
//!
//! The handler is a state machine: each event (what the request holds, or
//! what the store answered) gives the next state and the action that the
//! server takes next.
use vstd::prelude::*;
use crate::model::{Tag, Thread};
use crate::response::Reply;
use crate::routing::{
    is_path, match_named, match_numbered, method_named, method_of, named_path, numbered_path,
    path_of, request_path, Method,
};

verus! {

/// `/threads`
pub open spec fn threads_prefix() -> Seq<char> {
    seq!['/', 't', 'h', 'r', 'e', 'a', 'd', 's']
}

/// `/tags`
pub open spec fn tags_path() -> Seq<char> {
    seq!['/', 't', 'a', 'g', 's']
}

/// A route of this handler.
pub enum TagsRoute {
    /// The tags of the thread.
    ThreadTags(u32),
    /// The tags whose name holds the query.
    Search,
    /// The threads of the tag.
    Show(String),
}

/// The route that a method and a path take, the tag's name given by its
/// characters.
pub open spec fn tags_route_matches(method: Method, path: Seq<char>, r: Option<TagsRoute>) -> bool {
    let thread = numbered_path(path, threads_prefix(), tags_path());
    let named = named_path(path, tags_path());
    if method == Method::Get && thread is Some {
        r == Some(TagsRoute::ThreadTags(thread->0))
    } else if method == Method::Get && path == tags_path() {
        r == Some(TagsRoute::Search)
    } else if method == Method::Get && named is Some {
        r matches Some(TagsRoute::Show(name)) && name@ == named->0
    } else {
        r is None
    }
}

/// The route that a request takes.
pub fn route(method: &str, url: &str) -> (r: Option<TagsRoute>)
    ensures
        tags_route_matches(method_named(method@), path_of(url@), r),
{
    let threads: [char; 8] = ['/', 't', 'h', 'r', 'e', 'a', 'd', 's'];
    let tags: [char; 5] = ['/', 't', 'a', 'g', 's'];
    assert(threads@ == threads_prefix());
    assert(tags@ == tags_path());
    let m = method_of(method);
    let path = request_path(url);
    if m != Method::Get {
        return None;
    }
    if let Some(uid) = match_numbered(path, &threads, &tags) {
        return Some(TagsRoute::ThreadTags(uid));
    }
    if is_path(path, &tags) {
        return Some(TagsRoute::Search);
    }
    match match_named(path, &tags) {
        Some(name) => Some(TagsRoute::Show(name)),
        None => None,
    }
}

/// Where a request is in its handling.
pub enum TagsState {
    Start,
    /// The thread is awaited.
    Thread,
    /// The query parameter `q` is awaited.
    Query,
    Done,
}

/// What the server learnt.
pub enum TagsEvent {
    /// The request arrived, with its method name and target.
    Request { method: String, url: String },
    /// The thread, if it exists.
    FoundThread(Option<Thread>),
    /// The query parameter `q`, if given.
    Query(Option<String>),
}

/// What the server does next.
pub enum TagsAction {
    /// The request is not this handler's.
    Decline,
    /// Look the thread up.
    GetThread { uid: u32 },
    /// Answer with the tags of the thread.
    ShowThreadTags { thread: Thread },
    /// Read the query parameter `q`.
    ReadQuery,
    /// Answer with the tags whose name holds `q`.
    ListTags { q: String },
    /// Answer with the given tags.
    ShowTags { tags: Vec<Tag> },
    /// Answer with the threads of the tag.
    ShowTag { name: String },
    /// Answer the request.
    Respond(Reply),
}

/// Whether an event can arrive in a state.
pub open spec fn expected(state: TagsState, event: TagsEvent) -> bool {
    match (state, event) {
        (TagsState::Start, TagsEvent::Request { .. }) => true,
        (TagsState::Thread, TagsEvent::FoundThread(_)) => true,
        (TagsState::Query, TagsEvent::Query(_)) => true,
        _ => false,
    }
}

/// What the handler does with an event in a state.
pub open spec fn tags_step(state: TagsState, event: TagsEvent, next: TagsState, action: TagsAction) -> bool {
    match (state, event) {
        (TagsState::Start, TagsEvent::Request { method, url }) => {
            let m = method_named(method@);
            let path = path_of(url@);
            let thread = numbered_path(path, threads_prefix(), tags_path());
            let named = named_path(path, tags_path());
            if m == Method::Get && thread is Some {
                next is Thread && action == TagsAction::GetThread { uid: thread->0 }
            } else if m == Method::Get && path == tags_path() {
                next is Query && action is ReadQuery
            } else if m == Method::Get && named is Some {
                next is Done && (action matches TagsAction::ShowTag { name } && name@ == named->0)
            } else {
                next is Done && action is Decline
            }
        },
        (TagsState::Thread, TagsEvent::FoundThread(thread)) => match thread {
            Some(t) => next is Done && action == TagsAction::ShowThreadTags { thread: t },
            None => next is Done && action matches TagsAction::Respond(Reply::NotFound),
        },
        (TagsState::Query, TagsEvent::Query(q)) => match q {
            Some(q) => next is Done && action == TagsAction::ListTags { q },
            None => next is Done && (action matches TagsAction::ShowTags { tags } && tags@.len() == 0),
        },
        _ => true,
    }
}

/// Handles one event of a tag request.
pub fn process(state: TagsState, event: TagsEvent) -> (r: (TagsState, TagsAction))
    requires
        expected(state, event),
    ensures
        tags_step(state, event, r.0, r.1),
{
    match (state, event) {
        (TagsState::Start, TagsEvent::Request { method, url }) => {
            match route(method.as_str(), url.as_str()) {
                Some(TagsRoute::ThreadTags(uid)) => (TagsState::Thread, TagsAction::GetThread { uid }),
                Some(TagsRoute::Search) => (TagsState::Query, TagsAction::ReadQuery),
                Some(TagsRoute::Show(name)) => (TagsState::Done, TagsAction::ShowTag { name }),
                None => (TagsState::Done, TagsAction::Decline),
            }
        },
        (TagsState::Thread, TagsEvent::FoundThread(thread)) => match thread {
            Some(thread) => (TagsState::Done, TagsAction::ShowThreadTags { thread }),
            None => (TagsState::Done, TagsAction::Respond(Reply::NotFound)),
        },
        (TagsState::Query, TagsEvent::Query(q)) => match q {
            Some(q) => (TagsState::Done, TagsAction::ListTags { q }),
            None => (TagsState::Done, TagsAction::ShowTags { tags: Vec::new() }),
        },
        (_, _) => (TagsState::Done, TagsAction::Decline),
    }
}

} // verus!
