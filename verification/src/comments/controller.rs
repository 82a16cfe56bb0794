//! The comment routes:
//! `GET /threads/{uid}/comments` lists the comments of a thread,
//! `POST /threads/{uid}/comments` writes one, and
//! `DELETE /comments/{uid}` deletes one of the caller's own.
//!
//! The handler is a state machine: each event (what the request holds, or
//! what the store or the token answered) gives the next state and the action
//! that the server takes next.
use vstd::prelude::*;
use crate::common::ResponseContentType;
use crate::comments::view::comment_upload_view;
use crate::model::{Comment, Thread};
use crate::response::{Failure, Reply};
use crate::routing::{
    etag_matches, match_numbered, method_named, method_of, numbered_path, path_of, request_path,
    tag_matches, tag_readable, Method,
};
use crate::user::User;

verus! {

/// `/threads`
pub open spec fn threads_prefix() -> Seq<char> {
    seq!['/', 't', 'h', 'r', 'e', 'a', 'd', 's']
}

/// `/comments`
pub open spec fn comments_part() -> Seq<char> {
    seq!['/', 'c', 'o', 'm', 'm', 'e', 'n', 't', 's']
}

/// A route of this handler.
#[derive(Clone, Copy, Debug, PartialEq, Eq, Structural)]
pub enum CommentsRoute {
    /// List the comments of the thread.
    List(u32),
    /// Write a comment in the thread.
    Post(u32),
    /// Delete the comment.
    Delete(u32),
}

/// The route that a method and a path take.
pub open spec fn comments_route(method: Method, path: Seq<char>) -> Option<CommentsRoute> {
    let in_thread = numbered_path(path, threads_prefix(), comments_part());
    let comment = numbered_path(path, comments_part(), Seq::empty());
    if method == Method::Get && in_thread is Some {
        Some(CommentsRoute::List(in_thread->0))
    } else if method == Method::Post && in_thread is Some {
        Some(CommentsRoute::Post(in_thread->0))
    } else if method == Method::Delete && comment is Some {
        Some(CommentsRoute::Delete(comment->0))
    } else {
        None
    }
}

/// The route that a request takes.
pub fn route(method: &str, url: &str) -> (r: Option<CommentsRoute>)
    ensures
        r == comments_route(method_named(method@), path_of(url@)),
{
    let m = method_of(method);
    let path = request_path(url);
    let threads: [char; 8] = ['/', 't', 'h', 'r', 'e', 'a', 'd', 's'];
    let comments: [char; 9] = ['/', 'c', 'o', 'm', 'm', 'e', 'n', 't', 's'];
    let nothing: [char; 0] = [];
    assert(threads@ == threads_prefix());
    assert(comments@ == comments_part());
    assert(nothing@ == Seq::<char>::empty());
    let in_thread = match_numbered(path, &threads, &comments);
    let comment = match_numbered(path, &comments, &nothing);
    if m == Method::Get && in_thread.is_some() {
        Some(CommentsRoute::List(in_thread.unwrap()))
    } else if m == Method::Post && in_thread.is_some() {
        Some(CommentsRoute::Post(in_thread.unwrap()))
    } else if m == Method::Delete && comment.is_some() {
        Some(CommentsRoute::Delete(comment.unwrap()))
    } else {
        None
    }
}

/// Where a request is in its handling.
pub enum CommentsState {
    /// Nothing is known of the request yet.
    Start,
    /// Listing: the `If-None-Match` header is awaited.
    ListHeader { thread_uid: u32 },
    /// Listing: the current entity tag of the list is awaited.
    ListTag { thread_uid: u32, if_none_match: Option<String> },
    /// Writing: the form (content, token) is awaited.
    PostForm { thread_uid: u32 },
    /// Writing: the member that the token names is awaited.
    PostUser { thread_uid: u32, content: String },
    /// Writing: the thread is awaited.
    PostThread { content: String, user: User },
    /// Writing: the comment is being stored.
    PostStore,
    /// Deleting: the form (token) is awaited.
    DeleteForm { comment_uid: u32 },
    /// Deleting: the member that the token names is awaited.
    DeleteUser { comment_uid: u32 },
    /// Deleting: the comment is awaited.
    DeleteComment { user: User },
    /// Deleting: the comment is being removed.
    DeleteStore,
    /// The request is answered, or not this handler's.
    Done,
}

/// What the server learnt.
pub enum CommentsEvent {
    /// The request arrived, with its method name and target.
    Request { method: String, url: String },
    /// The value of the `If-None-Match` header, if any.
    IfNoneMatch(Option<String>),
    /// The current entity tag of the thread's comment list.
    Tag(String),
    /// The posted form of a new comment, (content, token); none where a
    /// field is missing or malformed.
    PostForm(Option<(String, String)>),
    /// The posted form of a deletion, the token; none where it is missing.
    DeleteForm(Option<String>),
    /// The member that the token names; none where it is not valid.
    TokenUser(Option<User>),
    /// The thread, if it exists.
    FoundThread(Option<Thread>),
    /// The comment, if it exists.
    FoundComment(Option<Comment>),
    /// The store finished the change.
    Stored,
}

/// What the server does next.
pub enum CommentsAction {
    /// The request is not this handler's.
    Decline,
    /// Read the `If-None-Match` header.
    ReadIfNoneMatch,
    /// Compute the entity tag of the thread's comment list.
    ComputeTag { thread_uid: u32 },
    /// List the thread's comments and answer with them, keeping the tag.
    ListComments { thread_uid: u32, etag: String },
    /// Read the posted form of a new comment.
    ReadPostForm,
    /// Read the posted form of a deletion.
    ReadDeleteForm,
    /// Open the token.
    OpenToken { token: String },
    /// Look the thread up.
    GetThread { uid: u32 },
    /// Look the comment up.
    GetComment { uid: u32 },
    /// Store the comment in the thread, written by the member.
    Upload { thread: Thread, user: User, content: String },
    /// Remove the comment.
    Delete { comment: Comment },
    /// Answer the request.
    Respond(Reply),
    /// Refuse the request.
    Fail(Failure),
}

/// Whether two members are the same one: their numbers are both unknown or
/// equal.
pub open spec fn same_member(a: crate::user::UserView, b: crate::user::UserView) -> bool {
    a.uid == b.uid
}

/// What the handler does with an event in a state.  Answers are described by
/// `answers`, since they are built afresh.
pub open spec fn comments_next(
    state: CommentsState,
    event: CommentsEvent,
) -> Option<(CommentsState, CommentsAction)> {
    match (state, event) {
        (CommentsState::Start, CommentsEvent::Request { method, url }) => match comments_route(
            method_named(method@),
            path_of(url@),
        ) {
            Some(CommentsRoute::List(uid)) => Some(
                (CommentsState::ListHeader { thread_uid: uid }, CommentsAction::ReadIfNoneMatch),
            ),
            Some(CommentsRoute::Post(uid)) => Some(
                (CommentsState::PostForm { thread_uid: uid }, CommentsAction::ReadPostForm),
            ),
            Some(CommentsRoute::Delete(uid)) => Some(
                (CommentsState::DeleteForm { comment_uid: uid }, CommentsAction::ReadDeleteForm),
            ),
            None => Some((CommentsState::Done, CommentsAction::Decline)),
        },
        (CommentsState::ListHeader { thread_uid }, CommentsEvent::IfNoneMatch(h)) => Some(
            (
                CommentsState::ListTag { thread_uid, if_none_match: h },
                CommentsAction::ComputeTag { thread_uid },
            ),
        ),
        (CommentsState::ListTag { thread_uid, if_none_match }, CommentsEvent::Tag(etag)) => {
            if tag_matches(if_none_match, etag@) {
                None
            } else {
                Some((CommentsState::Done, CommentsAction::ListComments { thread_uid, etag }))
            }
        },
        (CommentsState::PostForm { thread_uid }, CommentsEvent::PostForm(form)) => match form {
            Some((content, token)) => Some(
                (CommentsState::PostUser { thread_uid, content }, CommentsAction::OpenToken { token }),
            ),
            None => Some((CommentsState::Done, CommentsAction::Fail(Failure::BadParameter(404)))),
        },
        (CommentsState::PostUser { thread_uid, content }, CommentsEvent::TokenUser(user)) => match user {
            Some(user) => Some(
                (CommentsState::PostThread { content, user }, CommentsAction::GetThread {
                    uid: thread_uid,
                }),
            ),
            None => Some((CommentsState::Done, CommentsAction::Fail(Failure::NoPermission))),
        },
        (CommentsState::PostThread { content, user }, CommentsEvent::FoundThread(thread)) => match thread {
            Some(thread) => Some(
                (CommentsState::PostStore, CommentsAction::Upload { thread, user, content }),
            ),
            None => Some((CommentsState::Done, CommentsAction::Fail(Failure::NoThread))),
        },
        (CommentsState::DeleteForm { comment_uid }, CommentsEvent::DeleteForm(form)) => match form {
            Some(token) => Some(
                (CommentsState::DeleteUser { comment_uid }, CommentsAction::OpenToken { token }),
            ),
            None => Some((CommentsState::Done, CommentsAction::Fail(Failure::BadParameter(404)))),
        },
        (CommentsState::DeleteUser { comment_uid }, CommentsEvent::TokenUser(user)) => match user {
            Some(user) => Some(
                (CommentsState::DeleteComment { user }, CommentsAction::GetComment {
                    uid: comment_uid,
                }),
            ),
            None => Some((CommentsState::Done, CommentsAction::Fail(Failure::NoPermission))),
        },
        (CommentsState::DeleteComment { user }, CommentsEvent::FoundComment(comment)) => match comment {
            Some(comment) => if same_member(comment.spec_user(), user@) {
                Some((CommentsState::DeleteStore, CommentsAction::Delete { comment }))
            } else {
                Some((CommentsState::Done, CommentsAction::Fail(Failure::NoPermission)))
            },
            None => Some((CommentsState::Done, CommentsAction::Fail(Failure::NoSuchComment))),
        },
        _ => None,
    }
}

/// The answers that the handler builds: not modified, with the tag, where
/// the request names the current tag; `{}` as JSON where a comment was
/// written or deleted; nothing otherwise.
pub open spec fn answers(
    state: CommentsState,
    event: CommentsEvent,
    next: CommentsState,
    action: CommentsAction,
) -> bool {
    match (state, event) {
        (CommentsState::ListTag { thread_uid, if_none_match }, CommentsEvent::Tag(etag)) => {
            tag_matches(if_none_match, etag@) ==> {
                &&& next is Done
                &&& action matches CommentsAction::Respond(Reply::NotModified { etag: e })
                &&& e@ == etag@
            }
        },
        (CommentsState::PostStore, CommentsEvent::Stored) | (
            CommentsState::DeleteStore,
            CommentsEvent::Stored,
        ) => {
            &&& next is Done
            &&& action matches CommentsAction::Respond(Reply::Data { content_type, body })
            &&& content_type@ == "application/json"@
            &&& body@ == seq![0x7bu8, 0x7du8]
        },
        _ => true,
    }
}

/// Whether an event can arrive in a state: the events that the actions ask
/// for, and only readable `If-None-Match` values.
pub open spec fn expected(state: CommentsState, event: CommentsEvent) -> bool {
    match (state, event) {
        (CommentsState::Start, CommentsEvent::Request { .. }) => true,
        (CommentsState::ListHeader { .. }, CommentsEvent::IfNoneMatch(h)) => h matches Some(v)
            ==> tag_readable(v@),
        (CommentsState::ListTag { if_none_match, .. }, CommentsEvent::Tag(_)) => if_none_match matches Some(v) ==> tag_readable(v@),
        (CommentsState::PostForm { .. }, CommentsEvent::PostForm(_)) => true,
        (CommentsState::PostUser { .. }, CommentsEvent::TokenUser(_)) => true,
        (CommentsState::PostThread { .. }, CommentsEvent::FoundThread(_)) => true,
        (CommentsState::PostStore, CommentsEvent::Stored) => true,
        (CommentsState::DeleteForm { .. }, CommentsEvent::DeleteForm(_)) => true,
        (CommentsState::DeleteUser { .. }, CommentsEvent::TokenUser(_)) => true,
        (CommentsState::DeleteComment { .. }, CommentsEvent::FoundComment(_)) => true,
        (CommentsState::DeleteStore, CommentsEvent::Stored) => true,
        _ => false,
    }
}

/// Handles one event of a comment request.
pub fn process(state: CommentsState, event: CommentsEvent, ctype: ResponseContentType) -> (r: (
    CommentsState,
    CommentsAction,
))
    requires
        expected(state, event),
    ensures
        comments_next(state, event) matches Some(n) ==> r == n,
        answers(state, event, r.0, r.1),
{
    match (state, event) {
        (CommentsState::Start, CommentsEvent::Request { method, url }) => {
            match route(method.as_str(), url.as_str()) {
                Some(CommentsRoute::List(uid)) => (
                    CommentsState::ListHeader { thread_uid: uid },
                    CommentsAction::ReadIfNoneMatch,
                ),
                Some(CommentsRoute::Post(uid)) => (
                    CommentsState::PostForm { thread_uid: uid },
                    CommentsAction::ReadPostForm,
                ),
                Some(CommentsRoute::Delete(uid)) => (
                    CommentsState::DeleteForm { comment_uid: uid },
                    CommentsAction::ReadDeleteForm,
                ),
                None => (CommentsState::Done, CommentsAction::Decline),
            }
        },
        (CommentsState::ListHeader { thread_uid }, CommentsEvent::IfNoneMatch(h)) => (
            CommentsState::ListTag { thread_uid, if_none_match: h },
            CommentsAction::ComputeTag { thread_uid },
        ),
        (CommentsState::ListTag { thread_uid, if_none_match }, CommentsEvent::Tag(etag)) => {
            if etag_matches(&if_none_match, etag.as_str()) {
                (
                    CommentsState::Done,
                    CommentsAction::Respond(Reply::NotModified { etag: etag }),
                )
            } else {
                (CommentsState::Done, CommentsAction::ListComments { thread_uid, etag })
            }
        },
        (CommentsState::PostForm { thread_uid }, CommentsEvent::PostForm(form)) => match form {
            Some((content, token)) => (
                CommentsState::PostUser { thread_uid, content },
                CommentsAction::OpenToken { token },
            ),
            None => (CommentsState::Done, CommentsAction::Fail(Failure::BadParameter(404))),
        },
        (CommentsState::PostUser { thread_uid, content }, CommentsEvent::TokenUser(user)) => match user {
            Some(user) => (
                CommentsState::PostThread { content, user },
                CommentsAction::GetThread { uid: thread_uid },
            ),
            None => (CommentsState::Done, CommentsAction::Fail(Failure::NoPermission)),
        },
        (CommentsState::PostThread { content, user }, CommentsEvent::FoundThread(thread)) => match thread {
            Some(thread) => (CommentsState::PostStore, CommentsAction::Upload { thread, user, content }),
            None => (CommentsState::Done, CommentsAction::Fail(Failure::NoThread)),
        },
        (CommentsState::PostStore, CommentsEvent::Stored) => (
            CommentsState::Done,
            CommentsAction::Respond(comment_upload_view(ctype)),
        ),
        (CommentsState::DeleteForm { comment_uid }, CommentsEvent::DeleteForm(form)) => match form {
            Some(token) => (CommentsState::DeleteUser { comment_uid }, CommentsAction::OpenToken { token }),
            None => (CommentsState::Done, CommentsAction::Fail(Failure::BadParameter(404))),
        },
        (CommentsState::DeleteUser { comment_uid }, CommentsEvent::TokenUser(user)) => match user {
            Some(user) => (
                CommentsState::DeleteComment { user },
                CommentsAction::GetComment { uid: comment_uid },
            ),
            None => (CommentsState::Done, CommentsAction::Fail(Failure::NoPermission)),
        },
        (CommentsState::DeleteComment { user }, CommentsEvent::FoundComment(comment)) => match comment {
            Some(comment) => {
                let same = match (comment.get_user().get_uid(), user.get_uid()) {
                    (Some(a), Some(b)) => *a == *b,
                    (None, None) => true,
                    _ => false,
                };
                if same {
                    (CommentsState::DeleteStore, CommentsAction::Delete { comment })
                } else {
                    (CommentsState::Done, CommentsAction::Fail(Failure::NoPermission))
                }
            },
            None => (CommentsState::Done, CommentsAction::Fail(Failure::NoSuchComment)),
        },
        (CommentsState::DeleteStore, CommentsEvent::Stored) => (
            CommentsState::Done,
            CommentsAction::Respond(comment_upload_view(ctype)),
        ),
        (state, _) => (CommentsState::Done, CommentsAction::Decline),
    }
}

/// Only the member who wrote a comment deletes it; anyone else is refused.
pub proof fn only_the_writer_deletes_a_comment(user: User, comment: Comment)
    ensures
        comment.spec_user().uid == user@.uid ==> comments_next(
            CommentsState::DeleteComment { user },
            CommentsEvent::FoundComment(Some(comment)),
        ) == Some((CommentsState::DeleteStore, CommentsAction::Delete { comment })),
        comment.spec_user().uid != user@.uid ==> comments_next(
            CommentsState::DeleteComment { user },
            CommentsEvent::FoundComment(Some(comment)),
        ) == Some((CommentsState::Done, CommentsAction::Fail(Failure::NoPermission))),
{
}

/// A comment is stored as posted: the content of the form, written by the
/// member that the form's token names, in the thread of the route; a form
/// without a valid token stores nothing.
pub proof fn comments_are_stored_as_posted(
    thread_uid: u32,
    content: String,
    token: String,
    user: Option<User>,
    thread: Thread,
)
    ensures
        comments_next(
            CommentsState::PostForm { thread_uid },
            CommentsEvent::PostForm(Some((content, token))),
        ) == Some(
            (CommentsState::PostUser { thread_uid, content }, CommentsAction::OpenToken { token }),
        ),
        user is None ==> comments_next(
            CommentsState::PostUser { thread_uid, content },
            CommentsEvent::TokenUser(user),
        ) == Some((CommentsState::Done, CommentsAction::Fail(Failure::NoPermission))),
        user matches Some(u) ==> comments_next(
            CommentsState::PostUser { thread_uid, content },
            CommentsEvent::TokenUser(user),
        ) == Some(
            (
                CommentsState::PostThread { content, user: u },
                CommentsAction::GetThread { uid: thread_uid },
            ),
        ),
        user matches Some(u) ==> comments_next(
            CommentsState::PostThread { content, user: u },
            CommentsEvent::FoundThread(Some(thread)),
        ) == Some((CommentsState::PostStore, CommentsAction::Upload { thread, user: u, content })),
{
}

} // verus!
