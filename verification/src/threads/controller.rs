//! The thread routes:
//! `GET /` and `GET /threads` list threads (`q` searches subjects, `offset`
//! and `count` page through them), `POST /threads` opens one with its tags
//! and first comment, `GET /threads/{uid}` shows one, and
//! `DELETE /threads/{uid}` deletes one that the caller opened.
//!
//! The handler is a state machine: each event (what the request holds, or
//! what the store or the token answered) gives the next state and the action
//! that the server takes next.
use vstd::prelude::*;
use crate::common::ResponseContentType;
use crate::model::Thread;
use crate::response::{Failure, Reply};
use crate::routing::{
    etag_matches, is_path, match_numbered, method_named, method_of, numbered_path,
    parse_unsigned, parse_unsigned_text, path_of, request_path, tag_matches, tag_readable, Method,
};
use crate::text::{decimal, split, split_chars, trim, trim_chars, views};
use crate::text_laws::decimal_reads_back;
use crate::threads::view::{redirect_json, thread_create_response};
use crate::user::User;

verus! {

/// `/threads`
pub open spec fn threads_path() -> Seq<char> {
    seq!['/', 't', 'h', 'r', 'e', 'a', 'd', 's']
}

/// A route of this handler.
#[derive(Clone, Copy, Debug, PartialEq, Eq, Structural)]
pub enum ThreadsRoute {
    /// List threads.
    List,
    /// Open a thread.
    Create,
    /// Show the thread.
    Show(u32),
    /// Delete the thread.
    Delete(u32),
}

/// The route that a method and a path take.
pub open spec fn threads_route(method: Method, path: Seq<char>) -> Option<ThreadsRoute> {
    let numbered = numbered_path(path, threads_path(), Seq::empty());
    if method == Method::Get && (path == seq!['/'] || path == threads_path()) {
        Some(ThreadsRoute::List)
    } else if method == Method::Post && path == threads_path() {
        Some(ThreadsRoute::Create)
    } else if method == Method::Get && numbered is Some {
        Some(ThreadsRoute::Show(numbered->0))
    } else if method == Method::Delete && numbered is Some {
        Some(ThreadsRoute::Delete(numbered->0))
    } else {
        None
    }
}

/// The route that a request takes.
pub fn route(method: &str, url: &str) -> (r: Option<ThreadsRoute>)
    ensures
        r == threads_route(method_named(method@), path_of(url@)),
{
    let m = method_of(method);
    let path = request_path(url);
    let root: [char; 1] = ['/'];
    let threads: [char; 8] = ['/', 't', 'h', 'r', 'e', 'a', 'd', 's'];
    let nothing: [char; 0] = [];
    assert(root@ == seq!['/']);
    assert(threads@ == threads_path());
    assert(nothing@ == Seq::<char>::empty());
    let numbered = match_numbered(path, &threads, &nothing);
    if m == Method::Get && (is_path(path, &root) || is_path(path, &threads)) {
        Some(ThreadsRoute::List)
    } else if m == Method::Post && is_path(path, &threads) {
        Some(ThreadsRoute::Create)
    } else if m == Method::Get && numbered.is_some() {
        Some(ThreadsRoute::Show(numbered.unwrap()))
    } else if m == Method::Delete && numbered.is_some() {
        Some(ThreadsRoute::Delete(numbered.unwrap()))
    } else {
        None
    }
}

// ---------------------------------------------------------------------------
// Paging and tags
// ---------------------------------------------------------------------------

/// The number of threads on a page where the request does not say.
pub const DEFAULT_COUNT: usize = 25;

/// A number from a query parameter: its value where it reads as a `usize`,
/// `default` where it is missing or does not.
pub open spec fn number_or(param: Option<String>, default: usize) -> usize {
    match param {
        Some(v) => match parse_unsigned(v@, usize::MAX as nat) {
            Some(n) => n as usize,
            None => default,
        },
        None => default,
    }
}

/// A number from a query parameter, or `default`.
pub fn param_number(param: &Option<String>, default: usize) -> (n: usize)
    ensures
        n == number_or(*param, default),
{
    match param {
        Some(v) => match parse_unsigned_text(v.as_str(), usize::MAX as u64) {
            Some(n) => n as usize,
            None => default,
        },
        None => default,
    }
}

/// The tag names among comma-separated pieces: each piece trimmed, the
/// empty ones left out.
pub open spec fn tag_names_of(pieces: Seq<Seq<char>>) -> Seq<Seq<char>>
    decreases pieces.len(),
{
    if pieces.len() == 0 {
        Seq::empty()
    } else {
        let rest = tag_names_of(pieces.drop_last());
        let t = trim_chars(pieces.last());
        if t.len() != 0 {
            rest.push(t)
        } else {
            rest
        }
    }
}

/// Every tag name is non-blank and already trimmed: storing the names of a
/// thread's tags never stores an empty name or surrounding whitespace.
pub proof fn tag_names_are_trimmed(pieces: Seq<Seq<char>>)
    ensures
        forall|i: int|
            0 <= i < tag_names_of(pieces).len() ==> #[trigger] tag_names_of(pieces)[i].len() > 0
                && trim_chars(tag_names_of(pieces)[i]) == tag_names_of(pieces)[i],
    decreases pieces.len(),
{
    if pieces.len() > 0 {
        tag_names_are_trimmed(pieces.drop_last());
        crate::text_laws::trim_is_idempotent(pieces.last());
        let rest = tag_names_of(pieces.drop_last());
        let t = trim_chars(pieces.last());
        if t.len() != 0 {
            assert forall|i: int| 0 <= i < rest.push(t).len() implies #[trigger] rest.push(t)[i].len()
                > 0 && trim_chars(rest.push(t)[i]) == rest.push(t)[i] by {
                if i < rest.len() {
                    assert(rest.push(t)[i] == rest[i]);
                }
            }
        }
    }
}

/// Every piece counts on its own: the tag names of pieces one after the
/// other are the names of the first pieces, then those of the rest, so no
/// name is dropped, however many there are.
pub proof fn tag_names_of_joined_pieces(p: Seq<Seq<char>>, q: Seq<Seq<char>>)
    ensures
        tag_names_of(p + q) == tag_names_of(p) + tag_names_of(q),
    decreases q.len(),
{
    if q.len() == 0 {
        assert(p + q == p);
        assert(tag_names_of(p) + tag_names_of(q) == tag_names_of(p));
    } else {
        assert((p + q).drop_last() == p + q.drop_last());
        assert((p + q).last() == q.last());
        tag_names_of_joined_pieces(p, q.drop_last());
        let t = trim_chars(q.last());
        if t.len() != 0 {
            assert(tag_names_of(p) + tag_names_of(q.drop_last()).push(t) == (tag_names_of(p)
                + tag_names_of(q.drop_last())).push(t));
        }
    }
}

/// One piece names one tag, its trimmed text, unless it is blank.
pub proof fn tag_name_of_one_piece(x: Seq<char>)
    ensures
        tag_names_of(seq![x]) == if trim_chars(x).len() > 0 {
            seq![trim_chars(x)]
        } else {
            Seq::<Seq<char>>::empty()
        },
{
    assert(seq![x].drop_last() == Seq::<Seq<char>>::empty());
    assert(seq![x].last() == x);
    assert(tag_names_of(Seq::<Seq<char>>::empty()) == Seq::<Seq<char>>::empty());
    assert(Seq::<Seq<char>>::empty().push(trim_chars(x)) == seq![trim_chars(x)]);
}

/// The names of the tags given as one comma-separated text.
pub fn tag_names(tags: &str) -> (r: Vec<String>)
    ensures
        views(r@) == tag_names_of(split_chars(tags@, ',')),
{
    let pieces = split(tags, ',');
    let ghost ps = views(pieces@);
    let mut names: Vec<String> = Vec::new();
    let mut i: usize = 0;
    assert(ps.take(0) == Seq::<Seq<char>>::empty());
    assert(views(names@) == Seq::<Seq<char>>::empty());
    while i < pieces.len()
        invariant
            i <= pieces@.len(),
            ps == views(pieces@),
            ps == split_chars(tags@, ','),
            views(names@) == tag_names_of(ps.take(i as int)),
        decreases pieces@.len() - i,
    {
        let t = trim(pieces[i].as_str());
        assert(ps.take(i + 1).drop_last() == ps.take(i as int));
        assert(ps.take(i + 1).last() == pieces@[i as int]@);
        if t.unicode_len() != 0 {
            let name = t.to_owned();
            assert(views(names@.push(name)) == views(names@).push(name@));
            names.push(name);
        }
        i = i + 1;
    }
    assert(ps.take(pieces@.len() as int) == ps);
    names
}

// ---------------------------------------------------------------------------
// The handler
// ---------------------------------------------------------------------------

/// Where a request is in its handling.
pub enum ThreadsState {
    /// Nothing is known of the request yet.
    Start,
    /// Listing: the query and the `If-None-Match` header are awaited.
    ListQuery,
    /// Listing: the current entity tag of the page is awaited.
    ListTag { q: Option<String>, offset: usize, count: usize, if_none_match: Option<String> },
    /// Opening: the form is awaited.
    CreateForm,
    /// Opening: the member that the token names is awaited.
    CreateUser { subject: String, tags: String, comment: String },
    /// Opening: the thread is being stored.
    CreateStore { tags: String },
    /// Opening: the tags are being stored.
    CreateTags { thread: Thread },
    /// Showing: the thread is awaited.
    Show,
    /// Deleting: the form (token) is awaited.
    DeleteForm { uid: u32 },
    /// Deleting: the member that the token names is awaited.
    DeleteUser { uid: u32 },
    /// Deleting: the thread is awaited.
    DeleteThread { user: User },
    /// Deleting: the thread is being removed.
    DeleteStore,
    /// The request is answered, or not this handler's.
    Done,
}

/// The posted form of a new thread.
pub struct ThreadForm {
    pub token: String,
    pub subject: String,
    pub tags: String,
    pub comment: String,
}

/// What the server learnt.
pub enum ThreadsEvent {
    /// The request arrived, with its method name and target.
    Request { method: String, url: String },
    /// The query parameters `q`, `offset` and `count`, and the
    /// `If-None-Match` header, each if given.
    ListQuery {
        q: Option<String>,
        offset: Option<String>,
        count: Option<String>,
        if_none_match: Option<String>,
    },
    /// The current entity tag of the page.
    Tag(String),
    /// The posted form of a new thread; none where a field is missing.
    CreateForm(Option<ThreadForm>),
    /// The posted form of a deletion, the token; none where it is missing.
    DeleteForm(Option<String>),
    /// The member that the token names; none where it is not valid.
    TokenUser(Option<User>),
    /// The thread just opened, as stored; none where it could not be.
    Opened(Option<Thread>),
    /// The thread, if it exists.
    FoundThread(Option<Thread>),
    /// The store finished the change.
    Stored,
}

/// What the server does next.
pub enum ThreadsAction {
    /// The request is not this handler's.
    Decline,
    /// Read the query parameters and the `If-None-Match` header.
    ReadListQuery,
    /// Compute the entity tag of the page that starts at `offset`.
    ComputeTag { offset: usize, q: Option<String> },
    /// List `count` threads from `offset` on and answer with them, keeping
    /// the tag.
    ListThreads { q: Option<String>, offset: usize, count: usize, etag: String },
    /// Read the posted form of a new thread.
    ReadCreateForm,
    /// Read the posted form of a deletion.
    ReadDeleteForm,
    /// Open the token.
    OpenToken { token: String },
    /// Store a new thread opened by the member, with its first comment, and
    /// read it back.
    Upload { subject: String, user: User, comment: String },
    /// Store the tags of the thread.
    PutTags { names: Vec<String>, thread_uid: i32 },
    /// Look the thread up.
    GetThread { uid: u32 },
    /// Answer with the thread.
    ShowThread { thread: Thread },
    /// Remove the thread.
    Delete { thread: Thread },
    /// Answer the request.
    Respond(Reply),
    /// Refuse the request.
    Fail(Failure),
}

/// What the handler does with an event in a state, where the next action
/// moves values that it was given.  The other actions are described by
/// `answers`.
pub open spec fn threads_next(state: ThreadsState, event: ThreadsEvent) -> Option<
    (ThreadsState, ThreadsAction),
> {
    match (state, event) {
        (ThreadsState::Start, ThreadsEvent::Request { method, url }) => match threads_route(
            method_named(method@),
            path_of(url@),
        ) {
            Some(ThreadsRoute::List) => Some((ThreadsState::ListQuery, ThreadsAction::ReadListQuery)),
            Some(ThreadsRoute::Create) => Some(
                (ThreadsState::CreateForm, ThreadsAction::ReadCreateForm),
            ),
            Some(ThreadsRoute::Show(uid)) => Some(
                (ThreadsState::Show, ThreadsAction::GetThread { uid }),
            ),
            Some(ThreadsRoute::Delete(uid)) => Some(
                (ThreadsState::DeleteForm { uid }, ThreadsAction::ReadDeleteForm),
            ),
            None => Some((ThreadsState::Done, ThreadsAction::Decline)),
        },
        (ThreadsState::ListTag { q, offset, count, if_none_match }, ThreadsEvent::Tag(etag)) => {
            if tag_matches(if_none_match, etag@) {
                None
            } else {
                Some((ThreadsState::Done, ThreadsAction::ListThreads { q, offset, count, etag }))
            }
        },
        (ThreadsState::CreateForm, ThreadsEvent::CreateForm(form)) => match form {
            Some(f) => Some(
                (
                    ThreadsState::CreateUser { subject: f.subject, tags: f.tags, comment: f.comment },
                    ThreadsAction::OpenToken { token: f.token },
                ),
            ),
            None => Some((ThreadsState::Done, ThreadsAction::Fail(Failure::BadParameter(404)))),
        },
        (ThreadsState::CreateUser { subject, tags, comment }, ThreadsEvent::TokenUser(user)) => match user {
            Some(user) => Some(
                (ThreadsState::CreateStore { tags }, ThreadsAction::Upload { subject, user, comment }),
            ),
            None => Some((ThreadsState::Done, ThreadsAction::Fail(Failure::NoPermission))),
        },
        (ThreadsState::CreateStore { tags }, ThreadsEvent::Opened(thread)) => match thread {
            Some(_) => None,
            None => Some((ThreadsState::Done, ThreadsAction::Fail(Failure::ThreadNotCreated))),
        },
        (ThreadsState::Show, ThreadsEvent::FoundThread(thread)) => match thread {
            Some(thread) => Some((ThreadsState::Done, ThreadsAction::ShowThread { thread })),
            None => Some((ThreadsState::Done, ThreadsAction::Fail(Failure::NoSuchThread))),
        },
        (ThreadsState::DeleteForm { uid }, ThreadsEvent::DeleteForm(form)) => match form {
            Some(token) => Some((ThreadsState::DeleteUser { uid }, ThreadsAction::OpenToken { token })),
            None => Some((ThreadsState::Done, ThreadsAction::Fail(Failure::BadParameter(404)))),
        },
        (ThreadsState::DeleteUser { uid }, ThreadsEvent::TokenUser(user)) => match user {
            Some(user) => Some((ThreadsState::DeleteThread { user }, ThreadsAction::GetThread { uid })),
            None => Some((ThreadsState::Done, ThreadsAction::Fail(Failure::NoPermission))),
        },
        (ThreadsState::DeleteThread { user }, ThreadsEvent::FoundThread(thread)) => match thread {
            Some(thread) => if thread.spec_opener().uid == user@.uid {
                Some((ThreadsState::DeleteStore, ThreadsAction::Delete { thread }))
            } else {
                Some((ThreadsState::Done, ThreadsAction::Fail(Failure::NoPermission)))
            },
            None => Some((ThreadsState::Done, ThreadsAction::Fail(Failure::NoSuchThread))),
        },
        _ => None,
    }
}

/// The steps that build values afresh: the paging read from the query, the
/// tags stored for a thread just opened, not-modified answers, and the
/// final answers.
pub open spec fn answers(
    state: ThreadsState,
    event: ThreadsEvent,
    ctype: ResponseContentType,
    next: ThreadsState,
    action: ThreadsAction,
) -> bool {
    match (state, event) {
        (ThreadsState::ListQuery, ThreadsEvent::ListQuery { q, offset, count, if_none_match }) => {
            &&& next matches ThreadsState::ListTag {
                q: q2,
                offset: o,
                count: c,
                if_none_match: h,
            }
            &&& q2 == q
            &&& o == number_or(offset, 0)
            &&& c == number_or(count, DEFAULT_COUNT)
            &&& h == if_none_match
            &&& action matches ThreadsAction::ComputeTag { offset: o2, q: q3 }
            &&& o2 == o
            &&& opt_chars(q3) == opt_chars(q)
        },
        (ThreadsState::ListTag { if_none_match, .. }, ThreadsEvent::Tag(etag)) => {
            tag_matches(if_none_match, etag@) ==> {
                &&& next is Done
                &&& action matches ThreadsAction::Respond(Reply::NotModified { etag: e })
                &&& e@ == etag@
            }
        },
        (ThreadsState::CreateStore { tags }, ThreadsEvent::Opened(thread)) => {
            thread matches Some(t) ==> {
                &&& next == (ThreadsState::CreateTags { thread: t })
                &&& action matches ThreadsAction::PutTags { names, thread_uid }
                &&& views(names@) == tag_names_of(split_chars(tags@, ','))
                &&& thread_uid == t.spec_uid()
            }
        },
        (ThreadsState::CreateTags { thread }, ThreadsEvent::Stored) => {
            &&& next is Done
            &&& action matches ThreadsAction::Respond(r)
            &&& ctype == ResponseContentType::Json ==> (r matches Reply::Data { content_type, body }
                && content_type@ == "application/json"@ && body@ == vstd::utf8::encode_utf8(
                redirect_json(thread.spec_uid()),
            ))
            &&& ctype != ResponseContentType::Json ==> (r matches Reply::Html { body } && body@
                == crate::threads::view::redirect_page(thread.spec_uid()))
        },
        (ThreadsState::DeleteStore, ThreadsEvent::Stored) => {
            &&& next is Done
            &&& action matches ThreadsAction::Respond(Reply::TextAsJson { body })
            &&& body@ == "{}"@
        },
        _ => true,
    }
}

/// The characters of a text that may be missing.
pub open spec fn opt_chars(s: Option<String>) -> Option<Seq<char>> {
    match s {
        Some(v) => Some(v@),
        None => None,
    }
}

/// Whether an event can arrive in a state: the events that the actions ask
/// for, and only readable `If-None-Match` values.
pub open spec fn expected(state: ThreadsState, event: ThreadsEvent) -> bool {
    match (state, event) {
        (ThreadsState::Start, ThreadsEvent::Request { .. }) => true,
        (ThreadsState::ListQuery, ThreadsEvent::ListQuery { if_none_match, .. }) => if_none_match matches Some(
            v,
        ) ==> tag_readable(v@),
        (ThreadsState::ListTag { if_none_match, .. }, ThreadsEvent::Tag(_)) => if_none_match matches Some(v) ==> tag_readable(v@),
        (ThreadsState::CreateForm, ThreadsEvent::CreateForm(_)) => true,
        (ThreadsState::CreateUser { .. }, ThreadsEvent::TokenUser(_)) => true,
        (ThreadsState::CreateStore { .. }, ThreadsEvent::Opened(_)) => true,
        (ThreadsState::CreateTags { .. }, ThreadsEvent::Stored) => true,
        (ThreadsState::Show, ThreadsEvent::FoundThread(_)) => true,
        (ThreadsState::DeleteForm { .. }, ThreadsEvent::DeleteForm(_)) => true,
        (ThreadsState::DeleteUser { .. }, ThreadsEvent::TokenUser(_)) => true,
        (ThreadsState::DeleteThread { .. }, ThreadsEvent::FoundThread(_)) => true,
        (ThreadsState::DeleteStore, ThreadsEvent::Stored) => true,
        _ => false,
    }
}

/// A copy of a text that may be missing.
fn clone_opt(s: &Option<String>) -> (r: Option<String>)
    ensures
        opt_chars(r) == opt_chars(*s),
{
    match s {
        Some(v) => Some(v.as_str().to_owned()),
        None => None,
    }
}

/// Handles one event of a thread request.
pub fn process(state: ThreadsState, event: ThreadsEvent, ctype: ResponseContentType) -> (r: (
    ThreadsState,
    ThreadsAction,
))
    requires
        expected(state, event),
    ensures
        threads_next(state, event) matches Some(n) ==> r == n,
        answers(state, event, ctype, r.0, r.1),
{
    match (state, event) {
        (ThreadsState::Start, ThreadsEvent::Request { method, url }) => {
            match route(method.as_str(), url.as_str()) {
                Some(ThreadsRoute::List) => (ThreadsState::ListQuery, ThreadsAction::ReadListQuery),
                Some(ThreadsRoute::Create) => (ThreadsState::CreateForm, ThreadsAction::ReadCreateForm),
                Some(ThreadsRoute::Show(uid)) => (ThreadsState::Show, ThreadsAction::GetThread { uid }),
                Some(ThreadsRoute::Delete(uid)) => (
                    ThreadsState::DeleteForm { uid },
                    ThreadsAction::ReadDeleteForm,
                ),
                None => (ThreadsState::Done, ThreadsAction::Decline),
            }
        },
        (ThreadsState::ListQuery, ThreadsEvent::ListQuery { q, offset, count, if_none_match }) => {
            let offset = param_number(&offset, 0);
            let count = param_number(&count, DEFAULT_COUNT);
            let q2 = clone_opt(&q);
            (
                ThreadsState::ListTag { q, offset, count, if_none_match },
                ThreadsAction::ComputeTag { offset, q: q2 },
            )
        },
        (ThreadsState::ListTag { q, offset, count, if_none_match }, ThreadsEvent::Tag(etag)) => {
            if etag_matches(&if_none_match, etag.as_str()) {
                (ThreadsState::Done, ThreadsAction::Respond(Reply::NotModified { etag }))
            } else {
                (ThreadsState::Done, ThreadsAction::ListThreads { q, offset, count, etag })
            }
        },
        (ThreadsState::CreateForm, ThreadsEvent::CreateForm(form)) => match form {
            Some(f) => (
                ThreadsState::CreateUser { subject: f.subject, tags: f.tags, comment: f.comment },
                ThreadsAction::OpenToken { token: f.token },
            ),
            None => (ThreadsState::Done, ThreadsAction::Fail(Failure::BadParameter(404))),
        },
        (ThreadsState::CreateUser { subject, tags, comment }, ThreadsEvent::TokenUser(user)) => match user {
            Some(user) => (
                ThreadsState::CreateStore { tags },
                ThreadsAction::Upload { subject, user, comment },
            ),
            None => (ThreadsState::Done, ThreadsAction::Fail(Failure::NoPermission)),
        },
        (ThreadsState::CreateStore { tags }, ThreadsEvent::Opened(thread)) => match thread {
            Some(thread) => {
                let names = tag_names(tags.as_str());
                let thread_uid = thread.get_uid();
                (ThreadsState::CreateTags { thread }, ThreadsAction::PutTags { names, thread_uid })
            },
            None => (ThreadsState::Done, ThreadsAction::Fail(Failure::ThreadNotCreated)),
        },
        (ThreadsState::CreateTags { thread }, ThreadsEvent::Stored) => (
            ThreadsState::Done,
            ThreadsAction::Respond(thread_create_response(ctype, thread)),
        ),
        (ThreadsState::Show, ThreadsEvent::FoundThread(thread)) => match thread {
            Some(thread) => (ThreadsState::Done, ThreadsAction::ShowThread { thread }),
            None => (ThreadsState::Done, ThreadsAction::Fail(Failure::NoSuchThread)),
        },
        (ThreadsState::DeleteForm { uid }, ThreadsEvent::DeleteForm(form)) => match form {
            Some(token) => (ThreadsState::DeleteUser { uid }, ThreadsAction::OpenToken { token }),
            None => (ThreadsState::Done, ThreadsAction::Fail(Failure::BadParameter(404))),
        },
        (ThreadsState::DeleteUser { uid }, ThreadsEvent::TokenUser(user)) => match user {
            Some(user) => (ThreadsState::DeleteThread { user }, ThreadsAction::GetThread { uid }),
            None => (ThreadsState::Done, ThreadsAction::Fail(Failure::NoPermission)),
        },
        (ThreadsState::DeleteThread { user }, ThreadsEvent::FoundThread(thread)) => match thread {
            Some(thread) => {
                let same = match (thread.get_opener().get_uid(), user.get_uid()) {
                    (Some(a), Some(b)) => *a == *b,
                    (None, None) => true,
                    _ => false,
                };
                if same {
                    (ThreadsState::DeleteStore, ThreadsAction::Delete { thread })
                } else {
                    (ThreadsState::Done, ThreadsAction::Fail(Failure::NoPermission))
                }
            },
            None => (ThreadsState::Done, ThreadsAction::Fail(Failure::NoSuchThread)),
        },
        (ThreadsState::DeleteStore, ThreadsEvent::Stored) => {
            (ThreadsState::Done, ThreadsAction::Respond(Reply::TextAsJson { body: "{}".to_owned() }))
        },
        (_, _) => (ThreadsState::Done, ThreadsAction::Decline),
    }
}

/// A paging parameter written in decimal is read as its number; a missing
/// one gives the default.
pub proof fn paging_numbers_are_read(param: String, n: usize, default: usize)
    requires
        param@ == decimal(n as nat),
    ensures
        number_or(Some(param), default) == n,
        number_or(None, default) == default,
{
    decimal_reads_back(n as nat, usize::MAX as nat);
}

/// The list is answered "not modified" exactly when the request names the
/// current entity tag, quoted or not; otherwise the page is listed with the
/// paging it asked for, keeping the tag.
pub proof fn listing_answers_not_modified_for_the_current_tag(
    q: Option<String>,
    offset: usize,
    count: usize,
    header: Option<String>,
    etag: String,
    ctype: ResponseContentType,
    next: ThreadsState,
    action: ThreadsAction,
)
    requires
        header matches Some(h) ==> tag_readable(h@),
        threads_next(
            ThreadsState::ListTag { q, offset, count, if_none_match: header },
            ThreadsEvent::Tag(etag),
        ) matches Some(n) ==> (next, action) == n,
        answers(
            ThreadsState::ListTag { q, offset, count, if_none_match: header },
            ThreadsEvent::Tag(etag),
            ctype,
            next,
            action,
        ),
    ensures
        header matches Some(h) && (h@ == seq!['"'] + etag@ + seq!['"'] || (h@.len() > 0 && h@[0]
            != '"' && h@ == etag@)) ==> (action matches ThreadsAction::Respond(
            Reply::NotModified { etag: e },
        ) && e@ == etag@),
        header is None ==> action == (ThreadsAction::ListThreads { q, offset, count, etag }),
        header matches Some(h) && h@.len() > 0 && h@[0] == '"' && h@.subrange(1, h@.len() - 1)
            != etag@ ==> action == (ThreadsAction::ListThreads { q, offset, count, etag }),
{
    if let Some(h) = header {
        if h@ == seq!['"'] + etag@ + seq!['"'] {
            assert(h@.subrange(1, h@.len() - 1) == etag@);
        }
    }
}

/// Only the member who opened a thread deletes it; anyone else is refused.
pub proof fn only_the_opener_deletes_a_thread(user: User, thread: Thread)
    ensures
        thread.spec_opener().uid == user@.uid ==> threads_next(
            ThreadsState::DeleteThread { user },
            ThreadsEvent::FoundThread(Some(thread)),
        ) == Some((ThreadsState::DeleteStore, ThreadsAction::Delete { thread })),
        thread.spec_opener().uid != user@.uid ==> threads_next(
            ThreadsState::DeleteThread { user },
            ThreadsEvent::FoundThread(Some(thread)),
        ) == Some((ThreadsState::Done, ThreadsAction::Fail(Failure::NoPermission))),
{
}

/// A thread is opened as posted: with the subject and first comment of the
/// form, by the member that the form's token names, and then its tags are
/// the names in the form's tag text, stored for the thread just opened; a
/// form without a valid token opens nothing.
pub proof fn threads_are_opened_as_posted(
    form: ThreadForm,
    user: Option<User>,
    thread: Thread,
    ctype: ResponseContentType,
    next: ThreadsState,
    action: ThreadsAction,
)
    requires
        answers(
            ThreadsState::CreateStore { tags: form.tags },
            ThreadsEvent::Opened(Some(thread)),
            ctype,
            next,
            action,
        ),
    ensures
        threads_next(ThreadsState::CreateForm, ThreadsEvent::CreateForm(Some(form))) == Some(
            (
                ThreadsState::CreateUser {
                    subject: form.subject,
                    tags: form.tags,
                    comment: form.comment,
                },
                ThreadsAction::OpenToken { token: form.token },
            ),
        ),
        user is None ==> threads_next(
            ThreadsState::CreateUser {
                subject: form.subject,
                tags: form.tags,
                comment: form.comment,
            },
            ThreadsEvent::TokenUser(user),
        ) == Some((ThreadsState::Done, ThreadsAction::Fail(Failure::NoPermission))),
        user matches Some(u) ==> threads_next(
            ThreadsState::CreateUser {
                subject: form.subject,
                tags: form.tags,
                comment: form.comment,
            },
            ThreadsEvent::TokenUser(user),
        ) == Some(
            (
                ThreadsState::CreateStore { tags: form.tags },
                ThreadsAction::Upload { subject: form.subject, user: u, comment: form.comment },
            ),
        ),
        action matches ThreadsAction::PutTags { names, thread_uid } && thread_uid
            == thread.spec_uid() && views(names@) == tag_names_of(split_chars(form.tags@, ',')),
{
}

} // verus!
