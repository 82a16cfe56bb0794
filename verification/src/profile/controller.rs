//! The profile routes: `GET /profile` shows the profile page, and
//! `PUT /profile` changes the caller's nickname and, where a new one is
//! given, password; the current password must be given.
//!
//! The handler is a state machine: each event (what the request holds, or
//! what the store or the token answered) gives the next state and the action
//! that the server takes next.
use vstd::prelude::*;
use crate::common::{sha3_512_hex, to_sha3, ResponseContentType};
use crate::profile::view::ok_view;
use crate::response::{Failure, Reply};
use crate::routing::{is_path, method_named, method_of, path_of, request_path, Method};
use crate::text::{trim, trim_chars};
use crate::user::{User, UserView};

verus! {

/// `/profile`
pub open spec fn profile_path() -> Seq<char> {
    seq!['/', 'p', 'r', 'o', 'f', 'i', 'l', 'e']
}

/// A route of this handler.
#[derive(Clone, Copy, Debug, PartialEq, Eq, Structural)]
pub enum ProfileRoute {
    /// Show the profile page.
    Show,
    /// Change the profile.
    Change,
}

/// The route that a method and a path take.
pub open spec fn profile_route(method: Method, path: Seq<char>) -> Option<ProfileRoute> {
    if method == Method::Get && path == profile_path() {
        Some(ProfileRoute::Show)
    } else if method == Method::Put && path == profile_path() {
        Some(ProfileRoute::Change)
    } else {
        None
    }
}

/// The route that a request takes.
pub fn route(method: &str, url: &str) -> (r: Option<ProfileRoute>)
    ensures
        r == profile_route(method_named(method@), path_of(url@)),
{
    let p: [char; 8] = ['/', 'p', 'r', 'o', 'f', 'i', 'l', 'e'];
    assert(p@ == profile_path());
    let m = method_of(method);
    let is_profile = is_path(request_path(url), &p);
    if m == Method::Get && is_profile {
        Some(ProfileRoute::Show)
    } else if m == Method::Put && is_profile {
        Some(ProfileRoute::Change)
    } else {
        None
    }
}

/// The stored form of the password that a profile change asks for: the new
/// one, trimmed, where it is not blank; the current one, trimmed, otherwise.
pub open spec fn next_password(current: Seq<char>, new: Seq<char>) -> Seq<char> {
    if trim_chars(new).len() != 0 {
        sha3_512_hex(trim_chars(new))
    } else {
        sha3_512_hex(trim_chars(current))
    }
}

/// The posted form of a profile change.
pub struct ProfileForm {
    pub nickname: String,
    pub current_password: String,
    pub new_password: String,
    pub token: String,
}

/// Where a request is in its handling.
pub enum ProfileState {
    Start,
    /// The form is awaited.
    Form,
    /// The member that the token names is awaited.
    TokenUser { nickname: String, current_password: String, new_password: String },
    /// The member's stored record is awaited.
    Record { uid: i32, nickname: String, current_password: String, new_password: String },
    /// The change is being stored.
    Store,
    Done,
}

/// What the server learnt.
pub enum ProfileEvent {
    /// The request arrived, with its method name and target.
    Request { method: String, url: String },
    /// The posted form; none where a field is missing.
    Form(Option<ProfileForm>),
    /// The member that the token names; none where it is not valid.
    TokenUser(Option<User>),
    /// The stored record of the member with the token's e-mail address, if
    /// there is one.
    Record(Option<User>),
    /// The store finished the change.
    Stored,
}

/// What the server does next.
pub enum ProfileAction {
    /// The request is not this handler's.
    Decline,
    /// Answer with the profile page.
    ShowProfile,
    /// Read the posted form.
    ReadForm,
    /// Open the token.
    OpenToken { token: String },
    /// Look the member with the e-mail address up.
    FindByEmail { email: String },
    /// Store the member's nickname and password.
    Update { user: User },
    /// Answer the request.
    Respond(Reply),
    /// Refuse the request.
    Fail(Failure),
}

/// Whether an event can arrive in a state: the events that the actions ask
/// for; a token names a member by number and e-mail address, and a stored
/// record has a number and a password.
pub open spec fn expected(state: ProfileState, event: ProfileEvent) -> bool {
    match (state, event) {
        (ProfileState::Start, ProfileEvent::Request { .. }) => true,
        (ProfileState::Form, ProfileEvent::Form(_)) => true,
        (ProfileState::TokenUser { .. }, ProfileEvent::TokenUser(u)) => u matches Some(u) ==> (
        u@.uid is Some && u@.email is Some),
        (ProfileState::Record { .. }, ProfileEvent::Record(u)) => u matches Some(u) ==> (u@.uid is Some
            && u@.password is Some),
        (ProfileState::Store, ProfileEvent::Stored) => true,
        _ => false,
    }
}

/// What the handler does with an event in a state.
pub open spec fn profile_step(
    state: ProfileState,
    event: ProfileEvent,
    next: ProfileState,
    action: ProfileAction,
) -> bool {
    match (state, event) {
        (ProfileState::Start, ProfileEvent::Request { method, url }) => match profile_route(
            method_named(method@),
            path_of(url@),
        ) {
            Some(ProfileRoute::Show) => next is Done && action is ShowProfile,
            Some(ProfileRoute::Change) => next is Form && action is ReadForm,
            None => next is Done && action is Decline,
        },
        (ProfileState::Form, ProfileEvent::Form(form)) => match form {
            Some(f) => next == (ProfileState::TokenUser {
                nickname: f.nickname,
                current_password: f.current_password,
                new_password: f.new_password,
            }) && action == (ProfileAction::OpenToken { token: f.token }),
            None => next is Done && action == ProfileAction::Fail(Failure::BadParameter(404)),
        },
        (
            ProfileState::TokenUser { nickname, current_password, new_password },
            ProfileEvent::TokenUser(user),
        ) => match user {
            Some(u) => {
                &&& next == (ProfileState::Record {
                    uid: u@.uid->0,
                    nickname,
                    current_password,
                    new_password,
                })
                &&& action matches ProfileAction::FindByEmail { email }
                &&& email@ == u@.email->0
            },
            None => next is Done && action == ProfileAction::Fail(Failure::NoPermission),
        },
        (
            ProfileState::Record { uid, nickname, current_password, new_password },
            ProfileEvent::Record(record),
        ) => match record {
            Some(r) => if r@.uid->0 == uid && r@.password->0 == sha3_512_hex(
                trim_chars(current_password@),
            ) {
                &&& next is Store
                &&& action matches ProfileAction::Update { user }
                &&& user@ == (UserView {
                    password: Some(next_password(current_password@, new_password@)),
                    nickname: Some(nickname@),
                    ..r@
                })
            } else {
                next is Done && action == ProfileAction::Fail(Failure::NoPermission)
            },
            None => next is Done && action == ProfileAction::Fail(Failure::NoPermission),
        },
        (ProfileState::Store, ProfileEvent::Stored) => {
            &&& next is Done
            &&& action matches ProfileAction::Respond(Reply::Data { content_type, body })
            &&& content_type@ == "application/json"@
            &&& body@ == seq![0x7bu8, 0x7du8]
        },
        _ => true,
    }
}

/// Handles one event of a profile request.
pub fn process(state: ProfileState, event: ProfileEvent, ctype: ResponseContentType) -> (r: (
    ProfileState,
    ProfileAction,
))
    requires
        expected(state, event),
    ensures
        profile_step(state, event, r.0, r.1),
{
    match (state, event) {
        (ProfileState::Start, ProfileEvent::Request { method, url }) => {
            match route(method.as_str(), url.as_str()) {
                Some(ProfileRoute::Show) => (ProfileState::Done, ProfileAction::ShowProfile),
                Some(ProfileRoute::Change) => (ProfileState::Form, ProfileAction::ReadForm),
                None => (ProfileState::Done, ProfileAction::Decline),
            }
        },
        (ProfileState::Form, ProfileEvent::Form(form)) => match form {
            Some(f) => (
                ProfileState::TokenUser {
                    nickname: f.nickname,
                    current_password: f.current_password,
                    new_password: f.new_password,
                },
                ProfileAction::OpenToken { token: f.token },
            ),
            None => (ProfileState::Done, ProfileAction::Fail(Failure::BadParameter(404))),
        },
        (
            ProfileState::TokenUser { nickname, current_password, new_password },
            ProfileEvent::TokenUser(user),
        ) => match user {
            Some(u) => {
                let uid = match u.get_uid() {
                    Some(v) => *v,
                    None => 0,
                };
                let email = match u.get_email() {
                    Some(e) => e.clone(),
                    None => String::new(),
                };
                (
                    ProfileState::Record { uid, nickname, current_password, new_password },
                    ProfileAction::FindByEmail { email },
                )
            },
            None => (ProfileState::Done, ProfileAction::Fail(Failure::NoPermission)),
        },
        (
            ProfileState::Record { uid, nickname, current_password, new_password },
            ProfileEvent::Record(record),
        ) => match record {
            Some(r) => {
                let same = match r.get_uid() {
                    Some(v) => *v == uid,
                    None => false,
                };
                if !same {
                    return (ProfileState::Done, ProfileAction::Fail(Failure::NoPermission));
                }
                let current = to_sha3(trim(current_password.as_str()));
                let new_trimmed = trim(new_password.as_str());
                let new = if new_trimmed.unicode_len() != 0 {
                    to_sha3(new_trimmed)
                } else {
                    current.clone()
                };
                let matches = match r.get_password() {
                    Some(p) => crate::text::str_eq(p.as_str(), current.as_str()),
                    None => false,
                };
                if matches {
                    let user = r.password(new).nickname(nickname);
                    (ProfileState::Store, ProfileAction::Update { user })
                } else {
                    (ProfileState::Done, ProfileAction::Fail(Failure::NoPermission))
                }
            },
            None => (ProfileState::Done, ProfileAction::Fail(Failure::NoPermission)),
        },
        (ProfileState::Store, ProfileEvent::Stored) => (
            ProfileState::Done,
            ProfileAction::Respond(ok_view(ctype)),
        ),
        (_, _) => (ProfileState::Done, ProfileAction::Decline),
    }
}

/// A profile change is stored only for the member whose stored password is
/// the current password given; it keeps the member's number and address,
/// takes the nickname given, and changes the password only where a new one
/// is given; anyone else is refused.
pub proof fn profile_change_needs_the_current_password(
    uid: i32,
    nickname: String,
    current: String,
    new: String,
    record: User,
    next: ProfileState,
    action: ProfileAction,
)
    requires
        profile_step(
            ProfileState::Record {
                uid,
                nickname,
                current_password: current,
                new_password: new,
            },
            ProfileEvent::Record(Some(record)),
            next,
            action,
        ),
    ensures
        !(record@.uid == Some(uid) && record@.password == Some(sha3_512_hex(trim_chars(current@))))
            && record@.uid is Some && record@.password is Some ==> action == ProfileAction::Fail(
            Failure::NoPermission,
        ),
        record@.uid == Some(uid) && record@.password == Some(sha3_512_hex(trim_chars(current@)))
            ==> (action matches ProfileAction::Update { user } && user@.uid == record@.uid
            && user@.email == record@.email && user@.nickname == Some(nickname@) && (trim_chars(
            new@,
        ).len() == 0 ==> user@.password == record@.password) && (trim_chars(new@).len() > 0
            ==> user@.password == Some(sha3_512_hex(trim_chars(new@))))),
{
}

} // verus!
