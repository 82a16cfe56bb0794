//! The member routes: `GET /signup` shows the sign-up page, `POST /users`
//! signs a member up, and `POST /login` signs a member in and hands out a
//! token.
//!
//! The handler is a state machine: each event (what the request holds, or
//! what the store answered) gives the next state and the action that the
//! server takes next.
use vstd::prelude::*;
use crate::common::{sha3_512_hex, to_sha3};
use crate::login::{signed_user, Login, SignInfomation};
use crate::response::Failure;
use crate::routing::{is_path, method_named, method_of, path_of, request_path, Method};
use crate::user::{User, UserView};

verus! {

/// `/signup`
pub open spec fn signup_path() -> Seq<char> {
    seq!['/', 's', 'i', 'g', 'n', 'u', 'p']
}

/// `/users`
pub open spec fn users_path() -> Seq<char> {
    seq!['/', 'u', 's', 'e', 'r', 's']
}

/// `/login`
pub open spec fn login_path() -> Seq<char> {
    seq!['/', 'l', 'o', 'g', 'i', 'n']
}

/// A route of this handler.
#[derive(Clone, Copy, Debug, PartialEq, Eq, Structural)]
pub enum UsersRoute {
    /// Show the sign-up page.
    SignupPage,
    /// Sign a member up.
    SignUp,
    /// Sign a member in.
    LogIn,
}

/// The route that a method and a path take.
pub open spec fn users_route(method: Method, path: Seq<char>) -> Option<UsersRoute> {
    if method == Method::Get && path == signup_path() {
        Some(UsersRoute::SignupPage)
    } else if method == Method::Post && path == users_path() {
        Some(UsersRoute::SignUp)
    } else if method == Method::Post && path == login_path() {
        Some(UsersRoute::LogIn)
    } else {
        None
    }
}

/// The route that a request takes.
pub fn route(method: &str, url: &str) -> (r: Option<UsersRoute>)
    ensures
        r == users_route(method_named(method@), path_of(url@)),
{
    let signup: [char; 7] = ['/', 's', 'i', 'g', 'n', 'u', 'p'];
    let users: [char; 6] = ['/', 'u', 's', 'e', 'r', 's'];
    let login: [char; 6] = ['/', 'l', 'o', 'g', 'i', 'n'];
    assert(signup@ == signup_path());
    assert(users@ == users_path());
    assert(login@ == login_path());
    let m = method_of(method);
    let path = request_path(url);
    if m == Method::Get && is_path(path, &signup) {
        Some(UsersRoute::SignupPage)
    } else if m == Method::Post && is_path(path, &users) {
        Some(UsersRoute::SignUp)
    } else if m == Method::Post && is_path(path, &login) {
        Some(UsersRoute::LogIn)
    } else {
        None
    }
}

/// The posted form of a sign-up.
pub struct SignupForm {
    pub email: String,
    pub nickname: String,
    pub password: String,
}

/// The posted form of a sign-in.
pub struct LoginForm {
    pub email: String,
    pub password: String,
}

/// Where a request is in its handling.
pub enum UsersState {
    Start,
    /// Signing up: the form is awaited.
    SignupForm,
    /// Signing up: the member is being stored.
    SignupStore,
    /// Signing in: the form is awaited.
    LoginForm,
    /// Signing in: the stored record of the member is awaited.
    LoginRecord { password: String },
    /// Signing in: the token is being sealed.
    LoginToken { login: Login },
    Done,
}

/// What the server learnt.
pub enum UsersEvent {
    /// The request arrived, with its method name and target.
    Request { method: String, url: String },
    /// The posted sign-up form; none where a field is missing.
    SignupForm(Option<SignupForm>),
    /// Whether the store took the new member in.
    SignedUp(bool),
    /// The posted sign-in form; none where a field is missing.
    LoginForm(Option<LoginForm>),
    /// The stored record of the member with the e-mail address, if any.
    Record(Option<User>),
    /// The sealed token.
    Token(String),
}

/// What the server does next.
pub enum UsersAction {
    /// The request is not this handler's.
    Decline,
    /// Answer with the sign-up page.
    ShowSignup,
    /// Read the posted sign-up form.
    ReadSignupForm,
    /// Store the new member.
    SignUp { user: User },
    /// Answer that the member signed up.
    SignupDone,
    /// Read the posted sign-in form.
    ReadLoginForm,
    /// Look the member with the e-mail address up.
    FindByEmail { email: String },
    /// Seal a token that carries the information.
    IssueToken { info: SignInfomation },
    /// Answer that the member signed in, with the token.
    SignedIn { user: User, token: String },
    /// Refuse the request.
    Fail(Failure),
}

/// Whether an event can arrive in a state: the events that the actions ask
/// for; a stored record holds every field.
pub open spec fn expected(state: UsersState, event: UsersEvent) -> bool {
    match (state, event) {
        (UsersState::Start, UsersEvent::Request { .. }) => true,
        (UsersState::SignupForm, UsersEvent::SignupForm(_)) => true,
        (UsersState::SignupStore, UsersEvent::SignedUp(_)) => true,
        (UsersState::LoginForm, UsersEvent::LoginForm(_)) => true,
        (UsersState::LoginRecord { .. }, UsersEvent::Record(r)) => r matches Some(u) ==> {
            &&& u@.uid is Some
            &&& u@.email is Some
            &&& u@.nickname is Some
            &&& u@.password is Some
        },
        (UsersState::LoginToken { .. }, UsersEvent::Token(_)) => true,
        _ => false,
    }
}

/// What the handler does with an event in a state.
pub open spec fn users_step(
    state: UsersState,
    event: UsersEvent,
    next: UsersState,
    action: UsersAction,
) -> bool {
    match (state, event) {
        (UsersState::Start, UsersEvent::Request { method, url }) => match users_route(
            method_named(method@),
            path_of(url@),
        ) {
            Some(UsersRoute::SignupPage) => next is Done && action is ShowSignup,
            Some(UsersRoute::SignUp) => next is SignupForm && action is ReadSignupForm,
            Some(UsersRoute::LogIn) => next is LoginForm && action is ReadLoginForm,
            None => next is Done && action is Decline,
        },
        (UsersState::SignupForm, UsersEvent::SignupForm(form)) => match form {
            Some(f) => {
                &&& next is SignupStore
                &&& action matches UsersAction::SignUp { user }
                &&& user@ == (UserView {
                    uid: None,
                    nickname: Some(f.nickname@),
                    email: Some(f.email@),
                    password: Some(sha3_512_hex(f.password@)),
                })
            },
            None => next is Done && action == UsersAction::Fail(Failure::BadParameter(400)),
        },
        (UsersState::SignupStore, UsersEvent::SignedUp(ok)) => if ok {
            next is Done && action is SignupDone
        } else {
            next is Done && action == UsersAction::Fail(Failure::EmailTaken)
        },
        (UsersState::LoginForm, UsersEvent::LoginForm(form)) => match form {
            Some(f) => {
                &&& next matches UsersState::LoginRecord { password }
                &&& password@ == sha3_512_hex(f.password@)
                &&& action == UsersAction::FindByEmail { email: f.email }
            },
            None => next is Done && action == UsersAction::Fail(Failure::BadParameter(403)),
        },
        (UsersState::LoginRecord { password }, UsersEvent::Record(record)) => match record {
            Some(u) => if u@.password->0 == password@ {
                &&& next matches UsersState::LoginToken { login }
                &&& login.user@ == u@
                &&& action matches UsersAction::IssueToken { info }
                &&& signed_user(info) == (UserView { password: None, ..u@ })
            } else {
                next is Done && action == UsersAction::Fail(Failure::WrongPassword)
            },
            None => next is Done && action == UsersAction::Fail(Failure::NoAccount),
        },
        (UsersState::LoginToken { login }, UsersEvent::Token(token)) => {
            next is Done && action == UsersAction::SignedIn { user: login.user, token }
        },
        _ => true,
    }
}

/// Handles one event of a member request.
pub fn process(state: UsersState, event: UsersEvent) -> (r: (UsersState, UsersAction))
    requires
        expected(state, event),
    ensures
        users_step(state, event, r.0, r.1),
{
    match (state, event) {
        (UsersState::Start, UsersEvent::Request { method, url }) => {
            match route(method.as_str(), url.as_str()) {
                Some(UsersRoute::SignupPage) => (UsersState::Done, UsersAction::ShowSignup),
                Some(UsersRoute::SignUp) => (UsersState::SignupForm, UsersAction::ReadSignupForm),
                Some(UsersRoute::LogIn) => (UsersState::LoginForm, UsersAction::ReadLoginForm),
                None => (UsersState::Done, UsersAction::Decline),
            }
        },
        (UsersState::SignupForm, UsersEvent::SignupForm(form)) => match form {
            Some(f) => {
                let password = to_sha3(f.password.as_str());
                let user = User::new().nickname(f.nickname).email(f.email).password(password);
                (UsersState::SignupStore, UsersAction::SignUp { user })
            },
            None => (UsersState::Done, UsersAction::Fail(Failure::BadParameter(400))),
        },
        (UsersState::SignupStore, UsersEvent::SignedUp(ok)) => if ok {
            (UsersState::Done, UsersAction::SignupDone)
        } else {
            (UsersState::Done, UsersAction::Fail(Failure::EmailTaken))
        },
        (UsersState::LoginForm, UsersEvent::LoginForm(form)) => match form {
            Some(f) => {
                let password = to_sha3(f.password.as_str());
                (UsersState::LoginRecord { password }, UsersAction::FindByEmail { email: f.email })
            },
            None => (UsersState::Done, UsersAction::Fail(Failure::BadParameter(403))),
        },
        (UsersState::LoginRecord { password }, UsersEvent::Record(record)) => match record {
            Some(u) => match Login::try_login(u, password.as_str()) {
                Some(login) => {
                    let info = login.sign_information();
                    (UsersState::LoginToken { login }, UsersAction::IssueToken { info })
                },
                None => (UsersState::Done, UsersAction::Fail(Failure::WrongPassword)),
            },
            None => (UsersState::Done, UsersAction::Fail(Failure::NoAccount)),
        },
        (UsersState::LoginToken { login }, UsersEvent::Token(token)) => (
            UsersState::Done,
            UsersAction::SignedIn { user: login.user, token },
        ),
        (_, _) => (UsersState::Done, UsersAction::Decline),
    }
}

/// Signing in succeeds exactly when the stored password is the digest of the
/// password given, and then the token names that member, without the
/// password; a wrong password and an unknown address are refused.
pub proof fn login_needs_the_stored_password(
    form: LoginForm,
    record: Option<User>,
    next1: UsersState,
    action1: UsersAction,
    next2: UsersState,
    action2: UsersAction,
)
    requires
        users_step(UsersState::LoginForm, UsersEvent::LoginForm(Some(form)), next1, action1),
        next1 matches UsersState::LoginRecord { .. },
        users_step(next1, UsersEvent::Record(record), next2, action2),
    ensures
        action1 == (UsersAction::FindByEmail { email: form.email }),
        record is None ==> action2 == UsersAction::Fail(Failure::NoAccount),
        record matches Some(u) ==> (u@.password is Some ==> (u@.password == Some(sha3_512_hex(form.password@)) <==> action2 is IssueToken)),
        record matches Some(u) ==> (u@.password is Some && u@.password != Some(sha3_512_hex(form.password@)) ==> action2 == UsersAction::Fail(Failure::WrongPassword)),
        record matches Some(u) ==> (action2 matches UsersAction::IssueToken { info } ==> (signed_user(info) == (UserView { password: None, ..u@ }))),
{
}

/// Signing up stores the digest of the password given, never the password,
/// with the nickname and address given and no number yet.
pub proof fn signup_stores_the_password_digest(form: SignupForm, next: UsersState, action: UsersAction)
    requires
        users_step(UsersState::SignupForm, UsersEvent::SignupForm(Some(form)), next, action),
    ensures
        action matches UsersAction::SignUp { user } && user@.password == Some(sha3_512_hex(form.password@))
            && user@.nickname == Some(form.nickname@) && user@.email == Some(form.email@)
            && user@.uid is None,
{
}

} // verus!
