use rs_threads_board::comments::view::{comment_list_form, CommentListForm};
use chrono::NaiveDate;
use rs_threads_board::assets::{self, AssetAction};
use rs_threads_board::comments::controller::{
    self as comments, CommentsAction, CommentsEvent, CommentsState,
};
use rs_threads_board::common::{to_sha3, ResponseContentType};
use rs_threads_board::model::{Comment, Thread};
use rs_threads_board::preview::controller::{self as preview, PreviewAction, PreviewEvent, PreviewState};
use rs_threads_board::profile::controller::{
    self as profile, ProfileAction, ProfileEvent, ProfileForm, ProfileState,
};
use rs_threads_board::response::{Failure, Reply};
use rs_threads_board::tags::controller::{self as tags, TagsAction, TagsEvent, TagsState};
use rs_threads_board::threads::controller::{
    self as threads, tag_names, ThreadForm, ThreadsAction, ThreadsEvent, ThreadsState,
};
use rs_threads_board::threads::view::thread_create_response;
use rs_threads_board::users::controller::{
    self as users, LoginForm, SignupForm, UsersAction, UsersEvent, UsersState,
};
use rs_threads_board::user::User;

fn when() -> chrono::NaiveDateTime {
    NaiveDate::from_ymd_opt(2018, 5, 1).unwrap().and_hms_opt(12, 0, 0).unwrap()
}

fn request(method: &str, url: &str) -> (String, String) {
    (method.to_string(), url.to_string())
}

#[test]
fn comments_list_not_modified() {
    let (method, url) = request("GET", "/threads/3/comments?x=1");
    let (s, a) = comments::process(CommentsState::Start, CommentsEvent::Request { method, url }, ResponseContentType::Json);
    assert!(matches!(a, CommentsAction::ReadIfNoneMatch));
    let (s, a) = comments::process(s, CommentsEvent::IfNoneMatch(Some("\"t1\"".to_string())), ResponseContentType::Json);
    assert!(matches!(a, CommentsAction::ComputeTag { thread_uid: 3 }));
    let (_, a) = comments::process(s, CommentsEvent::Tag("t1".to_string()), ResponseContentType::Json);
    match a {
        CommentsAction::Respond(Reply::NotModified { etag }) => assert_eq!(etag, "t1"),
        _ => panic!("expected not modified"),
    }
}

#[test]
fn comments_list_changed() {
    let s = CommentsState::ListTag { thread_uid: 3, if_none_match: Some("t0".to_string()) };
    let (_, a) = comments::process(s, CommentsEvent::Tag("t1".to_string()), ResponseContentType::Html);
    match a {
        CommentsAction::ListComments { thread_uid, etag } => {
            assert_eq!(thread_uid, 3);
            assert_eq!(etag, "t1");
        }
        _ => panic!("expected a listing"),
    }
}

#[test]
fn comment_post_flow() {
    let (method, url) = request("POST", "/threads/5/comments");
    let ct = ResponseContentType::Html;
    let (s, a) = comments::process(CommentsState::Start, CommentsEvent::Request { method, url }, ct);
    assert!(matches!(a, CommentsAction::ReadPostForm));
    let (s, a) = comments::process(s, CommentsEvent::PostForm(Some(("hi".to_string(), "tok".to_string()))), ct);
    match &a {
        CommentsAction::OpenToken { token } => assert_eq!(token, "tok"),
        _ => panic!("expected token"),
    }
    let (s, a) = comments::process(s, CommentsEvent::TokenUser(Some(User::new().uid(1))), ct);
    assert!(matches!(a, CommentsAction::GetThread { uid: 5 }));
    let thread = Thread::new(5, "s".to_string(), when(), when(), User::new().uid(2));
    let (s, a) = comments::process(s, CommentsEvent::FoundThread(Some(thread)), ct);
    match &a {
        CommentsAction::Upload { content, user, .. } => {
            assert_eq!(content, "hi");
            assert_eq!(user.get_uid(), Some(&1));
        }
        _ => panic!("expected upload"),
    }
    let (_, a) = comments::process(s, CommentsEvent::Stored, ct);
    match a {
        CommentsAction::Respond(Reply::Data { content_type, body }) => {
            assert_eq!(content_type, "application/json");
            assert_eq!(body, b"{}".to_vec());
        }
        _ => panic!("expected json"),
    }
}

#[test]
fn comment_refusals() {
    let ct = ResponseContentType::Html;
    let (_, a) = comments::process(CommentsState::PostForm { thread_uid: 1 }, CommentsEvent::PostForm(None), ct);
    assert!(matches!(a, CommentsAction::Fail(Failure::BadParameter(404))));
    let (_, a) = comments::process(CommentsState::PostUser { thread_uid: 1, content: "c".to_string() }, CommentsEvent::TokenUser(None), ct);
    assert!(matches!(a, CommentsAction::Fail(Failure::NoPermission)));
    let (_, a) = comments::process(CommentsState::PostThread { content: "c".to_string(), user: User::new() }, CommentsEvent::FoundThread(None), ct);
    assert!(matches!(a, CommentsAction::Fail(Failure::NoThread)));
    let comment = Comment::new(8, User::new().uid(2), when(), "c".to_string());
    let (_, a) = comments::process(CommentsState::DeleteComment { user: User::new().uid(1) }, CommentsEvent::FoundComment(Some(comment)), ct);
    assert!(matches!(a, CommentsAction::Fail(Failure::NoPermission)));
    let comment = Comment::new(8, User::new().uid(1), when(), "c".to_string());
    let (_, a) = comments::process(CommentsState::DeleteComment { user: User::new().uid(1) }, CommentsEvent::FoundComment(Some(comment)), ct);
    assert!(matches!(a, CommentsAction::Delete { .. }));
    let (_, a) = comments::process(CommentsState::DeleteComment { user: User::new().uid(1) }, CommentsEvent::FoundComment(None), ct);
    assert!(matches!(a, CommentsAction::Fail(Failure::NoSuchComment)));
    let (method, url) = request("DELETE", "/comments/8");
    let (_, a) = comments::process(CommentsState::Start, CommentsEvent::Request { method, url }, ct);
    assert!(matches!(a, CommentsAction::ReadDeleteForm));
    let (method, url) = request("PUT", "/comments/8");
    let (_, a) = comments::process(CommentsState::Start, CommentsEvent::Request { method, url }, ct);
    assert!(matches!(a, CommentsAction::Decline));
}

#[test]
fn thread_listing_paging() {
    let ct = ResponseContentType::Json;
    for path in ["/", "/threads"] {
        let (method, url) = request("GET", path);
        let (s, a) = threads::process(ThreadsState::Start, ThreadsEvent::Request { method, url }, ct);
        assert!(matches!(a, ThreadsAction::ReadListQuery));
        assert!(matches!(s, ThreadsState::ListQuery));
    }
    let (s, a) = threads::process(
        ThreadsState::ListQuery,
        ThreadsEvent::ListQuery { q: Some("rust".to_string()), offset: Some("x".to_string()), count: Some("10".to_string()), if_none_match: None },
        ct,
    );
    match &a {
        ThreadsAction::ComputeTag { offset, q } => {
            assert_eq!(*offset, 0);
            assert_eq!(q.as_deref(), Some("rust"));
        }
        _ => panic!("expected tag"),
    }
    let (_, a) = threads::process(s, ThreadsEvent::Tag("e".to_string()), ct);
    match a {
        ThreadsAction::ListThreads { q, offset, count, etag } => {
            assert_eq!(q.as_deref(), Some("rust"));
            assert_eq!(offset, 0);
            assert_eq!(count, 10);
            assert_eq!(etag, "e");
        }
        _ => panic!("expected listing"),
    }
    let (_, a) = threads::process(
        ThreadsState::ListQuery,
        ThreadsEvent::ListQuery { q: None, offset: None, count: None, if_none_match: None },
        ct,
    );
    assert!(matches!(a, ThreadsAction::ComputeTag { offset: 0, q: None }));
    assert_eq!(threads::param_number(&None, threads::DEFAULT_COUNT), 25);
    assert_eq!(threads::param_number(&Some("40".to_string()), 25), 40);
}

#[test]
fn thread_creation_flow() {
    let ct = ResponseContentType::Json;
    let (method, url) = request("POST", "/threads");
    let (s, a) = threads::process(ThreadsState::Start, ThreadsEvent::Request { method, url }, ct);
    assert!(matches!(a, ThreadsAction::ReadCreateForm));
    let form = ThreadForm { token: "t".to_string(), subject: "s".to_string(), tags: " a, ,b ,".to_string(), comment: "c".to_string() };
    let (s, a) = threads::process(s, ThreadsEvent::CreateForm(Some(form)), ct);
    assert!(matches!(a, ThreadsAction::OpenToken { .. }));
    let (s, a) = threads::process(s, ThreadsEvent::TokenUser(Some(User::new().uid(1))), ct);
    assert!(matches!(a, ThreadsAction::Upload { .. }));
    let thread = Thread::new(42, "s".to_string(), when(), when(), User::new().uid(1));
    let (s, a) = threads::process(s, ThreadsEvent::Opened(Some(thread)), ct);
    match &a {
        ThreadsAction::PutTags { names, thread_uid } => {
            assert_eq!(names, &vec!["a".to_string(), "b".to_string()]);
            assert_eq!(*thread_uid, 42);
        }
        _ => panic!("expected tags"),
    }
    let (_, a) = threads::process(s, ThreadsEvent::Stored, ct);
    match a {
        ThreadsAction::Respond(Reply::Data { content_type, body }) => {
            assert_eq!(content_type, "application/json");
            assert_eq!(body, b"{\"redirectURL\":\"/threads/42\"}".to_vec());
        }
        _ => panic!("expected redirect"),
    }
    let (_, a) = threads::process(ThreadsState::CreateStore { tags: "".to_string() }, ThreadsEvent::Opened(None), ct);
    assert!(matches!(a, ThreadsAction::Fail(Failure::ThreadNotCreated)));
}

#[test]
fn thread_create_page() {
    let thread = Thread::new(-3, "s".to_string(), when(), when(), User::new());
    match thread_create_response(ResponseContentType::Html, thread) {
        Reply::Html { body } => assert_eq!(
            body,
            "<!doctype html><html><head><script>document.location='/threads/-3'</script></head></html>"
        ),
        _ => panic!("expected a page"),
    }
}

#[test]
fn thread_show_and_delete() {
    let ct = ResponseContentType::Html;
    let (method, url) = request("GET", "/threads/9");
    let (s, a) = threads::process(ThreadsState::Start, ThreadsEvent::Request { method, url }, ct);
    assert!(matches!(a, ThreadsAction::GetThread { uid: 9 }));
    let (_, a) = threads::process(s, ThreadsEvent::FoundThread(None), ct);
    assert!(matches!(a, ThreadsAction::Fail(Failure::NoSuchThread)));
    let (method, url) = request("DELETE", "/threads/9");
    let (s, a) = threads::process(ThreadsState::Start, ThreadsEvent::Request { method, url }, ct);
    assert!(matches!(a, ThreadsAction::ReadDeleteForm));
    let (s, _) = threads::process(s, ThreadsEvent::DeleteForm(Some("t".to_string())), ct);
    let (s, _) = threads::process(s, ThreadsEvent::TokenUser(Some(User::new().uid(1))), ct);
    let thread = Thread::new(9, "s".to_string(), when(), when(), User::new().uid(1));
    let (s, a) = threads::process(s, ThreadsEvent::FoundThread(Some(thread)), ct);
    assert!(matches!(a, ThreadsAction::Delete { .. }));
    let (_, a) = threads::process(s, ThreadsEvent::Stored, ct);
    match a {
        ThreadsAction::Respond(Reply::TextAsJson { body }) => assert_eq!(body, "{}"),
        _ => panic!("expected json text"),
    }
    let thread = Thread::new(9, "s".to_string(), when(), when(), User::new().uid(2));
    let (_, a) = threads::process(ThreadsState::DeleteThread { user: User::new().uid(1) }, ThreadsEvent::FoundThread(Some(thread)), ct);
    assert!(matches!(a, ThreadsAction::Fail(Failure::NoPermission)));
}

#[test]
fn tag_names_are_trimmed_pieces() {
    assert_eq!(tag_names("a,b"), vec!["a".to_string(), "b".to_string()]);
    assert_eq!(tag_names(" x y ,\u{3000},"), vec!["x y".to_string()]);
    assert!(tag_names("").is_empty());
}

#[test]
fn profile_change_flow() {
    let ct = ResponseContentType::Json;
    let (method, url) = request("PUT", "/profile");
    let (s, a) = profile::process(ProfileState::Start, ProfileEvent::Request { method, url }, ct);
    assert!(matches!(a, ProfileAction::ReadForm));
    let form = ProfileForm { nickname: "new".to_string(), current_password: " old ".to_string(), new_password: "  ".to_string(), token: "t".to_string() };
    let (s, _) = profile::process(s, ProfileEvent::Form(Some(form)), ct);
    let token_user = User::new().uid(1).email("e".to_string()).nickname("n".to_string());
    let (s, a) = profile::process(s, ProfileEvent::TokenUser(Some(token_user)), ct);
    match &a {
        ProfileAction::FindByEmail { email } => assert_eq!(email, "e"),
        _ => panic!("expected lookup"),
    }
    let record = User::new().uid(1).email("e".to_string()).nickname("n".to_string()).password(to_sha3("old"));
    let (s, a) = profile::process(s, ProfileEvent::Record(Some(record)), ct);
    match &a {
        ProfileAction::Update { user } => {
            assert_eq!(user.get_nickname(), Some(&"new".to_string()));
            assert_eq!(user.get_password(), Some(&to_sha3("old")));
        }
        _ => panic!("expected update"),
    }
    let (_, a) = profile::process(s, ProfileEvent::Stored, ct);
    assert!(matches!(a, ProfileAction::Respond(Reply::Data { .. })));
}

#[test]
fn profile_refusals() {
    let ct = ResponseContentType::Json;
    let state = || ProfileState::Record { uid: 1, nickname: "n".to_string(), current_password: "old".to_string(), new_password: "new".to_string() };
    let record = User::new().uid(1).password(to_sha3("other"));
    let (_, a) = profile::process(state(), ProfileEvent::Record(Some(record)), ct);
    assert!(matches!(a, ProfileAction::Fail(Failure::NoPermission)));
    let record = User::new().uid(2).password(to_sha3("old"));
    let (_, a) = profile::process(state(), ProfileEvent::Record(Some(record)), ct);
    assert!(matches!(a, ProfileAction::Fail(Failure::NoPermission)));
    let record = User::new().uid(1).password(to_sha3("old"));
    let (_, a) = profile::process(state(), ProfileEvent::Record(Some(record)), ct);
    match a {
        ProfileAction::Update { user } => assert_eq!(user.get_password(), Some(&to_sha3("new"))),
        _ => panic!("expected update"),
    }
    let (method, url) = request("GET", "/profile");
    let (_, a) = profile::process(ProfileState::Start, ProfileEvent::Request { method, url }, ct);
    assert!(matches!(a, ProfileAction::ShowProfile));
}

#[test]
fn tag_routes() {
    let (method, url) = request("GET", "/threads/4/tags");
    let (s, a) = tags::process(TagsState::Start, TagsEvent::Request { method, url });
    assert!(matches!(a, TagsAction::GetThread { uid: 4 }));
    let (_, a) = tags::process(s, TagsEvent::FoundThread(None));
    assert!(matches!(a, TagsAction::Respond(Reply::NotFound)));
    let (method, url) = request("GET", "/tags?q=ru");
    let (s, a) = tags::process(TagsState::Start, TagsEvent::Request { method, url });
    assert!(matches!(a, TagsAction::ReadQuery));
    let (_, a) = tags::process(s, TagsEvent::Query(None));
    match a {
        TagsAction::ShowTags { tags } => assert!(tags.is_empty()),
        _ => panic!("expected empty list"),
    }
    let (method, url) = request("GET", "/tags/%EB%9F%AC%EC%8A%A4%ED%8A%B8");
    let (_, a) = tags::process(TagsState::Start, TagsEvent::Request { method, url });
    match a {
        TagsAction::ShowTag { name } => assert_eq!(name, "러스트"),
        _ => panic!("expected a tag"),
    }
}

#[test]
fn preview_renders_text() {
    let (method, url) = request("GET", "/preview/comment?text=**a**");
    let (s, a) = preview::process(PreviewState::Start, PreviewEvent::Request { method, url });
    assert!(matches!(a, PreviewAction::ReadText));
    let (_, a) = preview::process(s, PreviewEvent::Text(Some("**a**".to_string())));
    match a {
        PreviewAction::Respond(Reply::Html { body }) => assert_eq!(body, "<p><strong>a</strong></p>"),
        _ => panic!("expected html"),
    }
    let (_, a) = preview::process(PreviewState::Text, PreviewEvent::Text(None));
    match a {
        PreviewAction::Respond(Reply::Html { body }) => assert_eq!(body, "<p></p>"),
        _ => panic!("expected html"),
    }
}

#[test]
fn preview_keeps_characters_of_several_bytes() {
    let text = "~~é~~ [한글](ü\"x) {{<ß>}} ✓".to_string();
    let (_, a) = preview::process(PreviewState::Text, PreviewEvent::Text(Some(text)));
    match a {
        PreviewAction::Respond(Reply::Html { body }) => assert_eq!(
            body,
            "<p><del>é</del> <a href=\"ü%22x\">한글</a> &lt;ß&gt; ✓</p>"
        ),
        _ => panic!("expected html"),
    }
}

#[test]
fn member_routes() {
    let (method, url) = request("POST", "/users");
    let (s, a) = users::process(UsersState::Start, UsersEvent::Request { method, url });
    assert!(matches!(a, UsersAction::ReadSignupForm));
    let form = SignupForm { email: "e".to_string(), nickname: "n".to_string(), password: "pw".to_string() };
    let (s, a) = users::process(s, UsersEvent::SignupForm(Some(form)));
    match &a {
        UsersAction::SignUp { user } => assert_eq!(user.get_password(), Some(&to_sha3("pw"))),
        _ => panic!("expected sign-up"),
    }
    let (_, a) = users::process(s, UsersEvent::SignedUp(false));
    assert!(matches!(a, UsersAction::Fail(Failure::EmailTaken)));
    let (_, a) = users::process(UsersState::SignupForm, UsersEvent::SignupForm(None));
    assert!(matches!(a, UsersAction::Fail(Failure::BadParameter(400))));

    let (method, url) = request("POST", "/login");
    let (s, _) = users::process(UsersState::Start, UsersEvent::Request { method, url });
    let (s, a) = users::process(s, UsersEvent::LoginForm(Some(LoginForm { email: "e".to_string(), password: "pw".to_string() })));
    assert!(matches!(a, UsersAction::FindByEmail { .. }));
    let record = User::new().uid(3).email("e".to_string()).nickname("n".to_string()).password(to_sha3("pw"));
    let (s, a) = users::process(s, UsersEvent::Record(Some(record)));
    match &a {
        UsersAction::IssueToken { info } => assert_eq!(info.uid, 3),
        _ => panic!("expected a token"),
    }
    let (_, a) = users::process(s, UsersEvent::Token("tok".to_string()));
    match a {
        UsersAction::SignedIn { user, token } => {
            assert_eq!(user.get_uid(), Some(&3));
            assert_eq!(token, "tok");
        }
        _ => panic!("expected sign-in"),
    }
    let (_, a) = users::process(UsersState::LoginRecord { password: to_sha3("pw") }, UsersEvent::Record(None));
    assert!(matches!(a, UsersAction::Fail(Failure::NoAccount)));
    let record = User::new().uid(3).email("e".to_string()).nickname("n".to_string()).password(to_sha3("x"));
    let (_, a) = users::process(UsersState::LoginRecord { password: to_sha3("pw") }, UsersEvent::Record(Some(record)));
    assert!(matches!(a, UsersAction::Fail(Failure::WrongPassword)));
}

#[test]
fn asset_routes() {
    assert!(matches!(assets::process("GET", "/write"), AssetAction::ShowWritePage));
    match assets::process("GET", "/fonts/a.woff") {
        AssetAction::SendFile { dir, name, content_type } => {
            assert_eq!(dir, "./font");
            assert_eq!(name, "a.woff");
            assert_eq!(content_type, "application/font");
        }
        _ => panic!("expected a file"),
    }
    assert!(matches!(assets::process("POST", "/write"), AssetAction::Decline));
    assert!(matches!(assets::process("GET", "/nothing"), AssetAction::Decline));
}

#[test]
fn comment_lists_take_the_asked_form() {
    assert!(matches!(comment_list_form(ResponseContentType::Html), CommentListForm::Page));
    assert!(matches!(comment_list_form(ResponseContentType::Json), CommentListForm::Json));
    match comment_list_form(ResponseContentType::Xml) {
        CommentListForm::Fixed(Reply::Html { body }) => assert_eq!(body, ""),
        _ => panic!("expected an empty page"),
    }
}
