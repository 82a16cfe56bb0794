//! Replies described in plain values; the server turns each into an HTTP
//! response.
use vstd::prelude::*;
use crate::common::error;

verus! {

/// A reply to a request.
#[allow(inconsistent_fields)]
pub enum Reply {
    /// A plain-text body with the given status code.
    Text { body: String, status: u16 },
    /// A plain-text body, status 200, that also carries a JSON content type.
    TextAsJson { body: String },
    /// A body of the given media type, status 200.
    Data { content_type: String, body: Vec<u8> },
    /// An HTML body, status 200.
    Html { body: String },
    /// An empty body, status 304, keeping the given entity tag.
    NotModified { etag: String },
    /// An empty body, status 404.
    NotFound,
}

/// Why a request was refused.
#[derive(Clone, Copy, Debug, PartialEq, Eq, Structural)]
pub enum Failure {
    /// The form lacks a field or holds a malformed one; with the status
    /// code that the route answers this with.
    BadParameter(u16),
    /// The token is not valid, or names someone else.
    NoPermission,
    /// The thread to comment on does not exist.
    NoThread,
    /// The thread does not exist.
    NoSuchThread,
    /// The comment does not exist.
    NoSuchComment,
    /// The thread could not be created.
    ThreadNotCreated,
    /// The e-mail address is already signed up.
    EmailTaken,
    /// No member has the e-mail address.
    NoAccount,
    /// The password is wrong.
    WrongPassword,
}

/// The message of a refusal.
pub open spec fn failure_message(f: Failure) -> Seq<char> {
    match f {
        Failure::BadParameter(_) => "파라메터가 부정확합니다."@,
        Failure::NoPermission => "권한이 없습니다."@,
        Failure::NoThread => "스레드가 존재하지 않습니다."@,
        Failure::NoSuchThread => "해당 스레드는 존재하지 않습니다"@,
        Failure::NoSuchComment => "해당 코멘트는 존재하지 않습니다"@,
        Failure::ThreadNotCreated => "스레드를 생성할 수 없습니다."@,
        Failure::EmailTaken => "이미 가입된 이메일이 있습니다."@,
        Failure::NoAccount => "계정이 존재하지 않습니다."@,
        Failure::WrongPassword => "비밀번호가 틀렸습니다."@,
    }
}

/// The status code of a refusal.
pub open spec fn failure_status(f: Failure) -> u16 {
    match f {
        Failure::BadParameter(code) => code,
        Failure::NoThread | Failure::NoSuchThread | Failure::NoSuchComment => 404,
        _ => 403,
    }
}

impl Failure {
    /// The plain-text reply that refuses the request.
    pub fn reply(&self) -> (r: Reply)
        ensures
            r matches Reply::Text { body, status } && body@ == failure_message(*self) && status
                == failure_status(*self),
    {
        match self {
            Failure::BadParameter(code) => error("파라메터가 부정확합니다.", *code),
            Failure::NoPermission => error("권한이 없습니다.", 403),
            Failure::NoThread => error("스레드가 존재하지 않습니다.", 404),
            Failure::NoSuchThread => error("해당 스레드는 존재하지 않습니다", 404),
            Failure::NoSuchComment => error("해당 코멘트는 존재하지 않습니다", 404),
            Failure::ThreadNotCreated => error("스레드를 생성할 수 없습니다.", 403),
            Failure::EmailTaken => error("이미 가입된 이메일이 있습니다.", 403),
            Failure::NoAccount => error("계정이 존재하지 않습니다.", 403),
            Failure::WrongPassword => error("비밀번호가 틀렸습니다.", 403),
        }
    }
}

/// `{}` as a JSON reply.
pub fn empty_json() -> (r: Reply)
    ensures
        r matches Reply::Data { content_type, body } && content_type@ == "application/json"@
            && body@ == seq![0x7bu8, 0x7du8],
{
    Reply::Data { content_type: "application/json".to_owned(), body: vec![0x7bu8, 0x7du8] }
}

} // verus!
