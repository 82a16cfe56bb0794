//! A member of the board, as far as it is known.
use vstd::prelude::*;
use crate::text::{decimal, push_decimal};
use crypto::digest::Digest;

verus! {

/// A member of the board; each field is known or not.
pub struct User {
    uid: Option<i32>,
    nickname: Option<String>,
    email: Option<String>,
    password: Option<String>,
}

/// What is known of a member.
pub struct UserView {
    pub uid: Option<i32>,
    pub nickname: Option<Seq<char>>,
    pub email: Option<Seq<char>>,
    pub password: Option<Seq<char>>,
}

/// The characters of a text that may be missing.
pub open spec fn opt_view(s: Option<String>) -> Option<Seq<char>> {
    match s {
        Some(v) => Some(v@),
        None => None,
    }
}

impl View for User {
    type V = UserView;

    closed spec fn view(&self) -> UserView {
        UserView {
            uid: self.uid,
            nickname: opt_view(self.nickname),
            email: opt_view(self.email),
            password: opt_view(self.password),
        }
    }
}

/// `https://www.gravatar.com/avatar/`
pub open spec fn gravatar_prefix() -> Seq<char> {
    seq![
        'h', 't', 't', 'p', 's', ':', '/', '/', 'w', 'w', 'w', '.', 'g', 'r', 'a', 'v', 'a', 't',
        'a', 'r', '.', 'c', 'o', 'm', '/', 'a', 'v', 'a', 't', 'a', 'r', '/',
    ]
}

/// The lowercase hexadecimal MD5 digest of the UTF-8 bytes of a text, as
/// rust-crypto's `Md5` computes it.
pub uninterp spec fn md5_hex(text: Seq<char>) -> Seq<char>;

/// Calls rust-crypto's `Md5::new`, `Digest::input_str` and
/// `Digest::result_str`; the contract claims only that the result is the
/// digest named `md5_hex` of the text.
#[verifier::external_body]
fn md5_hex_of(text: &str) -> (r: String)
    ensures
        r@ == md5_hex(text@),
{
    let mut md5 = crypto::md5::Md5::new();
    md5.input_str(text);
    md5.result_str()
}

/// The avatar address of a member with the given e-mail address, asking for
/// the given size: empty where the address is unknown.
pub open spec fn gravatar_url(email: Option<Seq<char>>, size: Option<u32>) -> Seq<char> {
    match email {
        None => Seq::empty(),
        Some(e) => gravatar_prefix() + md5_hex(e) + match size {
            Some(s) => seq!['?', 's', '='] + decimal(s as nat),
            None => Seq::empty(),
        },
    }
}

impl User {
    /// A member of whom nothing is known yet.
    pub fn new() -> (u: Self)
        ensures
            u@ == (UserView { uid: None, nickname: None, email: None, password: None }),
    {
        Self { uid: None, nickname: None, email: None, password: None }
    }

    /// The same member, with the given number.
    pub fn uid(self, uid: i32) -> (u: Self)
        ensures
            u@ == (UserView { uid: Some(uid), ..self@ }),
    {
        let mut s = self;
        s.uid = Some(uid);
        s
    }

    /// The same member, with the given password (as stored: its digest).
    pub fn password(self, password: String) -> (u: Self)
        ensures
            u@ == (UserView { password: Some(password@), ..self@ }),
    {
        let mut s = self;
        s.password = Some(password);
        s
    }

    /// The same member, with the given e-mail address.
    pub fn email(self, email: String) -> (u: Self)
        ensures
            u@ == (UserView { email: Some(email@), ..self@ }),
    {
        let mut s = self;
        s.email = Some(email);
        s
    }

    /// The same member, with the given nickname.
    pub fn nickname(self, nickname: String) -> (u: Self)
        ensures
            u@ == (UserView { nickname: Some(nickname@), ..self@ }),
    {
        let mut s = self;
        s.nickname = Some(nickname);
        s
    }

    pub fn get_uid(&self) -> (r: Option<&i32>)
        ensures
            match r {
                Some(v) => self@.uid == Some(*v),
                None => self@.uid is None,
            },
    {
        self.uid.as_ref()
    }

    pub fn get_nickname(&self) -> (r: Option<&String>)
        ensures
            match r {
                Some(v) => self@.nickname == Some(v@),
                None => self@.nickname is None,
            },
    {
        self.nickname.as_ref()
    }

    pub fn get_email(&self) -> (r: Option<&String>)
        ensures
            match r {
                Some(v) => self@.email == Some(v@),
                None => self@.email is None,
            },
    {
        self.email.as_ref()
    }

    pub fn get_password(&self) -> (r: Option<&String>)
        ensures
            match r {
                Some(v) => self@.password == Some(v@),
                None => self@.password is None,
            },
    {
        self.password.as_ref()
    }

    /// The address of the member's avatar, asking for the given size.
    pub fn get_gravatar_url(&self, size: Option<u32>) -> (r: String)
        ensures
            r@ == gravatar_url(self@.email, size),
    {
        let mut s = String::new();
        if let Some(v) = &self.email {
            proof {
                reveal_strlit("https://www.gravatar.com/avatar/");
            }
            s.append("https://www.gravatar.com/avatar/");
            let hash = md5_hex_of(v.as_str());
            s.append(hash.as_str());
            if let Some(v) = size {
                proof {
                    reveal_strlit("?s=");
                }
                s.append("?s=");
                push_decimal(&mut s, v as u64);
                assert(s@ == gravatar_prefix() + md5_hex(self@.email->0) + (seq!['?', 's', '=']
                    + decimal(v as nat)));
            } else {
                assert(s@ == gravatar_prefix() + md5_hex(self@.email->0) + Seq::<char>::empty());
            }
        }
        s
    }

    /// Whether an update can name the member: it needs the member's number.
    pub fn can_update(&self) -> (b: bool)
        ensures
            b == (self@.uid is Some),
    {
        self.uid.is_some()
    }

    /// Whether the member can be looked up: it needs the e-mail address.
    pub fn can_find_by_email(&self) -> (b: bool)
        ensures
            b == (self@.email is Some),
    {
        self.email.is_some()
    }

    /// Takes in everything that the stored record of the member holds.
    pub fn fill_from_record(&mut self, uid: i32, nickname: String, email: String, password: String)
        ensures
            final(self)@ == (UserView {
                uid: Some(uid),
                nickname: Some(nickname@),
                email: Some(email@),
                password: Some(password@),
            }),
    {
        self.uid = Some(uid);
        self.nickname = Some(nickname);
        self.email = Some(email);
        self.password = Some(password);
    }

    /// The member just signed up, numbered by the identifier that the store
    /// gave its record (taken modulo 2^32 as a signed number).
    pub fn signed_up(self, insert_id: u64) -> (u: Self)
        ensures
            u@ == (UserView { uid: Some(insert_id as i32), ..self@ }),
    {
        self.uid(insert_id as i32)
    }
}

} // verus!
