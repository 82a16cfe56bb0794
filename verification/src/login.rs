//! Signing in, and the tokens that prove it.
//!
//! A token is the base64 text of the AES-256-CBC encryption (PKCS#7
//! padding) of a message that names the member; key and initialisation
//! vector come from the server's settings.
use vstd::prelude::*;
use crate::common::ServerSetting;
use crate::text::str_eq;
use crate::user::{User, UserView};
use crypto::aes::{cbc_decryptor, cbc_encryptor, KeySize};
use crypto::blockmodes::{NoPadding, PkcsPadding};
use crypto::buffer::{BufferResult, RefReadBuffer, RefWriteBuffer, WriteBuffer};

verus! {

/// A member who gave the right password.
pub struct Login {
    pub user: User,
}

/// What a token says of a member.
pub struct SignInfomation {
    pub uid: i32,
    pub email: String,
    pub nickname: String,
}

// ---------------------------------------------------------------------------
// Calls into base64 and rust-crypto
// ---------------------------------------------------------------------------

/// The size of the buffer that a token is decrypted into: one block more
/// than the longest message that a token gives back.
pub const OPEN_BUFFER: usize = 4112;

/// The most bytes of a message that a token gives back.
pub const OPEN_LIMIT: usize = 4096;

/// The size of the buffer that a token is encrypted into.
pub const SEAL_BUFFER: usize = 16384;

/// The base64 digit of a six-bit value, in the standard alphabet.
pub open spec fn base64_digit(v: int) -> char {
    if v < 26 {
        (65 + v) as char
    } else if v < 52 {
        (97 + v - 26) as char
    } else if v < 62 {
        (48 + v - 52) as char
    } else if v == 62 {
        '+'
    } else {
        '/'
    }
}

/// The standard base64 text of some bytes, with `=` padding: each group of
/// three bytes gives four digits of six bits each.
pub open spec fn base64_text(bytes: Seq<u8>) -> Seq<char>
    decreases bytes.len(),
{
    if bytes.len() == 0 {
        Seq::empty()
    } else {
        let b0 = bytes[0] as int;
        let b1 = if bytes.len() > 1 { bytes[1] as int } else { 0 };
        let b2 = if bytes.len() > 2 { bytes[2] as int } else { 0 };
        let d0 = base64_digit(b0 / 4);
        let d1 = base64_digit((b0 % 4) * 16 + b1 / 16);
        let d2 = base64_digit((b1 % 16) * 4 + b2 / 64);
        let d3 = base64_digit(b2 % 64);
        if bytes.len() == 1 {
            seq![d0, d1, '=', '=']
        } else if bytes.len() == 2 {
            seq![d0, d1, d2, '=']
        } else {
            seq![d0, d1, d2, d3] + base64_text(bytes.skip(3))
        }
    }
}

/// The bytes that base64's `decode` reads from a text in the standard
/// alphabet; none where the text is not valid base64.
pub uninterp spec fn base64_bytes(text: Seq<char>) -> Option<Seq<u8>>;

/// A message with PKCS#7 padding: as many bytes as fill its last block of
/// sixteen (a whole block where it ends on one), each worth their number.
pub open spec fn pkcs7_padded(message: Seq<u8>) -> Seq<u8> {
    let n = 16 - message.len() % 16;
    message + Seq::new(n as nat, |i: int| n as u8)
}

/// The part of a 16384-byte buffer that rust-crypto's AES-256 CBC encryptor
/// with PKCS padding fills when it encrypts `plain` in one call that ends the
/// input.
pub uninterp spec fn aes256_cbc_encrypted(key: Seq<u8>, iv: Seq<u8>, plain: Seq<u8>) -> Seq<u8>;

/// What rust-crypto's AES-256 CBC decryptor without padding writes into a
/// 4112-byte buffer when it decrypts `cipher` in one call that ends the
/// input, with whether it finished (rather than filling the buffer); none
/// where it reports an error.
pub uninterp spec fn aes256_cbc_decrypted(key: Seq<u8>, iv: Seq<u8>, cipher: Seq<u8>) -> Option<
    (Seq<u8>, bool),
>;

/// Calls base64's `encode`.  The contract claims that the result is the
/// standard base64 text of the bytes, and that base64's `decode` reads the
/// bytes back from it.
#[verifier::external_body]
fn base64_encode(bytes: &[u8]) -> (r: String)
    requires
        (bytes@.len() + 2) / 3 * 4 <= usize::MAX,
    ensures
        r@ == base64_text(bytes@),
        base64_bytes(r@) == Some(bytes@),
{
    base64::encode(bytes)
}

/// Calls base64's `decode` and drops its error.  The contract claims that the
/// result is what `base64_bytes` names.
#[verifier::external_body]
fn base64_decode(text: &str) -> (r: Option<Vec<u8>>)
    requires
        vstd::utf8::encode_utf8(text@).len() <= usize::MAX - 3,
    ensures
        match r {
            Some(v) => base64_bytes(text@) == Some(v@),
            None => base64_bytes(text@) is None,
        },
{
    match base64::decode(text) {
        Ok(v) => Some(v),
        Err(_) => None,
    }
}

/// Calls rust-crypto's `cbc_encryptor` (AES-256, PKCS padding) and its
/// `encrypt` once, with the end of input, into a 16384-byte buffer, and
/// returns the part written.  The contract claims that this is what
/// `aes256_cbc_encrypted` names, no longer than the buffer, and that the
/// decryptor without padding, with the same key and vector, gives the padded
/// message of at most 4096 bytes back whole, and finishes.
#[verifier::external_body]
fn aes256_cbc_encrypt(key: &[u8], iv: &[u8], plain: &[u8]) -> (r: Vec<u8>)
    requires
        key@.len() == 32,
        iv@.len() == 16,
    ensures
        r@ == aes256_cbc_encrypted(key@, iv@, plain@),
        r@.len() <= SEAL_BUFFER,
        plain@.len() <= OPEN_LIMIT ==> aes256_cbc_decrypted(key@, iv@, r@) == Some(
            (pkcs7_padded(plain@), true),
        ),
{
    let mut encryptor = cbc_encryptor(KeySize::KeySize256, key, iv, PkcsPadding);
    let mut reader = RefReadBuffer::new(plain);
    let mut buffer = [0u8; SEAL_BUFFER];
    let len;
    {
        let mut writer = RefWriteBuffer::new(&mut buffer);
        encryptor.encrypt(&mut reader, &mut writer, true).unwrap();
        len = writer.position();
    }
    buffer[0..len].to_vec()
}

/// Calls rust-crypto's `cbc_decryptor` (AES-256, no padding) and its
/// `decrypt` once, with the end of input, into a 4112-byte buffer, and
/// returns the part written with whether the decryptor finished
/// (`BufferUnderflow`) rather than filled the buffer (`BufferOverflow`), or
/// none on the decryptor's error.  The contract claims that this is what
/// `aes256_cbc_decrypted` names.
#[verifier::external_body]
fn aes256_cbc_decrypt(key: &[u8], iv: &[u8], cipher: &[u8]) -> (r: Option<(Vec<u8>, bool)>)
    requires
        key@.len() == 32,
        iv@.len() == 16,
    ensures
        match r {
            Some((v, done)) => aes256_cbc_decrypted(key@, iv@, cipher@) == Some((v@, done)),
            None => aes256_cbc_decrypted(key@, iv@, cipher@) is None,
        },
{
    let mut decryptor = cbc_decryptor(KeySize::KeySize256, key, iv, NoPadding);
    let mut reader = RefReadBuffer::new(cipher);
    let mut buffer = [0u8; OPEN_BUFFER];
    let (len, done);
    {
        let mut writer = RefWriteBuffer::new(&mut buffer);
        done = match decryptor.decrypt(&mut reader, &mut writer, true) {
            Ok(BufferResult::BufferUnderflow) => true,
            Ok(BufferResult::BufferOverflow) => false,
            Err(_) => return None,
        };
        len = writer.position();
    }
    Some((buffer[0..len].to_vec(), done))
}

// ---------------------------------------------------------------------------
// Tokens
// ---------------------------------------------------------------------------

/// The token that carries a message.
pub open spec fn sealed_token(message: Seq<u8>, key: Seq<u8>, iv: Seq<u8>) -> Seq<char> {
    base64_text(aes256_cbc_encrypted(key, iv, message))
}

/// A decrypted message with its PKCS#7 padding taken off, as rust-crypto's
/// padding check reads the last block: the last byte, at most 16, says how
/// many bytes to take off, and that many final bytes must all be worth it (a
/// last byte of zero takes nothing off).  A last byte above 16 is refused:
/// the crate's own check refuses it unless the whole last block repeats it,
/// and panics then.
pub open spec fn pkcs7_stripped(p: Seq<u8>) -> Option<Seq<u8>> {
    if p.len() == 0 {
        Some(p)
    } else {
        let last = p.last();
        if last <= 16 && last <= p.len() && (forall|i: int|
            p.len() - last <= i < p.len() ==> #[trigger] p[i] == last) {
            Some(p.take(p.len() - last))
        } else {
            None
        }
    }
}

/// The first 4096 bytes of a message, or all of it where it is shorter.
pub open spec fn first_bytes(s: Seq<u8>) -> Seq<u8> {
    if s.len() <= OPEN_LIMIT {
        s
    } else {
        s.take(OPEN_LIMIT as int)
    }
}

/// The message that the decryptor's output gives: where the decryptor
/// finished, the output with its padding taken off; where it filled its
/// buffer, the output as it stands; at most 4096 bytes of it either way.
pub open spec fn opened_plain(raw: Option<(Seq<u8>, bool)>) -> Option<Seq<u8>> {
    match raw {
        Some((p, true)) => match pkcs7_stripped(p) {
            Some(s) => Some(first_bytes(s)),
            None => None,
        },
        Some((p, false)) => Some(first_bytes(p)),
        None => None,
    }
}

/// The message that a token carries, if it is one.
pub open spec fn opened_token(token: Seq<char>, key: Seq<u8>, iv: Seq<u8>) -> Option<Seq<u8>> {
    match base64_bytes(token) {
        Some(cipher) => opened_plain(aes256_cbc_decrypted(key, iv, cipher)),
        None => None,
    }
}

/// Takes the PKCS#7 padding off a decrypted message.
pub fn strip_padding(p: Vec<u8>) -> (r: Option<Vec<u8>>)
    ensures
        match r {
            Some(v) => pkcs7_stripped(p@) == Some(v@),
            None => pkcs7_stripped(p@) is None,
        },
{
    let n = p.len();
    if n == 0 {
        return Some(p);
    }
    let last = p[n - 1];
    if last > 16 || (last as usize) > n {
        return None;
    }
    let k = last as usize;
    let mut i = n - k;
    while i < n
        invariant
            n == p@.len(),
            k == last,
            last == p@.last(),
            n - k <= i <= n,
            forall|j: int| n - k <= j < i ==> #[trigger] p@[j] == last,
        decreases n - i,
    {
        if p[i] != last {
            return None;
        }
        i = i + 1;
    }
    let mut q = p;
    q.truncate(n - k);
    Some(q)
}

/// At most the first 4096 bytes of a message.
fn keep_first_bytes(s: Vec<u8>) -> (r: Vec<u8>)
    ensures
        r@ == first_bytes(s@),
{
    let mut q = s;
    if q.len() > OPEN_LIMIT {
        q.truncate(OPEN_LIMIT);
    }
    q
}

/// The message that the decryptor's output gives (see `opened_plain`).
pub fn open_plain(raw: Option<(Vec<u8>, bool)>) -> (r: Option<Vec<u8>>)
    ensures
        match r {
            Some(v) => opened_plain(
                match raw {
                    Some((p, done)) => Some((p@, done)),
                    None => None,
                },
            ) == Some(v@),
            None => opened_plain(
                match raw {
                    Some((p, done)) => Some((p@, done)),
                    None => None,
                },
            ) is None,
        },
{
    match raw {
        Some((p, true)) => match strip_padding(p) {
            Some(s) => Some(keep_first_bytes(s)),
            None => None,
        },
        Some((p, false)) => Some(keep_first_bytes(p)),
        None => None,
    }
}

/// Only padding comes off: what is left is the start of the decrypted
/// bytes, and what was taken off is at most a block of bytes each worth the
/// number of bytes taken off.
pub proof fn only_padding_comes_off(p: Seq<u8>)
    ensures
        pkcs7_stripped(p) matches Some(m) ==> {
            &&& m.len() <= p.len()
            &&& p.len() - m.len() <= 16
            &&& p.take(m.len() as int) == m
            &&& forall|i: int| m.len() <= i < p.len() ==> #[trigger] p[i] == (p.len() - m.len()) as u8
        },
{
    if let Some(m) = pkcs7_stripped(p) {
        if p.len() > 0 {
            let last = p.last();
            assert(m.len() == p.len() - last);
            assert(p.take(m.len() as int) == m);
        } else {
            assert(p.take(0) == p);
        }
    }
}

/// Taking the padding off a padded message gives the message back.
pub proof fn padding_comes_off(message: Seq<u8>)
    ensures
        pkcs7_stripped(pkcs7_padded(message)) == Some(message),
{
    let p = pkcs7_padded(message);
    let n = 16 - message.len() % 16;
    assert(p.len() == message.len() + n);
    assert(p.last() == n as u8);
    assert(forall|i: int| p.len() - n <= i < p.len() ==> #[trigger] p[i] == n as u8);
    assert(p.take(p.len() - n) == message);
}

/// The key bytes of the settings.
pub open spec fn key_of(setting: ServerSetting) -> Seq<u8> {
    vstd::utf8::encode_utf8(setting.aes_key@)
}

/// The initialisation-vector bytes of the settings.
pub open spec fn iv_of(setting: ServerSetting) -> Seq<u8> {
    vstd::utf8::encode_utf8(setting.aes_iv@)
}

/// Settings that AES-256 can use: a 32-byte key and a 16-byte vector.
pub open spec fn valid_cipher_setting(setting: ServerSetting) -> bool {
    key_of(setting).len() == 32 && iv_of(setting).len() == 16
}

/// The member that a token's information names.
pub open spec fn signed_user(info: SignInfomation) -> UserView {
    UserView {
        uid: Some(info.uid),
        nickname: Some(info.nickname@),
        email: Some(info.email@),
        password: None,
    }
}

impl Login {
    /// Signs a member in where the password digest matches the stored one.
    pub fn try_login(user: User, password: &str) -> (r: Option<Login>)
        requires
            user@.password is Some,
        ensures
            r is Some <==> user@.password->0 == password@,
            r matches Some(l) ==> l.user@ == user@,
    {
        let matches = match user.get_password() {
            Some(p) => str_eq(p.as_str(), password),
            None => false,
        };
        if !matches {
            return None;
        }
        Some(Login { user: user })
    }

    /// The message that a token carries: the token's base64 text decoded,
    /// decrypted with the settings' key and vector, and its padding taken off
    /// (see `opened_plain`); a token whose padding is wrong opens to none.
    pub fn open_token(token: &str, setting: &ServerSetting) -> (r: Option<Vec<u8>>)
        requires
            valid_cipher_setting(*setting),
            vstd::utf8::encode_utf8(token@).len() <= usize::MAX - 3,
        ensures
            match r {
                Some(v) => opened_token(token@, key_of(*setting), iv_of(*setting)) == Some(v@),
                None => opened_token(token@, key_of(*setting), iv_of(*setting)) is None,
            },
    {
        let val = match base64_decode(token) {
            Some(v) => v,
            None => {
                return None;
            },
        };
        let raw = aes256_cbc_decrypt(
            setting.aes_key.as_str().as_bytes(),
            setting.aes_iv.as_str().as_bytes(),
            val.as_slice(),
        );
        open_plain(raw)
    }

    /// The token that carries a message: the message encrypted with the
    /// settings' key and vector, in base64.  Opened with the same settings,
    /// the token gives back a message of at most 4096 bytes whole.
    pub fn seal_token(message: &[u8], setting: &ServerSetting) -> (r: String)
        requires
            valid_cipher_setting(*setting),
        ensures
            r@ == sealed_token(message@, key_of(*setting), iv_of(*setting)),
            message@.len() <= OPEN_LIMIT ==> opened_token(r@, key_of(*setting), iv_of(*setting))
                == Some(message@),
    {
        let cipher = aes256_cbc_encrypt(
            setting.aes_key.as_str().as_bytes(),
            setting.aes_iv.as_str().as_bytes(),
            message,
        );
        proof {
            padding_comes_off(message@);
        }
        base64_encode(cipher.as_slice())
    }

    /// What the token of the signed-in member says of them.
    pub fn sign_information(&self) -> (info: SignInfomation)
        requires
            self.user@.uid is Some,
            self.user@.email is Some,
            self.user@.nickname is Some,
        ensures
            signed_user(info) == (UserView { password: None, ..self.user@ }),
    {
        let uid = match self.user.get_uid() {
            Some(v) => *v,
            None => 0,
        };
        let email = match self.user.get_email() {
            Some(v) => v.clone(),
            None => String::new(),
        };
        let nickname = match self.user.get_nickname() {
            Some(v) => v.clone(),
            None => String::new(),
        };
        SignInfomation { uid: uid, email: email, nickname: nickname }
    }

    /// The member that a token's information names.
    pub fn user_from_sign(info: SignInfomation) -> (u: User)
        ensures
            u@ == signed_user(info),
    {
        User::new().uid(info.uid).email(info.email).nickname(info.nickname)
    }
}

} // verus!
