use crypto::aes::{cbc_encryptor, KeySize};
use crypto::blockmodes::NoPadding;
use crypto::buffer::{RefReadBuffer, RefWriteBuffer, WriteBuffer};
use rs_threads_board::common::{ServerSetting, to_sha3};
use rs_threads_board::login::{open_plain, strip_padding, Login, SignInfomation};
use rs_threads_board::user::User;

fn setting() -> ServerSetting {
    ServerSetting {
        host: "localhost".to_string(),
        db: "board".to_string(),
        user: "board".to_string(),
        password: "pw".to_string(),
        aes_iv: "0123456789abcdef".to_string(),
        aes_key: "0123456789abcdef0123456789abcdef".to_string(),
    }
}

#[test]
fn builders_set_one_field() {
    let u = User::new();
    assert_eq!(u.get_uid(), None);
    assert_eq!(u.get_email(), None);
    let u = u.uid(7).email("a@b.c".to_string()).nickname("nick".to_string());
    assert_eq!(u.get_uid(), Some(&7));
    assert_eq!(u.get_email(), Some(&"a@b.c".to_string()));
    assert_eq!(u.get_nickname(), Some(&"nick".to_string()));
    assert_eq!(u.get_password(), None);
    let u = u.password("x".to_string());
    assert_eq!(u.get_password(), Some(&"x".to_string()));
    assert!(u.can_update());
    assert!(u.can_find_by_email());
    assert!(!User::new().can_update());
}

#[test]
fn record_fills_every_field() {
    let mut u = User::new().email("e".to_string());
    u.fill_from_record(3, "n".to_string(), "e2".to_string(), "p".to_string());
    assert_eq!(u.get_uid(), Some(&3));
    assert_eq!(u.get_nickname(), Some(&"n".to_string()));
    assert_eq!(u.get_email(), Some(&"e2".to_string()));
    assert_eq!(u.get_password(), Some(&"p".to_string()));
    let s = User::new().signed_up(0x1_0000_0005);
    assert_eq!(s.get_uid(), Some(&5));
}

#[test]
fn gravatar_address() {
    let u = User::new().email("test@example.com".to_string());
    assert_eq!(
        u.get_gravatar_url(Some(80)),
        "https://www.gravatar.com/avatar/55502f40dc8b7c769880b10874abc9d0?s=80"
    );
    assert_eq!(
        u.get_gravatar_url(None),
        "https://www.gravatar.com/avatar/55502f40dc8b7c769880b10874abc9d0"
    );
    assert_eq!(User::new().get_gravatar_url(Some(1)), "");
}

#[test]
fn login_needs_the_right_password() {
    let u = User::new().uid(1).password(to_sha3("secret"));
    assert!(Login::try_login(u, &to_sha3("secret")).is_some());
    let u = User::new().uid(1).password(to_sha3("secret"));
    assert!(Login::try_login(u, &to_sha3("wrong")).is_none());
}

#[test]
fn sealed_token_opens_to_its_message() {
    let s = setting();
    let message = b"{\"uid\":1,\"email\":\"a@b.c\",\"nickname\":\"n\"}";
    let token = Login::seal_token(message, &s);
    assert!(!token.is_empty());
    assert_eq!(Login::open_token(&token, &s), Some(message.to_vec()));
}

#[test]
fn foreign_tokens_do_not_open() {
    let s = setting();
    assert_eq!(Login::open_token("!!!", &s), None);
    assert_eq!(Login::open_token("AAAA", &s), None);
    let mut other = setting();
    other.aes_key = "fedcba9876543210fedcba9876543210".to_string();
    let token = Login::seal_token(b"hello", &other);
    assert_ne!(Login::open_token(&token, &s), Some(b"hello".to_vec()));
}

#[test]
fn token_information_names_the_member() {
    let u = User::new().uid(4).email("e".to_string()).nickname("n".to_string()).password("p".to_string());
    let login = Login::try_login(u, "p").unwrap();
    let info = login.sign_information();
    assert_eq!(info.uid, 4);
    assert_eq!(info.email, "e");
    assert_eq!(info.nickname, "n");
    let back = Login::user_from_sign(SignInfomation { uid: 4, email: "e".to_string(), nickname: "n".to_string() });
    assert_eq!(back.get_uid(), Some(&4));
    assert_eq!(back.get_password(), None);
}

fn raw_token(plain: &[u8], s: &ServerSetting) -> String {
    let mut enc = cbc_encryptor(KeySize::KeySize256, s.aes_key.as_bytes(), s.aes_iv.as_bytes(), NoPadding);
    let mut reader = RefReadBuffer::new(plain);
    let mut buffer = [0u8; 8192];
    let len;
    {
        let mut writer = RefWriteBuffer::new(&mut buffer);
        enc.encrypt(&mut reader, &mut writer, true).unwrap();
        len = writer.position();
    }
    base64::encode(&buffer[0..len])
}

#[test]
fn long_messages_open_whole_up_to_the_limit() {
    let s = setting();
    let message = vec![b'x'; 4096];
    let token = Login::seal_token(&message, &s);
    assert_eq!(Login::open_token(&token, &s), Some(message));
    let longer = vec![b'y'; 5000];
    let token = Login::seal_token(&longer, &s);
    assert_eq!(Login::open_token(&token, &s), Some(vec![b'y'; 4096]));
}

#[test]
fn padding_is_checked() {
    let s = setting();
    // a last block of sixteen equal bytes worth more than 16 is refused
    assert_eq!(Login::open_token(&raw_token(&[0x41u8; 16], &s), &s), None);
    // a padding byte that disagrees with the last one is refused
    let mut block = [0x03u8; 16];
    block[14] = 0x07;
    assert_eq!(Login::open_token(&raw_token(&block, &s), &s), None);
    // a last byte of zero takes nothing off
    assert_eq!(Login::open_token(&raw_token(&[0u8; 16], &s), &s), Some(vec![0u8; 16]));
    // a proper padding comes off
    let mut block = [b'a'; 16];
    block[13] = 3;
    block[14] = 3;
    block[15] = 3;
    assert_eq!(Login::open_token(&raw_token(&block, &s), &s), Some(vec![b'a'; 13]));
    assert_eq!(Login::open_token(&raw_token(&[], &s), &s), Some(vec![]));
}

#[test]
fn strip_padding_follows_the_last_byte() {
    assert_eq!(strip_padding(vec![]), Some(vec![]));
    assert_eq!(strip_padding(vec![1, 2, 2]), Some(vec![1]));
    assert_eq!(strip_padding(vec![1, 3, 2]), None);
    assert_eq!(strip_padding(vec![5, 0]), Some(vec![5, 0]));
    assert_eq!(strip_padding(vec![17; 17]), None);
    assert_eq!(strip_padding(vec![4, 4]), None);
    assert_eq!(open_plain(Some((vec![7, 1], false))), Some(vec![7, 1]));
    assert_eq!(open_plain(Some((vec![7, 1], true))), Some(vec![7]));
    assert_eq!(open_plain(None), None);
}
