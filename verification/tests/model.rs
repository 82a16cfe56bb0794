use chrono::NaiveDate;
use rs_threads_board::db_conn::{tag_like_pattern, thread_list_sql};
use rs_threads_board::model::{Comment, Tag, Thread, ToHTML};
use rs_threads_board::user::User;

fn when() -> chrono::NaiveDateTime {
    NaiveDate::from_ymd_opt(2018, 5, 1).unwrap().and_hms_opt(12, 0, 0).unwrap()
}

#[test]
fn displayed_text_is_escaped() {
    let mut out = Vec::new();
    assert!(Some("<a & b>".to_string()).to_html(&mut out).is_ok());
    assert_eq!(out, b"&lt;a &amp; b&gt;".to_vec());
    let mut out = b"x".to_vec();
    assert!(None::<String>.to_html(&mut out).is_ok());
    assert_eq!(out, b"x".to_vec());
}

#[test]
fn records_keep_their_fields() {
    let c = Comment::new(3, User::new().uid(1), when(), "hi".to_string());
    assert_eq!(c.get_uid(), 3);
    assert_eq!(c.get_user().get_uid(), Some(&1));
    assert_eq!(*c.get_writed_datetime(), when());
    assert_eq!(c.get_content(), "hi");
    let t = Thread::new(9, "subject".to_string(), when(), when(), User::new().uid(2));
    assert_eq!(t.get_uid(), 9);
    assert_eq!(t.get_subject(), "subject");
    assert_eq!(t.get_opener().get_uid(), Some(&2));
    assert_eq!(*t.get_recent_update_datetime(), when());
    assert_eq!(*t.get_open_datetime(), when());
}

#[test]
fn tag_thread_count() {
    let t = Tag::new("rust".to_string());
    assert_eq!(t.get_name(), "rust");
    assert_eq!(t.get_thread_count(), 0);
    let t = t.with_thread_count(4);
    assert_eq!(t.get_thread_count(), 4);
}

#[test]
fn thread_list_statement() {
    assert_eq!(thread_list_sql(false, 0, 25), "SELECT * FROM v_thread_list LIMIT 0, 25");
    assert_eq!(
        thread_list_sql(true, 50, 10),
        "SELECT * FROM v_thread_list WHERE INSTR(subject, ?)LIMIT 50, 10"
    );
    assert_eq!(tag_like_pattern("ru"), "%ru%");
}

fn unescape(w: &[u8]) -> Vec<u8> {
    let mut out = Vec::new();
    let mut i = 0;
    while i < w.len() {
        if w[i..].starts_with(b"&lt;") {
            out.push(b'<');
            i += 4;
        } else if w[i..].starts_with(b"&gt;") {
            out.push(b'>');
            i += 4;
        } else if w[i..].starts_with(b"&amp;") {
            out.push(b'&');
            i += 5;
        } else {
            out.push(w[i]);
            i += 1;
        }
    }
    out
}

#[test]
fn escaped_html_reads_back_as_the_text() {
    for s in ["<a & b>", "&lt; is written &amp;lt;", "plain", ""] {
        let mut out = Vec::new();
        assert!(Some(s.to_string()).to_html(&mut out).is_ok());
        assert!(!out.contains(&b'<') && !out.contains(&b'>'));
        assert_eq!(unescape(&out), s.as_bytes());
    }
}
