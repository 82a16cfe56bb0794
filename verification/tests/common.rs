use rs_threads_board::common::{
    accept_ranges, accept_type_for, content_type_of, error, pick_range, quality_text, to_sha3,
    ResponseContentType,
};
use rs_threads_board::response::{empty_json, Failure, Reply};

#[test]
fn sha3_of_empty_text() {
    assert_eq!(
        to_sha3(""),
        "a69f73cca23a9ac5c8b567dc185a756e97c982164fe25859e0d1dcc1475c80a615b2123af1f5f94c11e3e9402c3ac558f500199d95b6d3e301758586281dcd26"
    );
    assert_ne!(to_sha3("a"), to_sha3("b"));
}

#[test]
fn accept_header_pieces() {
    assert_eq!(
        accept_ranges("text/html, application/json;q=0.9"),
        vec!["text/html".to_string(), " application/json;q=0.9".to_string()]
    );
    assert_eq!(quality_text("application/json;q=0.9"), Some("0.9".to_string()));
    assert_eq!(quality_text("text/html"), None);
    assert_eq!(quality_text("a;q=1;q=2"), Some("1;".to_string()));
}

#[test]
fn first_heaviest_range_wins() {
    assert_eq!(pick_range(&vec![10, 9, 10]), 0);
    assert_eq!(pick_range(&vec![3, 9, 10, 10]), 2);
    assert_eq!(pick_range(&vec![5]), 0);
}

#[test]
fn format_of_media_range() {
    assert_eq!(content_type_of("application/json"), ResponseContentType::Json);
    assert_eq!(content_type_of(" application/xml;q=1"), ResponseContentType::Xml);
    assert_eq!(content_type_of("text/xhtml"), ResponseContentType::Html);
    assert_eq!(content_type_of("text/html"), ResponseContentType::Html);
    assert_eq!(content_type_of("a/json/b"), ResponseContentType::Json);
    assert_eq!(content_type_of("*/*"), ResponseContentType::Html);
}

#[test]
fn format_of_accept_header() {
    let ranges = accept_ranges("text/html;q=0.5,application/json");
    assert_eq!(accept_type_for(&ranges, &vec![5, 10]), ResponseContentType::Json);
    assert_eq!(accept_type_for(&ranges, &vec![10, 10]), ResponseContentType::Html);
}

#[test]
fn error_replies() {
    match error("no", 403) {
        Reply::Text { body, status } => {
            assert_eq!(body, "no");
            assert_eq!(status, 403);
        }
        _ => panic!("not a text reply"),
    }
    match Failure::BadParameter(400).reply() {
        Reply::Text { body, status } => {
            assert_eq!(body, "파라메터가 부정확합니다.");
            assert_eq!(status, 400);
        }
        _ => panic!("not a text reply"),
    }
    match Failure::NoSuchComment.reply() {
        Reply::Text { body, status } => {
            assert_eq!(body, "해당 코멘트는 존재하지 않습니다");
            assert_eq!(status, 404);
        }
        _ => panic!("not a text reply"),
    }
    match empty_json() {
        Reply::Data { content_type, body } => {
            assert_eq!(content_type, "application/json");
            assert_eq!(body, b"{}".to_vec());
        }
        _ => panic!("not a data reply"),
    }
}
