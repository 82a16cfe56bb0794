use rs_threads_board::routing::{
    etag_matches, match_named, match_numbered, method_of, parse_unsigned_text, request_path,
    strip_prefix, Method,
};

#[test]
fn methods_by_name() {
    assert_eq!(method_of("GET"), Method::Get);
    assert_eq!(method_of("POST"), Method::Post);
    assert_eq!(method_of("PUT"), Method::Put);
    assert_eq!(method_of("DELETE"), Method::Delete);
    assert_eq!(method_of("get"), Method::Other);
}

#[test]
fn path_stops_at_query() {
    assert_eq!(request_path("/threads?q=a"), "/threads");
    assert_eq!(request_path("/threads"), "/threads");
}

#[test]
fn reads_unsigned_numbers() {
    assert_eq!(parse_unsigned_text("12", u64::MAX), Some(12));
    assert_eq!(parse_unsigned_text("+7", u64::MAX), Some(7));
    assert_eq!(parse_unsigned_text("007", u64::MAX), Some(7));
    assert_eq!(parse_unsigned_text("", u64::MAX), None);
    assert_eq!(parse_unsigned_text("+", u64::MAX), None);
    assert_eq!(parse_unsigned_text("-1", u64::MAX), None);
    assert_eq!(parse_unsigned_text("1a", u64::MAX), None);
    assert_eq!(parse_unsigned_text("4294967295", 0xffff_ffff), Some(4294967295));
    assert_eq!(parse_unsigned_text("4294967296", 0xffff_ffff), None);
    assert_eq!(parse_unsigned_text("18446744073709551615", u64::MAX), Some(u64::MAX));
    assert_eq!(parse_unsigned_text("18446744073709551616", u64::MAX), None);
}

#[test]
fn numbered_paths() {
    let threads = ['/', 't', 'h', 'r', 'e', 'a', 'd', 's'];
    let comments = ['/', 'c', 'o', 'm', 'm', 'e', 'n', 't', 's'];
    assert_eq!(match_numbered("/threads/12/comments", &threads, &comments), Some(12));
    assert_eq!(match_numbered("/threads/%31%32/comments", &threads, &comments), Some(12));
    assert_eq!(match_numbered("/threads/x/comments", &threads, &comments), None);
    assert_eq!(match_numbered("/threads/12/comment", &threads, &comments), None);
    assert_eq!(match_numbered("/threads/12", &threads, &[]), Some(12));
    assert_eq!(match_numbered("/threads/12/", &threads, &[]), None);
    assert_eq!(match_numbered("/threadsX/12", &threads, &[]), None);
    assert_eq!(strip_prefix("/threadsX", &threads), Some("X"));
}

#[test]
fn named_paths() {
    let tags = ['/', 't', 'a', 'g', 's'];
    assert_eq!(match_named("/tags/rust", &tags), Some("rust".to_string()));
    assert_eq!(match_named("/tags/%EA%B0%80", &tags), Some("가".to_string()));
    assert_eq!(match_named("/tags/a/b", &tags), None);
    assert_eq!(match_named("/tags", &tags), None);
}

#[test]
fn entity_tags() {
    assert!(etag_matches(&Some("\"abc\"".to_string()), "abc"));
    assert!(etag_matches(&Some("abc".to_string()), "abc"));
    assert!(!etag_matches(&Some("\"abc\"".to_string()), "abd"));
    assert!(!etag_matches(&None, "abc"));
}
