use rs_threads_board::markdown::{
    parse, parse_blackqoute, parse_bold, parse_bytes, parse_linkmark, parse_nomark,
    parse_strikethrough, render,
};
use rs_threads_board::raw_html::raw;

fn html(text: &str) -> String {
    String::from_utf8(parse(text)).unwrap()
}

#[test]
fn plain_text_is_one_paragraph() {
    assert_eq!(html("hello"), "<p>hello</p>");
    assert_eq!(html(""), "<p></p>");
}

#[test]
fn blank_line_starts_a_paragraph() {
    assert_eq!(html("a\n\nb"), "<p>a</p><p>b</p>");
}

#[test]
fn two_spaces_break_the_line() {
    assert_eq!(html("a  b"), "<p>a<br>b</p>");
}

#[test]
fn angle_brackets_are_escaped() {
    assert_eq!(html("<script>"), "<p>&lt;script&gt;</p>");
}

#[test]
fn bold_and_strike() {
    assert_eq!(html("**bold**"), "<p><strong>bold</strong></p>");
    assert_eq!(html("__bold__"), "<p><strong>bold</strong></p>");
    assert_eq!(html("~~gone~~"), "<p><del>gone</del></p>");
    assert_eq!(html("--gone--"), "<p><del>gone</del></p>");
    assert_eq!(html("x **y** z"), "<p>x <strong>y</strong> z</p>");
}

#[test]
fn spans_nest() {
    assert_eq!(html("**a~~b~~c**"), "<p><strong>a<del>b</del>c</strong></p>");
    assert_eq!(html("~~a__b__c~~"), "<p><del>a<strong>b</strong>c</del></p>");
}

#[test]
fn span_contents_are_not_escaped() {
    assert_eq!(html("**<b>**"), "<p><strong><b></strong></p>");
}

#[test]
fn unclosed_span_is_kept() {
    assert_eq!(html("**abc"), "<p>**abc</p>");
    assert_eq!(html("**"), "<p>**</p>");
}

#[test]
fn verbatim_text() {
    assert_eq!(html("{{<b>**x**</b>}}"), "<p>&lt;b&gt;**x**&lt;/b&gt;</p>");
    assert_eq!(html("{{abc"), "<p>{{abc</p>");
}

#[test]
fn links() {
    assert_eq!(html("[label](http://x)"), "<p><a href=\"http://x\">label</a></p>");
    assert_eq!(html("[a](x\"y)"), "<p><a href=\"x%22y\">a</a></p>");
    assert_eq!(html("[<i>](u)"), "<p><a href=\"u\">&lt;i&gt;</a></p>");
    assert_eq!(html("[abc"), "<p>[abc</p>");
    assert_eq!(html("[a](b"), "<p>[a](b</p>");
    assert_eq!(html("**[a](b)**"), "<p><strong><a href=\"b\">a</a></strong></p>");
}

#[test]
fn link_target_starts_after_the_last_open_parenthesis() {
    assert_eq!(html("[a](b(c)d"), "<p><a href=\"c\">a</a>d</p>");
}

#[test]
fn multibyte_text_is_kept() {
    assert_eq!(html("가나 **다**"), "<p>가나 <strong>다</strong></p>");
}

#[test]
fn reading_functions() {
    let (rest, out) = parse_linkmark(b"[x](y)z");
    assert_eq!(rest, b"z");
    assert_eq!(out, b"<a href=\"y\">x</a>".to_vec());
    let (rest, out) = parse_nomark(b"{{a}}b");
    assert_eq!(rest, b"b");
    assert_eq!(out, b"a".to_vec());
    let (rest, out) = parse_bold(b"**a**b", b"**");
    assert_eq!(rest, b"b");
    assert_eq!(out, b"<strong>a</strong>".to_vec());
    let (rest, out) = parse_strikethrough(b"~~a", b"~~");
    assert_eq!(rest, b"~a");
    assert_eq!(out, b"~".to_vec());
    let (rest, out) = parse_blackqoute(b"> q");
    assert_eq!(rest, b"> q");
    assert!(out.is_empty());
    assert_eq!(parse_bytes(b"a"), b"<p>a</p>".to_vec());
}

#[test]
fn rendered_markdown_is_appended() {
    let mut out = b"x".to_vec();
    assert!(render("**b**").to_html(&mut out).is_ok());
    assert_eq!(out, b"x<p><strong>b</strong></p>".to_vec());
}

#[test]
fn raw_text_is_not_escaped() {
    let mut out = Vec::new();
    assert!(raw("<b>&</b>").to_html(&mut out).is_ok());
    assert_eq!(out, b"<b>&</b>".to_vec());
}

#[test]
fn laws_on_concrete_texts() {
    // plain text renders unchanged
    assert_eq!(html("abc.DEF!123"), "<p>abc.DEF!123</p>");
    // verbatim text keeps everything but angle brackets
    assert_eq!(html("{{a<b>__c**}}"), "<p>a&lt;b&gt;__c**</p>");
    // a link with a plain label and target
    assert_eq!(html("[x y](/threads/1)"), "<p><a href=\"/threads/1\">x y</a></p>");
    // plain text between markers
    assert_eq!(html("__abc__"), "<p><strong>abc</strong></p>");
    assert_eq!(html("--abc--"), "<p><del>abc</del></p>");
}

#[test]
fn html_of_unicode_text_is_utf8() {
    for text in ["日本語 **太字** ~~取消~~", "[ラベル](目標) {{»«}}", "é\n\nü  ö", "__ñ", "[ø"] {
        assert!(String::from_utf8(parse(text)).is_ok());
    }
    assert_eq!(html("__ñ"), "<p>__ñ</p>");
    assert_eq!(html("[ø"), "<p>[ø</p>");
}

#[test]
fn spans_leave_the_end_of_the_text() {
    for text in [&b"**a** rest"[..], b"**a ~~b~~ [l](t) c** d", b"**never closed", b"__x__"] {
        let (rest, _) = parse_bold(text, &text[..2]);
        assert!(rest.len() < text.len());
        assert_eq!(rest, &text[text.len() - rest.len()..]);
    }
    let text = b"--a **b** c-- tail";
    let (rest, _) = parse_strikethrough(text, b"--");
    assert_eq!(rest, b" tail");
}
