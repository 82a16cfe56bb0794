//! The HTML of a UTF-8 text is UTF-8 as well.
//!
//! Every piece of markup is made of ASCII bytes, and the reader only ever
//! cuts the text next to an ASCII byte, so characters of more than one byte
//! pass through whole.
use vstd::prelude::*;
use crate::markdown::{
    anchor, anchor_close, anchor_mid, anchor_open, angle_escaped, body_html, del_close, del_open,
    escape_angles, href_byte, href_escape, lemma_link_parts, line_break, link_parts, linkmark,
    markdown_html, next_piece, nomark, opens_nested, paragraph_break, paragraph_close,
    paragraph_open, prefixed, span, span_body, starts_with_pair, starts_with_tag, strong_close,
    strong_open, verbatim_body, CLOSE_BRACE, DASH, NEWLINE, OPEN_BRACE, OPEN_BRACKET, SPACE, STAR,
    TILDE, UNDERSCORE,
};
use vstd::utf8::{
    decode_first_codepoint, is_char_boundary, is_char_boundary_iff_not_is_continuation_byte,
    is_char_boundary_start_end_of_seq, is_continuation_byte, length_of_first_scalar,
    pop_first_scalar, valid_first_scalar, valid_utf8, valid_utf8_concat, valid_utf8_split,
};

verus! {

/// Every byte of `s` is an ASCII byte.
pub open spec fn all_ascii(s: Seq<u8>) -> bool {
    forall|i: int| 0 <= i < s.len() ==> #[trigger] s[i] < 0x80
}

/// `s` may be cut at `i` without splitting a character.
pub open spec fn cut(s: Seq<u8>, i: int) -> bool {
    0 <= i <= s.len() && (i == s.len() || !is_continuation_byte(s[i]))
}

/// ASCII text is UTF-8.
pub proof fn lemma_ascii_valid(s: Seq<u8>)
    requires
        all_ascii(s),
    ensures
        valid_utf8(s),
    decreases s.len(),
{
    if s.len() > 0 {
        let b = s[0];
        assert(b & 0x7f <= 0x7f) by (bit_vector);
        assert(valid_first_scalar(s));
        let rest = pop_first_scalar(s);
        assert(rest == s.skip(1));
        lemma_ascii_valid(rest);
    }
}

/// A part of a UTF-8 text that lies between two cuts is UTF-8.
pub proof fn lemma_cut_split(s: Seq<u8>, a: int, b: int)
    requires
        valid_utf8(s),
        cut(s, a),
        cut(s, b),
        a <= b,
    ensures
        valid_utf8(s.subrange(a, b)),
{
    is_char_boundary_start_end_of_seq(s);
    if a < s.len() {
        is_char_boundary_iff_not_is_continuation_byte(s, a);
    }
    assert(is_char_boundary(s, a));
    valid_utf8_split(s, a);
    let u = s.subrange(a, s.len() as int);
    is_char_boundary_start_end_of_seq(u);
    if b < s.len() {
        assert(u[b - a] == s[b]);
        is_char_boundary_iff_not_is_continuation_byte(u, b - a);
    }
    assert(is_char_boundary(u, b - a));
    valid_utf8_split(u, b - a);
    assert(u.subrange(0, b - a) == s.subrange(a, b));
}

/// Right after an ASCII byte of a UTF-8 text, the text may be cut.
pub proof fn lemma_cut_after_ascii(s: Seq<u8>, i: int)
    requires
        valid_utf8(s),
        0 <= i < s.len(),
        s[i] < 0x80,
    ensures
        cut(s, i + 1),
{
    lemma_cut_split(s, i, s.len() as int);
    let u = s.subrange(i, s.len() as int);
    if i + 1 < s.len() {
        assert(u[0] == s[i]);
        let rest = pop_first_scalar(u);
        assert(rest == u.skip(1));
        assert(valid_utf8(rest));
        assert(valid_first_scalar(rest));
        assert(rest[0] == s[i + 1]);
    }
}

/// A UTF-8 text with a cut at `i` has UTF-8 on both sides of it.
pub proof fn lemma_cut_sides(s: Seq<u8>, i: int)
    requires
        valid_utf8(s),
        cut(s, i),
    ensures
        valid_utf8(s.take(i)),
        valid_utf8(s.skip(i)),
{
    if s.len() > 0 {
        assert(valid_first_scalar(s));
    }
    assert(cut(s, 0));
    assert(cut(s, s.len() as int));
    lemma_cut_split(s, 0, i);
    lemma_cut_split(s, i, s.len() as int);
    assert(s.take(i) == s.subrange(0, i));
    assert(s.skip(i) == s.subrange(i, s.len() as int));
}

/// A UTF-8 text that starts with a byte above ASCII starts with a character
/// of `k` bytes, all above ASCII, and is UTF-8 on both sides of it.
pub proof fn lemma_first_char(s: Seq<u8>) -> (k: int)
    requires
        valid_utf8(s),
        s.len() > 0,
        s[0] >= 0x80,
    ensures
        2 <= k <= s.len(),
        forall|i: int| 0 <= i < k ==> #[trigger] s[i] >= 0x80,
        valid_utf8(s.take(k)),
        valid_utf8(s.skip(k)),
{
    assert(valid_first_scalar(s));
    let k = length_of_first_scalar(s);
    assert(s.skip(k) == pop_first_scalar(s));
    let h = s.take(k);
    assert(forall|i: int| 0 <= i < k ==> h[i] == s[i]);
    assert(decode_first_codepoint(h) == decode_first_codepoint(s));
    assert(valid_first_scalar(h));
    assert(pop_first_scalar(h).len() == 0);
    assert(valid_utf8(pop_first_scalar(h)));
    k
}

/// Escaping a text escapes its parts one after the other.
pub proof fn lemma_escape_angles_concat(a: Seq<u8>, b: Seq<u8>)
    ensures
        escape_angles(a + b) == escape_angles(a) + escape_angles(b),
    decreases b.len(),
{
    if b.len() == 0 {
        assert(a + b == a);
    } else {
        assert((a + b).drop_last() == a + b.drop_last());
        lemma_escape_angles_concat(a, b.drop_last());
    }
}

/// Bytes above ASCII are not escaped.
proof fn lemma_escape_angles_high(s: Seq<u8>)
    requires
        forall|i: int| 0 <= i < s.len() ==> #[trigger] s[i] >= 0x80,
    ensures
        escape_angles(s) == s,
    decreases s.len(),
{
    if s.len() > 0 {
        lemma_escape_angles_high(s.drop_last());
    }
}

/// Escaping keeps a text UTF-8.
pub proof fn lemma_escape_angles_valid(s: Seq<u8>)
    requires
        valid_utf8(s),
    ensures
        valid_utf8(escape_angles(s)),
    decreases s.len(),
{
    if s.len() > 0 {
        let k: int = if s[0] < 0x80 {
            lemma_cut_after_ascii(s, 0);
            lemma_cut_sides(s, 1);
            assert(escape_angles(s.take(1)) == angle_escaped(s[0])) by {
                assert(s.take(1).drop_last() == Seq::<u8>::empty());
                assert(escape_angles(Seq::<u8>::empty()) == Seq::<u8>::empty());
                assert(Seq::<u8>::empty() + angle_escaped(s[0]) == angle_escaped(s[0]));
            }
            lemma_ascii_valid(angle_escaped(s[0]));
            1
        } else {
            let k = lemma_first_char(s);
            lemma_escape_angles_high(s.take(k));
            k
        };
        assert(s == s.take(k) + s.skip(k));
        lemma_escape_angles_concat(s.take(k), s.skip(k));
        lemma_escape_angles_valid(s.skip(k));
        valid_utf8_concat(escape_angles(s.take(k)), escape_angles(s.skip(k)));
    }
}

/// Encoding a link target escapes its parts one after the other.
pub proof fn lemma_href_escape_concat(a: Seq<u8>, b: Seq<u8>)
    ensures
        href_escape(a + b) == href_escape(a) + href_escape(b),
    decreases b.len(),
{
    if b.len() == 0 {
        assert(a + b == a);
    } else {
        assert((a + b).drop_last() == a + b.drop_last());
        lemma_href_escape_concat(a, b.drop_last());
    }
}

/// Bytes above ASCII are not encoded in a link target.
proof fn lemma_href_escape_high(s: Seq<u8>)
    requires
        forall|i: int| 0 <= i < s.len() ==> #[trigger] s[i] >= 0x80,
    ensures
        href_escape(s) == s,
    decreases s.len(),
{
    if s.len() > 0 {
        lemma_href_escape_high(s.drop_last());
    }
}

/// Encoding a link target keeps it UTF-8.
pub proof fn lemma_href_escape_valid(s: Seq<u8>)
    requires
        valid_utf8(s),
    ensures
        valid_utf8(href_escape(s)),
    decreases s.len(),
{
    if s.len() > 0 {
        let k: int = if s[0] < 0x80 {
            lemma_cut_after_ascii(s, 0);
            lemma_cut_sides(s, 1);
            assert(href_escape(s.take(1)) == href_byte(s[0])) by {
                assert(s.take(1).drop_last() == Seq::<u8>::empty());
                assert(href_escape(Seq::<u8>::empty()) == Seq::<u8>::empty());
                assert(Seq::<u8>::empty() + href_byte(s[0]) == href_byte(s[0]));
            }
            lemma_ascii_valid(href_byte(s[0]));
            1
        } else {
            let k = lemma_first_char(s);
            lemma_href_escape_high(s.take(k));
            k
        };
        assert(s == s.take(k) + s.skip(k));
        lemma_href_escape_concat(s.take(k), s.skip(k));
        lemma_href_escape_valid(s.skip(k));
        valid_utf8_concat(href_escape(s.take(k)), href_escape(s.skip(k)));
    }
}

/// Prefixing with nothing changes nothing.
proof fn lemma_prefixed_empty(o: Option<(Seq<u8>, Seq<u8>)>)
    ensures
        prefixed(Seq::empty(), o) == o,
{
    if let Some((rest, out)) = o {
        assert(Seq::<u8>::empty() + out == out);
    }
}

/// Prefixing twice is prefixing with both.
proof fn lemma_prefixed_twice(a: Seq<u8>, b: Seq<u8>, o: Option<(Seq<u8>, Seq<u8>)>)
    ensures
        prefixed(a, prefixed(b, o)) == prefixed(a + b, o),
{
    if let Some((rest, out)) = o {
        assert(a + (b + out) == (a + b) + out);
    }
}

/// Bytes above ASCII are copied one by one out of the text.
proof fn lemma_body_html_run(t: Seq<u8>, j: int)
    requires
        0 <= j <= t.len(),
        forall|i: int| 0 <= i < j ==> #[trigger] t[i] >= 0x80,
    ensures
        body_html(t) == t.take(j) + body_html(t.skip(j)),
    decreases j,
{
    if j == 0 {
        assert(t.skip(0) == t);
        assert(t.take(0) + body_html(t) == body_html(t));
    } else {
        let u = t.skip(1);
        assert(t[0] >= 0x80);
        assert(next_piece(t) == (u, seq![t[0]]));
        assert(body_html(t) == seq![t[0]] + body_html(u));
        assert forall|i: int| 0 <= i < j - 1 implies #[trigger] u[i] >= 0x80 by {
            assert(u[i] == t[i + 1]);
        }
        lemma_body_html_run(u, j - 1);
        assert(u.skip(j - 1) == t.skip(j));
        assert(seq![t[0]] + u.take(j - 1) == t.take(j));
        assert(seq![t[0]] + (u.take(j - 1) + body_html(t.skip(j))) == t.take(j) + body_html(
            t.skip(j),
        ));
    }
}

/// Inside a span, bytes above ASCII are copied one by one.
proof fn lemma_span_body_run(t: Seq<u8>, tag: Seq<u8>, strong: bool, j: int)
    requires
        0 <= j <= t.len(),
        forall|i: int| 0 <= i < j ==> #[trigger] t[i] >= 0x80,
        all_ascii(tag),
    ensures
        span_body(t, tag, strong) == prefixed(t.take(j), span_body(t.skip(j), tag, strong)),
    decreases j,
{
    if j == 0 {
        assert(t.skip(0) == t);
        assert(t.take(0) == Seq::<u8>::empty());
        lemma_prefixed_empty(span_body(t, tag, strong));
    } else {
        let u = t.skip(1);
        assert(t[0] >= 0x80);
        assert(span_body(t, tag, strong) == prefixed(seq![t[0]], span_body(u, tag, strong)));
        assert forall|i: int| 0 <= i < j - 1 implies #[trigger] u[i] >= 0x80 by {
            assert(u[i] == t[i + 1]);
        }
        lemma_span_body_run(u, tag, strong, j - 1);
        assert(u.skip(j - 1) == t.skip(j));
        assert(seq![t[0]] + u.take(j - 1) == t.take(j));
        lemma_prefixed_twice(seq![t[0]], u.take(j - 1), span_body(t.skip(j), tag, strong));
    }
}

/// Inside verbatim text, bytes above ASCII are copied one by one.
proof fn lemma_verbatim_body_run(t: Seq<u8>, j: int)
    requires
        0 <= j <= t.len(),
        forall|i: int| 0 <= i < j ==> #[trigger] t[i] >= 0x80,
    ensures
        verbatim_body(t) == prefixed(t.take(j), verbatim_body(t.skip(j))),
    decreases j,
{
    if j == 0 {
        assert(t.skip(0) == t);
        assert(t.take(0) == Seq::<u8>::empty());
        lemma_prefixed_empty(verbatim_body(t));
    } else if t.len() < 2 {
        assert(t.skip(j).len() < 2);
    } else {
        let u = t.skip(1);
        assert(t[0] >= 0x80);
        assert(verbatim_body(t) == prefixed(seq![t[0]], verbatim_body(u)));
        assert forall|i: int| 0 <= i < j - 1 implies #[trigger] u[i] >= 0x80 by {
            assert(u[i] == t[i + 1]);
        }
        lemma_verbatim_body_run(u, j - 1);
        assert(u.skip(j - 1) == t.skip(j));
        assert(seq![t[0]] + u.take(j - 1) == t.take(j));
        lemma_prefixed_twice(seq![t[0]], u.take(j - 1), verbatim_body(t.skip(j)));
    }
}

/// A link read off a UTF-8 text leaves UTF-8 behind and gives UTF-8.
pub proof fn lemma_linkmark_valid(s: Seq<u8>)
    requires
        valid_utf8(s),
        s.len() >= 1,
        s[0] == OPEN_BRACKET,
    ensures
        valid_utf8(linkmark(s).0),
        valid_utf8(linkmark(s).1),
{
    lemma_cut_after_ascii(s, 0);
    lemma_link_parts(s);
    match link_parts(s) {
        Some((c, start, end)) => {
            lemma_cut_after_ascii(s, start - 1);
            lemma_cut_after_ascii(s, end);
            lemma_cut_split(s, 1, c);
            lemma_cut_split(s, start, end);
            lemma_cut_sides(s, end + 1);
            let target = s.subrange(start, end);
            let label = s.subrange(1, c);
            lemma_href_escape_valid(target);
            lemma_escape_angles_valid(label);
            lemma_ascii_valid(anchor_open());
            lemma_ascii_valid(anchor_mid());
            lemma_ascii_valid(anchor_close());
            valid_utf8_concat(anchor_open(), href_escape(target));
            valid_utf8_concat(anchor_open() + href_escape(target), anchor_mid());
            valid_utf8_concat(
                anchor_open() + href_escape(target) + anchor_mid(),
                escape_angles(label),
            );
            valid_utf8_concat(
                anchor_open() + href_escape(target) + anchor_mid() + escape_angles(label),
                anchor_close(),
            );
            assert(linkmark(s).1 == anchor(target, label));
        },
        None => {
            lemma_cut_sides(s, 1);
            lemma_ascii_valid(seq![OPEN_BRACKET]);
        },
    }
}

/// Verbatim text read off a UTF-8 text leaves UTF-8 behind and gives UTF-8.
pub proof fn lemma_verbatim_body_valid(t: Seq<u8>)
    requires
        valid_utf8(t),
    ensures
        verbatim_body(t) matches Some((rest, out)) ==> valid_utf8(rest) && valid_utf8(out),
    decreases t.len(),
{
    if t.len() < 2 {
    } else if starts_with_pair(t, CLOSE_BRACE) {
        lemma_cut_after_ascii(t, 1);
        lemma_cut_sides(t, 2);
        lemma_ascii_valid(Seq::<u8>::empty());
    } else if t[0] < 0x80 {
        lemma_cut_after_ascii(t, 0);
        lemma_cut_sides(t, 1);
        lemma_verbatim_body_valid(t.skip(1));
        lemma_ascii_valid(angle_escaped(t[0]));
        if let Some((rest, out)) = verbatim_body(t.skip(1)) {
            valid_utf8_concat(angle_escaped(t[0]), out);
        }
    } else {
        let k = lemma_first_char(t);
        lemma_verbatim_body_run(t, k);
        lemma_verbatim_body_valid(t.skip(k));
        if let Some((rest, out)) = verbatim_body(t.skip(k)) {
            valid_utf8_concat(t.take(k), out);
        }
    }
}

/// Verbatim markup read off a UTF-8 text leaves UTF-8 behind and gives UTF-8.
pub proof fn lemma_nomark_valid(s: Seq<u8>)
    requires
        valid_utf8(s),
        starts_with_pair(s, OPEN_BRACE),
    ensures
        valid_utf8(nomark(s).0),
        valid_utf8(nomark(s).1),
{
    lemma_cut_after_ascii(s, 0);
    lemma_cut_after_ascii(s, 1);
    lemma_cut_sides(s, 1);
    lemma_cut_sides(s, 2);
    lemma_verbatim_body_valid(s.skip(2));
    lemma_ascii_valid(seq![OPEN_BRACE]);
}

/// A span read off a UTF-8 text leaves UTF-8 behind and gives UTF-8.
pub proof fn lemma_span_valid(text: Seq<u8>, tag: Seq<u8>, strong: bool)
    requires
        valid_utf8(text),
        all_ascii(tag),
        tag.len() == 2,
        text.len() >= 2 ==> text[0] < 0x80 && text[1] < 0x80,
    ensures
        valid_utf8(span(text, tag, strong).0),
        valid_utf8(span(text, tag, strong).1),
    decreases text.len(), 0int,
{
    if text.len() >= 2 {
        lemma_cut_after_ascii(text, 0);
        lemma_cut_after_ascii(text, 1);
        lemma_cut_sides(text, 1);
        lemma_cut_sides(text, 2);
        lemma_span_body_valid(text.skip(2), tag, strong);
        match span_body(text.skip(2), tag, strong) {
            Some((rest, inner)) => {
                lemma_ascii_valid(strong_open());
                lemma_ascii_valid(strong_close());
                lemma_ascii_valid(del_open());
                lemma_ascii_valid(del_close());
                valid_utf8_concat(strong_open(), inner);
                valid_utf8_concat(strong_open() + inner, strong_close());
                valid_utf8_concat(del_open(), inner);
                valid_utf8_concat(del_open() + inner, del_close());
            },
            None => {
                lemma_ascii_valid(tag.take(1));
            },
        }
    }
}

/// The inside of a span read off a UTF-8 text leaves UTF-8 behind and gives
/// UTF-8.
pub proof fn lemma_span_body_valid(t: Seq<u8>, tag: Seq<u8>, strong: bool)
    requires
        valid_utf8(t),
        all_ascii(tag),
        tag.len() == 2,
    ensures
        span_body(t, tag, strong) matches Some((rest, out)) ==> valid_utf8(rest) && valid_utf8(
            out,
        ),
    decreases t.len(), 1int,
{
    if t.len() == 0 {
    } else if starts_with_tag(t, tag) {
        lemma_cut_after_ascii(t, 1);
        lemma_cut_sides(t, 2);
        lemma_ascii_valid(Seq::<u8>::empty());
    } else if t[0] >= 0x80 {
        let k = lemma_first_char(t);
        lemma_span_body_run(t, tag, strong, k);
        lemma_span_body_valid(t.skip(k), tag, strong);
        if let Some((rest, out)) = span_body(t.skip(k), tag, strong) {
            valid_utf8_concat(t.take(k), out);
        }
    } else {
        let step = if opens_nested(t, strong) {
            lemma_span_valid(t, t.take(2), !strong);
            span(t, t.take(2), !strong)
        } else if t[0] == OPEN_BRACKET {
            lemma_linkmark_valid(t);
            linkmark(t)
        } else {
            lemma_cut_after_ascii(t, 0);
            lemma_cut_sides(t, 1);
            lemma_ascii_valid(seq![t[0]]);
            (t.skip(1), seq![t[0]])
        };
        if step.0.len() < t.len() {
            lemma_span_body_valid(step.0, tag, strong);
            if let Some((rest, out)) = span_body(step.0, tag, strong) {
                valid_utf8_concat(step.1, out);
            }
        }
    }
}

/// The markup at the start of a UTF-8 text, read off, leaves UTF-8 behind
/// and gives UTF-8.
pub proof fn lemma_next_piece_valid(t: Seq<u8>)
    requires
        valid_utf8(t),
        t.len() >= 1,
        t[0] < 0x80,
    ensures
        valid_utf8(next_piece(t).0),
        valid_utf8(next_piece(t).1),
{
    lemma_cut_after_ascii(t, 0);
    lemma_cut_sides(t, 1);
    if t.len() > 2 && (starts_with_pair(t, NEWLINE) || starts_with_pair(t, SPACE)) {
        lemma_cut_after_ascii(t, 1);
        lemma_cut_sides(t, 2);
        lemma_ascii_valid(paragraph_close());
        lemma_ascii_valid(paragraph_open());
        valid_utf8_concat(paragraph_close(), paragraph_open());
        lemma_ascii_valid(line_break());
    } else if t.len() > 2 && (starts_with_pair(t, TILDE) || starts_with_pair(t, DASH)) {
        lemma_span_valid(t, t.take(2), false);
    } else if t.len() > 2 && starts_with_pair(t, OPEN_BRACE) {
        lemma_nomark_valid(t);
    } else if t.len() > 2 && (starts_with_pair(t, UNDERSCORE) || starts_with_pair(t, STAR)) {
        lemma_span_valid(t, t.take(2), true);
    } else if t[0] == OPEN_BRACKET {
        lemma_linkmark_valid(t);
    } else {
        lemma_ascii_valid(angle_escaped(t[0]));
    }
}

/// The HTML of the body of a UTF-8 text is UTF-8.
pub proof fn lemma_body_html_valid(t: Seq<u8>)
    requires
        valid_utf8(t),
    ensures
        valid_utf8(body_html(t)),
    decreases t.len(),
{
    if t.len() == 0 {
        lemma_ascii_valid(Seq::<u8>::empty());
    } else if t[0] >= 0x80 {
        let k = lemma_first_char(t);
        lemma_body_html_run(t, k);
        lemma_body_html_valid(t.skip(k));
        valid_utf8_concat(t.take(k), body_html(t.skip(k)));
    } else {
        lemma_next_piece_valid(t);
        let step = next_piece(t);
        if step.0.len() < t.len() {
            lemma_body_html_valid(step.0);
            valid_utf8_concat(step.1, body_html(step.0));
        } else {
            lemma_ascii_valid(Seq::<u8>::empty());
        }
    }
}

/// The HTML of a text in UTF-8 is UTF-8 as well: whatever markup a comment
/// holds, its rendering can be read as a string.
pub proof fn html_of_utf8_text_is_utf8(text: Seq<u8>)
    requires
        valid_utf8(text),
    ensures
        valid_utf8(markdown_html(text)),
{
    lemma_body_html_valid(text);
    lemma_ascii_valid(paragraph_open());
    lemma_ascii_valid(paragraph_close());
    valid_utf8_concat(paragraph_open(), body_html(text));
    valid_utf8_concat(paragraph_open() + body_html(text), paragraph_close());
}

} // verus!
