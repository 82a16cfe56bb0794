//! What the markdown rendering promises of whole texts.
use vstd::prelude::*;
use crate::markdown_utf8::{lemma_escape_angles_concat, lemma_href_escape_concat};
use crate::markdown::{
    anchor, angle_escaped, body_html, del_close, del_open, escape_angles, first_close_bracket,
    href_escape, line_break, link_parts, link_target, linkmark, markdown_html, next_piece, nomark,
    paragraph_break, paragraph_close, paragraph_open, span, span_body, strong_close, strong_open, verbatim_body, CLOSE_BRACE,
    CLOSE_BRACKET, CLOSE_PAREN, DASH, GT, LT, NEWLINE, OPEN_BRACE, OPEN_BRACKET, OPEN_PAREN,
    SPACE, STAR, TILDE, UNDERSCORE,
};

verus! {

/// `&lt;`, written out.
pub open spec fn lt_entity() -> Seq<u8> {
    seq![0x26u8, 0x6cu8, 0x74u8, 0x3bu8]
}

/// `&gt;`, written out.
pub open spec fn gt_entity() -> Seq<u8> {
    seq![0x26u8, 0x67u8, 0x74u8, 0x3bu8]
}

proof fn lemma_escape_angles_identity(s: Seq<u8>)
    requires
        forall|i: int| 0 <= i < s.len() ==> #[trigger] s[i] != 0x3c && s[i] != 0x3e,
    ensures
        escape_angles(s) == s,
    decreases s.len(),
{
    if s.len() > 0 {
        lemma_escape_angles_identity(s.drop_last());
        assert(s.drop_last() + seq![s.last()] == s);
    }
}

/// Escaping ordinary text changes its angle brackets only: text without them
/// is its own escaped form, and each `<` or `>`, wherever it stands, becomes
/// `&lt;` or `&gt;` with the text on either side escaped on its own.
pub proof fn escaping_changes_only_angle_brackets(a: Seq<u8>, b: Seq<u8>)
    ensures
        (forall|i: int| 0 <= i < a.len() ==> #[trigger] a[i] != 0x3c && a[i] != 0x3e)
            ==> escape_angles(a) == a,
        escape_angles(a + seq![0x3cu8] + b) == escape_angles(a) + lt_entity() + escape_angles(b),
        escape_angles(a + seq![0x3eu8] + b) == escape_angles(a) + gt_entity() + escape_angles(b),
{
    if forall|i: int| 0 <= i < a.len() ==> #[trigger] a[i] != 0x3c && a[i] != 0x3e {
        lemma_escape_angles_identity(a);
    }
    let one = seq![0x3cu8];
    lemma_escape_angles_concat(a + one, b);
    lemma_escape_angles_concat(a, one);
    assert(one.drop_last() == Seq::<u8>::empty());
    assert(escape_angles(Seq::<u8>::empty()) == Seq::<u8>::empty());
    assert(escape_angles(one) == lt_entity());
    let two = seq![0x3eu8];
    lemma_escape_angles_concat(a + two, b);
    lemma_escape_angles_concat(a, two);
    assert(two.drop_last() == Seq::<u8>::empty());
    assert(escape_angles(two) == gt_entity());
}

proof fn lemma_href_escape_identity(s: Seq<u8>)
    requires
        forall|i: int| 0 <= i < s.len() ==> #[trigger] s[i] != 0x22,
    ensures
        href_escape(s) == s,
    decreases s.len(),
{
    if s.len() > 0 {
        lemma_href_escape_identity(s.drop_last());
        assert(s.drop_last() + seq![s.last()] == s);
    }
}

/// A link target keeps every byte but the double quote, which becomes `%22`
/// wherever it stands: a target without one, percent signs and all, is
/// linked to as it is written.
pub proof fn link_targets_change_only_quotes(a: Seq<u8>, b: Seq<u8>)
    ensures
        (forall|i: int| 0 <= i < a.len() ==> #[trigger] a[i] != 0x22) ==> href_escape(a) == a,
        href_escape(a + seq![0x22u8] + b) == href_escape(a) + seq![0x25u8, 0x32u8, 0x32u8]
            + href_escape(b),
{
    if forall|i: int| 0 <= i < a.len() ==> #[trigger] a[i] != 0x22 {
        lemma_href_escape_identity(a);
    }
    let q = seq![0x22u8];
    lemma_href_escape_concat(a + q, b);
    lemma_href_escape_concat(a, q);
    assert(q.drop_last() == Seq::<u8>::empty());
    assert(href_escape(Seq::<u8>::empty()) == Seq::<u8>::empty());
    assert(href_escape(q) == seq![0x25u8, 0x32u8, 0x32u8]);
}

/// A byte that never starts any markup and is never escaped.
pub open spec fn is_plain_byte(b: u8) -> bool {
    &&& b != LT
    &&& b != GT
    &&& b != OPEN_BRACKET
    &&& b != NEWLINE
    &&& b != SPACE
    &&& b != TILDE
    &&& b != DASH
    &&& b != OPEN_BRACE
    &&& b != UNDERSCORE
    &&& b != STAR
}

/// A text made of plain bytes only.
pub open spec fn is_plain(s: Seq<u8>) -> bool {
    forall|i: int| 0 <= i < s.len() ==> is_plain_byte(#[trigger] s[i])
}

proof fn lemma_escape_angles_prepend(a: u8, s: Seq<u8>)
    ensures
        escape_angles(seq![a] + s) == angle_escaped(a) + escape_angles(s),
    decreases s.len(),
{
    if s.len() == 0 {
        assert(seq![a] + s == seq![a]);
        assert((seq![a]).drop_last() == Seq::<u8>::empty());
        assert(escape_angles(Seq::<u8>::empty()) == Seq::<u8>::empty());
        assert(escape_angles(s) == Seq::<u8>::empty());
        assert(angle_escaped(a) + Seq::<u8>::empty() == angle_escaped(a));
    } else {
        assert((seq![a] + s).drop_last() == seq![a] + s.drop_last());
        lemma_escape_angles_prepend(a, s.drop_last());
        assert((seq![a] + s).last() == s.last());
        assert(escape_angles(seq![a] + s) == escape_angles(seq![a] + s.drop_last())
            + angle_escaped(s.last()));
        assert(angle_escaped(a) + escape_angles(s.drop_last()) + angle_escaped(s.last())
            == angle_escaped(a) + (escape_angles(s.drop_last()) + angle_escaped(s.last())));
    }
}

/// Escaped text holds no angle bracket: whatever the text, its escaped form
/// can be shown without opening or closing an HTML tag.
pub proof fn escaped_text_has_no_angle_brackets(s: Seq<u8>)
    ensures
        forall|i: int|
            0 <= i < escape_angles(s).len() ==> #[trigger] escape_angles(s)[i] != LT
                && escape_angles(s)[i] != GT,
    decreases s.len(),
{
    if s.len() > 0 {
        escaped_text_has_no_angle_brackets(s.drop_last());
        let e = escape_angles(s.drop_last());
        let a = angle_escaped(s.last());
        assert(escape_angles(s) == e + a);
        assert forall|i: int| 0 <= i < escape_angles(s).len() implies #[trigger] escape_angles(
            s,
        )[i] != LT && escape_angles(s)[i] != GT by {
            if i >= e.len() {
                assert(escape_angles(s)[i] == a[i - e.len()]);
            } else {
                assert(escape_angles(s)[i] == e[i]);
            }
        }
    }
}

/// Plain text is its own escaped form.
pub proof fn plain_text_escapes_to_itself(s: Seq<u8>)
    requires
        is_plain(s),
    ensures
        escape_angles(s) == s,
    decreases s.len(),
{
    if s.len() > 0 {
        assert(is_plain(s.drop_last())) by {
            assert forall|i: int| 0 <= i < s.drop_last().len() implies is_plain_byte(
                #[trigger] s.drop_last()[i],
            ) by {
                assert(s.drop_last()[i] == s[i]);
            }
        }
        plain_text_escapes_to_itself(s.drop_last());
        assert(is_plain_byte(s[s.len() - 1]));
        assert(s.drop_last() + seq![s.last()] == s);
    }
}

/// A byte that, doubled, starts markup.
pub open spec fn is_marker(b: u8) -> bool {
    b == NEWLINE || b == SPACE || b == TILDE || b == DASH || b == OPEN_BRACE || b == UNDERSCORE
        || b == STAR
}

/// A text with no angle bracket, no `[`, and no marker byte twice in a row.
pub open spec fn has_no_markup(s: Seq<u8>) -> bool {
    &&& forall|i: int|
        0 <= i < s.len() ==> #[trigger] s[i] != LT && s[i] != GT && s[i] != OPEN_BRACKET
    &&& forall|i: int| 0 <= i && i + 1 < s.len() ==> !(is_marker(#[trigger] s[i]) && s[i + 1] == s[i])
}

/// Text without markup is rendered as it stands: the body of its HTML is the
/// text itself.
pub proof fn text_without_markup_renders_unchanged(s: Seq<u8>)
    requires
        has_no_markup(s),
    ensures
        body_html(s) == s,
        markdown_html(s) == paragraph_open() + s + paragraph_close(),
    decreases s.len(),
{
    if s.len() > 0 {
        assert(s[0] != LT && s[0] != GT && s[0] != OPEN_BRACKET);
        if s.len() > 1 {
            assert(!(is_marker(s[0]) && s[1] == s[0]));
        }
        let rest = s.skip(1);
        assert(has_no_markup(rest)) by {
            assert forall|i: int| 0 <= i < rest.len() implies #[trigger] rest[i] != LT && rest[i]
                != GT && rest[i] != OPEN_BRACKET by {
                assert(rest[i] == s[i + 1]);
            }
            assert forall|i: int| 0 <= i && i + 1 < rest.len() implies !(is_marker(
                #[trigger] rest[i],
            ) && rest[i + 1] == rest[i]) by {
                assert(rest[i] == s[i + 1]);
                assert(rest[i + 1] == s[i + 2]);
                assert(!(is_marker(s[i + 1]) && s[i + 2] == s[i + 1]));
            }
        }
        assert(next_piece(s) == (rest, seq![s[0]]));
        text_without_markup_renders_unchanged(rest);
        assert(seq![s[0]] + rest == s);
    }
}

proof fn lemma_verbatim_body(x: Seq<u8>, rest: Seq<u8>)
    requires
        forall|i: int| 0 <= i < x.len() ==> #[trigger] x[i] != CLOSE_BRACE,
    ensures
        verbatim_body(x + seq![CLOSE_BRACE, CLOSE_BRACE] + rest) == Some((rest, escape_angles(x))),
    decreases x.len(),
{
    let t = x + seq![CLOSE_BRACE, CLOSE_BRACE] + rest;
    if x.len() == 0 {
        assert(t == seq![CLOSE_BRACE, CLOSE_BRACE] + rest);
        assert(t.skip(2) == rest);
    } else {
        let x1 = x.skip(1);
        assert forall|i: int| 0 <= i < x1.len() implies #[trigger] x1[i] != CLOSE_BRACE by {
            assert(x1[i] == x[i + 1]);
        }
        lemma_verbatim_body(x1, rest);
        assert(t.skip(1) == x1 + seq![CLOSE_BRACE, CLOSE_BRACE] + rest);
        assert(t[0] == x[0]);
        lemma_escape_angles_prepend(x[0], x1);
        assert(seq![x[0]] + x1 == x);
    }
}

/// Text between `{{` and `}}` is kept verbatim, with only its angle brackets
/// escaped: `{{x}}`, where `x` holds no `}`, renders as the escaped `x`.
pub proof fn verbatim_text_is_kept(x: Seq<u8>)
    requires
        forall|i: int| 0 <= i < x.len() ==> #[trigger] x[i] != CLOSE_BRACE,
    ensures
        markdown_html(seq![OPEN_BRACE, OPEN_BRACE] + x + seq![CLOSE_BRACE, CLOSE_BRACE])
            == paragraph_open() + escape_angles(x) + paragraph_close(),
{
    let s = seq![OPEN_BRACE, OPEN_BRACE] + x + seq![CLOSE_BRACE, CLOSE_BRACE];
    let e = Seq::<u8>::empty();
    lemma_verbatim_body(x, e);
    assert(s.skip(2) == x + seq![CLOSE_BRACE, CLOSE_BRACE] + e);
    assert(nomark(s) == (e, escape_angles(x)));
    assert(next_piece(s) == nomark(s));
    assert(body_html(e) == e);
    assert(escape_angles(x) + e == escape_angles(x));
}

proof fn lemma_first_close_bracket_skips(s: Seq<u8>, i: int, j: int)
    requires
        0 <= i <= j < s.len(),
        s[j] == CLOSE_BRACKET,
        forall|k: int| i <= k < j ==> #[trigger] s[k] != CLOSE_BRACKET,
    ensures
        first_close_bracket(s, i) == Some(j),
    decreases j - i,
{
    if i < j {
        lemma_first_close_bracket_skips(s, i + 1, j);
    }
}

proof fn lemma_link_target_skips(s: Seq<u8>, i: int, j: int, o: int)
    requires
        0 <= i <= j < s.len(),
        s[j] == CLOSE_PAREN,
        forall|k: int| i <= k < j ==> #[trigger] s[k] != CLOSE_PAREN && s[k] != OPEN_PAREN,
    ensures
        link_target(s, i, Some(o)) == Some((o, j)),
    decreases j - i,
{
    if i < j {
        lemma_link_target_skips(s, i + 1, j, o);
    }
}

/// A link `[label](target)`, where the label holds no `]` and the target
/// holds no parenthesis, is read whole: the text after it is what follows the
/// `)`, and its HTML is an anchor to the target around the label.
pub proof fn link_is_read(label: Seq<u8>, target: Seq<u8>, rest: Seq<u8>)
    requires
        forall|i: int| 0 <= i < label.len() ==> #[trigger] label[i] != CLOSE_BRACKET,
        forall|i: int|
            0 <= i < target.len() ==> #[trigger] target[i] != OPEN_PAREN && target[i]
                != CLOSE_PAREN,
    ensures
        linkmark(
            seq![OPEN_BRACKET] + label + seq![CLOSE_BRACKET, OPEN_PAREN] + target + seq![
                CLOSE_PAREN,
            ] + rest,
        ) == (rest, anchor(target, label)),
{
    let s = seq![OPEN_BRACKET] + label + seq![CLOSE_BRACKET, OPEN_PAREN] + target + seq![
        CLOSE_PAREN,
    ] + rest;
    let c: int = label.len() as int + 1;
    let start: int = c + 2;
    let end: int = start + target.len();
    assert(s[0] == OPEN_BRACKET);
    assert(s[c] == CLOSE_BRACKET);
    assert forall|k: int| 0 <= k < c implies #[trigger] s[k] != CLOSE_BRACKET by {
        if k > 0 {
            assert(s[k] == label[k - 1]);
        }
    }
    lemma_first_close_bracket_skips(s, 0, c);
    assert(s[c + 1] == OPEN_PAREN);
    assert(s[end] == CLOSE_PAREN);
    assert forall|k: int| start <= k < end implies #[trigger] s[k] != CLOSE_PAREN && s[k]
        != OPEN_PAREN by {
        assert(s[k] == target[k - start]);
    }
    lemma_link_target_skips(s, start, end, start);
    assert(link_target(s, c + 1, None) == link_target(s, start, Some(start)));
    assert(link_parts(s) == Some((c, start, end)));
    assert(s.subrange(start, end) == target);
    assert(s.subrange(1, c) == label);
    assert(s.skip(end + 1) == rest);
}

proof fn lemma_plain_span_body(x: Seq<u8>, tag: Seq<u8>, strong: bool)
    requires
        is_plain(x),
        tag.len() == 2,
        !is_plain_byte(tag[0]),
    ensures
        span_body(x + tag, tag, strong) == Some((Seq::<u8>::empty(), x)),
    decreases x.len(),
{
    let t = x + tag;
    if x.len() == 0 {
        assert(t == tag);
        assert(t.skip(2) == Seq::<u8>::empty());
    } else {
        assert(is_plain_byte(x[0]));
        assert(t[0] == x[0]);
        let x1 = x.skip(1);
        assert(is_plain(x1)) by {
            assert forall|i: int| 0 <= i < x1.len() implies is_plain_byte(#[trigger] x1[i]) by {
                assert(x1[i] == x[i + 1]);
            }
        }
        if x.len() >= 2 {
            assert(t[1] == x[1]);
            assert(is_plain_byte(x[1]));
        } else {
            assert(t[1] == tag[0]);
        }
        assert(t.skip(1) == x1 + tag);
        lemma_plain_span_body(x1, tag, strong);
        assert(seq![x[0]] + x1 == x);
    }
}

/// Plain text between `**` (or `__`) is shown bold.
pub proof fn bold_text_is_strong(x: Seq<u8>, marker: u8)
    requires
        is_plain(x),
        marker == STAR || marker == UNDERSCORE,
    ensures
        markdown_html(seq![marker, marker] + x + seq![marker, marker]) == paragraph_open()
            + strong_open() + x + strong_close() + paragraph_close(),
{
    let tag = seq![marker, marker];
    let s = tag + x + tag;
    let e = Seq::<u8>::empty();
    assert(s.skip(2) == x + tag);
    lemma_plain_span_body(x, tag, true);
    assert(s.take(2) == tag);
    assert(next_piece(s) == span(s, tag, true));
    assert(span(s, tag, true) == (e, strong_open() + x + strong_close()));
    assert(body_html(e) == e);
    assert(strong_open() + x + strong_close() + e == strong_open() + x + strong_close());
}

/// Plain text between `~~` (or `--`) is shown struck through.
pub proof fn struck_text_is_deleted(x: Seq<u8>, marker: u8)
    requires
        is_plain(x),
        marker == TILDE || marker == DASH,
    ensures
        markdown_html(seq![marker, marker] + x + seq![marker, marker]) == paragraph_open()
            + del_open() + x + del_close() + paragraph_close(),
{
    let tag = seq![marker, marker];
    let s = tag + x + tag;
    let e = Seq::<u8>::empty();
    assert(s.skip(2) == x + tag);
    lemma_plain_span_body(x, tag, false);
    assert(s.take(2) == tag);
    assert(next_piece(s) == span(s, tag, false));
    assert(span(s, tag, false) == (e, del_open() + x + del_close()));
    assert(body_html(e) == e);
    assert(del_open() + x + del_close() + e == del_open() + x + del_close());
}

/// A link `[label](target)` standing alone, where the label holds no `]` and
/// no angle bracket and the target no parenthesis and no double quote, is
/// rendered as an anchor whose address is the target exactly as written and
/// whose text is the label exactly as written.
pub proof fn link_renders_as_anchor(label: Seq<u8>, target: Seq<u8>)
    requires
        forall|i: int|
            0 <= i < label.len() ==> #[trigger] label[i] != CLOSE_BRACKET && label[i] != 0x3c
                && label[i] != 0x3e,
        forall|i: int|
            0 <= i < target.len() ==> #[trigger] target[i] != OPEN_PAREN && target[i]
                != CLOSE_PAREN && target[i] != 0x22,
    ensures
        markdown_html(
            seq![OPEN_BRACKET] + label + seq![CLOSE_BRACKET, OPEN_PAREN] + target + seq![
                CLOSE_PAREN,
            ],
        ) == seq![0x3cu8, 0x70u8, 0x3eu8] + seq![
            0x3cu8,
            0x61u8,
            0x20u8,
            0x68u8,
            0x72u8,
            0x65u8,
            0x66u8,
            0x3du8,
            0x22u8,
        ] + target + seq![0x22u8, 0x3eu8] + label + seq![0x3cu8, 0x2fu8, 0x61u8, 0x3eu8] + seq![
            0x3cu8,
            0x2fu8,
            0x70u8,
            0x3eu8,
        ],
{
    let e = Seq::<u8>::empty();
    let s = seq![OPEN_BRACKET] + label + seq![CLOSE_BRACKET, OPEN_PAREN] + target + seq![
        CLOSE_PAREN,
    ];
    link_is_read(label, target, e);
    assert(s == seq![OPEN_BRACKET] + label + seq![CLOSE_BRACKET, OPEN_PAREN] + target + seq![
        CLOSE_PAREN,
    ] + e);
    lemma_href_escape_identity(target);
    lemma_escape_angles_identity(label);
    assert(s[0] == OPEN_BRACKET);
    assert(next_piece(s) == linkmark(s));
    assert(body_html(e) == e);
    assert(anchor(target, label) + e == anchor(target, label));
}

/// Whether `b` opens a span of the other kind inside a span (bold when
/// `strong`).
pub open spec fn opens_other_span(b: u8, strong: bool) -> bool {
    if strong {
        b == TILDE || b == DASH
    } else {
        b == UNDERSCORE || b == STAR
    }
}

/// Text that a span closed by `marker` twice reads as it is: no `[`, no
/// marker twice in a row, no opener of the other kind of span twice in a
/// row, and not ending in the marker.  Spaces and any other byte are fine.
pub open spec fn reads_as_span_text(x: Seq<u8>, marker: u8, strong: bool) -> bool {
    &&& forall|i: int| 0 <= i < x.len() ==> #[trigger] x[i] != OPEN_BRACKET
    &&& forall|i: int|
        0 <= i && i + 1 < x.len() ==> !(x[i + 1] == #[trigger] x[i] && (x[i] == marker
            || opens_other_span(x[i], strong)))
    &&& x.len() > 0 ==> x.last() != marker
}

proof fn lemma_span_text_body(x: Seq<u8>, marker: u8, strong: bool)
    requires
        reads_as_span_text(x, marker, strong),
        marker != OPEN_BRACKET,
        !opens_other_span(marker, strong),
    ensures
        span_body(x + seq![marker, marker], seq![marker, marker], strong) == Some(
            (Seq::<u8>::empty(), x),
        ),
    decreases x.len(),
{
    let tag = seq![marker, marker];
    let t = x + tag;
    if x.len() == 0 {
        assert(t == tag);
        assert(t.skip(2) == Seq::<u8>::empty());
    } else {
        assert(t[0] == x[0]);
        assert(x[0] != OPEN_BRACKET);
        if x.len() >= 2 {
            assert(t[1] == x[1]);
            assert(!(x[1] == x[0] && (x[0] == marker || opens_other_span(x[0], strong))));
        } else {
            assert(t[1] == marker);
            assert(x.last() == x[0]);
        }
        let x1 = x.skip(1);
        assert(reads_as_span_text(x1, marker, strong)) by {
            assert forall|i: int| 0 <= i < x1.len() implies #[trigger] x1[i] != OPEN_BRACKET by {
                assert(x1[i] == x[i + 1]);
            }
            assert forall|i: int| 0 <= i && i + 1 < x1.len() implies !(x1[i + 1] == #[trigger] x1[i]
                && (x1[i] == marker || opens_other_span(x1[i], strong))) by {
                assert(x1[i] == x[i + 1]);
                assert(x1[i + 1] == x[i + 2]);
                assert(!(x[i + 2] == x[i + 1] && (x[i + 1] == marker || opens_other_span(
                    x[i + 1],
                    strong,
                ))));
            }
            if x1.len() > 0 {
                assert(x1.last() == x.last());
            }
        }
        assert(t.skip(1) == x1 + tag);
        lemma_span_text_body(x1, marker, strong);
        assert(seq![x[0]] + x1 == x);
    }
}

/// Text between `**` (or `__`) is shown bold, as it is written, spaces and
/// all: `**x**`, where `x` reads as span text, renders as
/// `<p><strong>x</strong></p>`.
pub proof fn bold_span_keeps_its_text(x: Seq<u8>, marker: u8)
    requires
        marker == STAR || marker == UNDERSCORE,
        reads_as_span_text(x, marker, true),
    ensures
        markdown_html(seq![marker, marker] + x + seq![marker, marker]) == seq![
            0x3cu8,
            0x70u8,
            0x3eu8,
        ] + seq![0x3cu8, 0x73u8, 0x74u8, 0x72u8, 0x6fu8, 0x6eu8, 0x67u8, 0x3eu8] + x + seq![
            0x3cu8,
            0x2fu8,
            0x73u8,
            0x74u8,
            0x72u8,
            0x6fu8,
            0x6eu8,
            0x67u8,
            0x3eu8,
        ] + seq![0x3cu8, 0x2fu8, 0x70u8, 0x3eu8],
{
    let tag = seq![marker, marker];
    let s = tag + x + tag;
    let e = Seq::<u8>::empty();
    assert(s.skip(2) == x + tag);
    lemma_span_text_body(x, marker, true);
    assert(s.take(2) == tag);
    assert(next_piece(s) == span(s, tag, true));
    assert(span(s, tag, true) == (e, strong_open() + x + strong_close()));
    assert(body_html(e) == e);
    assert(strong_open() + x + strong_close() + e == strong_open() + x + strong_close());
}

/// Text between `~~` (or `--`) is shown struck through, as it is written,
/// spaces and all: `~~x~~`, where `x` reads as span text, renders as
/// `<p><del>x</del></p>`.
pub proof fn struck_span_keeps_its_text(x: Seq<u8>, marker: u8)
    requires
        marker == TILDE || marker == DASH,
        reads_as_span_text(x, marker, false),
    ensures
        markdown_html(seq![marker, marker] + x + seq![marker, marker]) == seq![
            0x3cu8,
            0x70u8,
            0x3eu8,
        ] + seq![0x3cu8, 0x64u8, 0x65u8, 0x6cu8, 0x3eu8] + x + seq![
            0x3cu8,
            0x2fu8,
            0x64u8,
            0x65u8,
            0x6cu8,
            0x3eu8,
        ] + seq![0x3cu8, 0x2fu8, 0x70u8, 0x3eu8],
{
    let tag = seq![marker, marker];
    let s = tag + x + tag;
    let e = Seq::<u8>::empty();
    assert(s.skip(2) == x + tag);
    lemma_span_text_body(x, marker, false);
    assert(s.take(2) == tag);
    assert(next_piece(s) == span(s, tag, false));
    assert(span(s, tag, false) == (e, del_open() + x + del_close()));
    assert(body_html(e) == e);
    assert(del_open() + x + del_close() + e == del_open() + x + del_close());
}

/// A text with no `[` and no marker byte twice in a row: nothing in it but
/// its angle brackets is read as markup.
pub open spec fn holds_no_markup(s: Seq<u8>) -> bool {
    &&& forall|i: int| 0 <= i < s.len() ==> #[trigger] s[i] != OPEN_BRACKET
    &&& forall|i: int| 0 <= i && i + 1 < s.len() ==> !(is_marker(#[trigger] s[i]) && s[i + 1] == s[i])
}

proof fn lemma_escape_one(b: u8)
    ensures
        escape_angles(seq![b]) == angle_escaped(b),
{
    assert(seq![b].drop_last() == Seq::<u8>::empty());
    assert(escape_angles(Seq::<u8>::empty()) == Seq::<u8>::empty());
    assert(Seq::<u8>::empty() + angle_escaped(b) == angle_escaped(b));
}

proof fn lemma_escaped_prefix(a: Seq<u8>, t: Seq<u8>)
    requires
        holds_no_markup(a),
        a.len() > 0 && t.len() > 0 ==> !(is_marker(a.last()) && t[0] == a.last()),
    ensures
        body_html(a + t) == escape_angles(a) + body_html(t),
    decreases a.len(),
{
    if a.len() == 0 {
        assert(a + t == t);
        assert(escape_angles(a) == Seq::<u8>::empty());
        assert(Seq::<u8>::empty() + body_html(t) == body_html(t));
    } else {
        let u = a + t;
        let a1 = a.skip(1);
        assert(u[0] == a[0]);
        assert(a[0] != OPEN_BRACKET);
        if a.len() >= 2 {
            assert(u[1] == a[1]);
            assert(!(is_marker(a[0]) && a[1] == a[0]));
        } else if t.len() > 0 {
            assert(u[1] == t[0]);
            assert(a.last() == a[0]);
        }
        assert(u.skip(1) == a1 + t);
        assert(next_piece(u) == (a1 + t, angle_escaped(a[0])));
        assert(holds_no_markup(a1)) by {
            assert forall|i: int| 0 <= i < a1.len() implies #[trigger] a1[i] != OPEN_BRACKET by {
                assert(a1[i] == a[i + 1]);
            }
            assert forall|i: int| 0 <= i && i + 1 < a1.len() implies !(is_marker(#[trigger] a1[i])
                && a1[i + 1] == a1[i]) by {
                assert(a1[i] == a[i + 1]);
                assert(a1[i + 1] == a[i + 2]);
                assert(!(is_marker(a[i + 1]) && a[i + 2] == a[i + 1]));
            }
        }
        if a1.len() > 0 {
            assert(a1.last() == a.last());
        }
        lemma_escaped_prefix(a1, t);
        assert(seq![a[0]] + a1 == a);
        lemma_escape_angles_concat(seq![a[0]], a1);
        lemma_escape_one(a[0]);
        assert(angle_escaped(a[0]) + (escape_angles(a1) + body_html(t)) == angle_escaped(a[0])
            + escape_angles(a1) + body_html(t));
    }
}

/// Text without markup is one paragraph holding the text with its angle
/// brackets escaped.
pub proof fn text_without_markup_renders_escaped(s: Seq<u8>)
    requires
        holds_no_markup(s),
    ensures
        markdown_html(s) == seq![0x3cu8, 0x70u8, 0x3eu8] + escape_angles(s) + seq![
            0x3cu8,
            0x2fu8,
            0x70u8,
            0x3eu8,
        ],
{
    let e = Seq::<u8>::empty();
    lemma_escaped_prefix(s, e);
    assert(s + e == s);
    assert(body_html(e) == e);
    assert(escape_angles(s) + e == escape_angles(s));
}

/// A blank line between two texts without markup closes one paragraph and
/// opens the next: `a\n\nb` renders as `<p>a</p><p>b</p>`, each text
/// escaped.
pub proof fn blank_line_starts_a_paragraph(a: Seq<u8>, b: Seq<u8>)
    requires
        holds_no_markup(a),
        holds_no_markup(b),
        b.len() > 0,
        a.len() > 0 ==> a.last() != NEWLINE,
    ensures
        markdown_html(a + seq![NEWLINE, NEWLINE] + b) == seq![0x3cu8, 0x70u8, 0x3eu8]
            + escape_angles(a) + seq![0x3cu8, 0x2fu8, 0x70u8, 0x3eu8, 0x3cu8, 0x70u8, 0x3eu8]
            + escape_angles(b) + seq![0x3cu8, 0x2fu8, 0x70u8, 0x3eu8],
{
    let t = seq![NEWLINE, NEWLINE] + b;
    assert(a + seq![NEWLINE, NEWLINE] + b == a + t);
    assert(t[0] == NEWLINE);
    lemma_escaped_prefix(a, t);
    assert(t.skip(2) == b);
    assert(next_piece(t) == (b, paragraph_break()));
    let e = Seq::<u8>::empty();
    lemma_escaped_prefix(b, e);
    assert(b + e == b);
    assert(body_html(e) == e);
    assert(body_html(t) == paragraph_break() + (escape_angles(b) + e));
}

/// Two spaces between two texts without markup break the line: `a  b`
/// renders as `<p>a<br>b</p>`, each text escaped.
pub proof fn two_spaces_break_the_line(a: Seq<u8>, b: Seq<u8>)
    requires
        holds_no_markup(a),
        holds_no_markup(b),
        b.len() > 0,
        a.len() > 0 ==> a.last() != SPACE,
    ensures
        markdown_html(a + seq![SPACE, SPACE] + b) == seq![0x3cu8, 0x70u8, 0x3eu8]
            + escape_angles(a) + seq![0x3cu8, 0x62u8, 0x72u8, 0x3eu8] + escape_angles(b) + seq![
            0x3cu8,
            0x2fu8,
            0x70u8,
            0x3eu8,
        ],
{
    let t = seq![SPACE, SPACE] + b;
    assert(a + seq![SPACE, SPACE] + b == a + t);
    assert(t[0] == SPACE);
    lemma_escaped_prefix(a, t);
    assert(t.skip(2) == b);
    assert(next_piece(t) == (b, line_break()));
    let e = Seq::<u8>::empty();
    lemma_escaped_prefix(b, e);
    assert(b + e == b);
    assert(body_html(e) == e);
    assert(body_html(t) == line_break() + (escape_angles(b) + e));
}

proof fn lemma_unclosed_span_body(x: Seq<u8>, tag: Seq<u8>, strong: bool)
    requires
        holds_no_markup(x),
        tag.len() == 2,
        tag[0] == tag[1],
        is_marker(tag[0]),
    ensures
        span_body(x, tag, strong) is None,
    decreases x.len(),
{
    if x.len() > 0 {
        assert(x[0] != OPEN_BRACKET);
        if x.len() >= 2 {
            assert(!(is_marker(x[0]) && x[1] == x[0]));
        }
        let x1 = x.skip(1);
        assert(holds_no_markup(x1)) by {
            assert forall|i: int| 0 <= i < x1.len() implies #[trigger] x1[i] != OPEN_BRACKET by {
                assert(x1[i] == x[i + 1]);
            }
            assert forall|i: int| 0 <= i && i + 1 < x1.len() implies !(is_marker(#[trigger] x1[i])
                && x1[i + 1] == x1[i]) by {
                assert(x1[i] == x[i + 1]);
                assert(x1[i + 1] == x[i + 2]);
                assert(!(is_marker(x[i + 1]) && x[i + 2] == x[i + 1]));
            }
        }
        lemma_unclosed_span_body(x1, tag, strong);
    }
}

/// A span that is never closed is no span: `**x` (or `__x`, `~~x`, `--x`),
/// where `x` holds no markup and does not start with the marker, renders as
/// the text it is, escaped.
pub proof fn unclosed_span_stays_text(x: Seq<u8>, marker: u8)
    requires
        marker == STAR || marker == UNDERSCORE || marker == TILDE || marker == DASH,
        holds_no_markup(x),
        x.len() > 0,
        x[0] != marker,
    ensures
        markdown_html(seq![marker, marker] + x) == seq![0x3cu8, 0x70u8, 0x3eu8] + seq![
            marker,
            marker,
        ] + escape_angles(x) + seq![0x3cu8, 0x2fu8, 0x70u8, 0x3eu8],
{
    let tag = seq![marker, marker];
    let s = tag + x;
    let strong = marker == STAR || marker == UNDERSCORE;
    assert(s.take(2) == tag);
    assert(s.skip(2) == x);
    lemma_unclosed_span_body(x, tag, strong);
    assert(tag.take(1) == seq![marker]);
    assert(next_piece(s) == (s.skip(1), seq![marker]));
    let t = s.skip(1);
    assert(t == seq![marker] + x);
    assert(t[0] == marker && t[1] == x[0]);
    assert(next_piece(t) == (x, seq![marker])) by {
        assert(t.skip(1) == x);
        assert(angle_escaped(marker) == seq![marker]);
    }
    let e = Seq::<u8>::empty();
    lemma_escaped_prefix(x, e);
    assert(x + e == x);
    assert(body_html(e) == e);
    assert(body_html(t) == seq![marker] + (escape_angles(x) + e));
    assert(body_html(s) == seq![marker] + body_html(t));
    assert(seq![marker] + (seq![marker] + (escape_angles(x) + e)) == tag + escape_angles(x));
}

} // verus!
