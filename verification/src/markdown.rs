//! The board's small markdown dialect, rendered to HTML bytes.
//!
//! Recognised markup: a blank line (`\n\n`) closes one paragraph and opens the
//! next, two spaces give a line break, `~~x~~` and `--x--` strike through,
//! `__x__` and `**x**` make bold text, `{{x}}` keeps `x` verbatim (only angle
//! brackets are escaped), and `[label](target)` is a link.  Outside markup the
//! angle brackets are escaped.
use vstd::prelude::*;

verus! {

pub const LT: u8 = 0x3c;
pub const GT: u8 = 0x3e;
pub const AMP: u8 = 0x26;
pub const QUOTE: u8 = 0x22;
pub const OPEN_BRACKET: u8 = 0x5b;
pub const CLOSE_BRACKET: u8 = 0x5d;
pub const OPEN_PAREN: u8 = 0x28;
pub const CLOSE_PAREN: u8 = 0x29;
pub const OPEN_BRACE: u8 = 0x7b;
pub const CLOSE_BRACE: u8 = 0x7d;
pub const NEWLINE: u8 = 0x0a;
pub const SPACE: u8 = 0x20;
pub const TILDE: u8 = 0x7e;
pub const DASH: u8 = 0x2d;
pub const UNDERSCORE: u8 = 0x5f;
pub const STAR: u8 = 0x2a;

// ---------------------------------------------------------------------------
// Fixed pieces of HTML
// ---------------------------------------------------------------------------

/// `&lt;`
pub open spec fn entity_lt() -> Seq<u8> {
    seq![0x26u8, 0x6cu8, 0x74u8, 0x3bu8]
}

/// `&gt;`
pub open spec fn entity_gt() -> Seq<u8> {
    seq![0x26u8, 0x67u8, 0x74u8, 0x3bu8]
}

/// `%22`, the form a double quote takes inside a link target.
pub open spec fn percent_quote() -> Seq<u8> {
    seq![0x25u8, 0x32u8, 0x32u8]
}

/// `<a href="`
pub open spec fn anchor_open() -> Seq<u8> {
    seq![0x3cu8, 0x61u8, 0x20u8, 0x68u8, 0x72u8, 0x65u8, 0x66u8, 0x3du8, 0x22u8]
}

/// `">`
pub open spec fn anchor_mid() -> Seq<u8> {
    seq![0x22u8, 0x3eu8]
}

/// `</a>`
pub open spec fn anchor_close() -> Seq<u8> {
    seq![0x3cu8, 0x2fu8, 0x61u8, 0x3eu8]
}

/// `<del>`
pub open spec fn del_open() -> Seq<u8> {
    seq![0x3cu8, 0x64u8, 0x65u8, 0x6cu8, 0x3eu8]
}

/// `</del>`
pub open spec fn del_close() -> Seq<u8> {
    seq![0x3cu8, 0x2fu8, 0x64u8, 0x65u8, 0x6cu8, 0x3eu8]
}

/// `<strong>`
pub open spec fn strong_open() -> Seq<u8> {
    seq![0x3cu8, 0x73u8, 0x74u8, 0x72u8, 0x6fu8, 0x6eu8, 0x67u8, 0x3eu8]
}

/// `</strong>`
pub open spec fn strong_close() -> Seq<u8> {
    seq![0x3cu8, 0x2fu8, 0x73u8, 0x74u8, 0x72u8, 0x6fu8, 0x6eu8, 0x67u8, 0x3eu8]
}

/// `<p>`
pub open spec fn paragraph_open() -> Seq<u8> {
    seq![0x3cu8, 0x70u8, 0x3eu8]
}

/// `</p>`
pub open spec fn paragraph_close() -> Seq<u8> {
    seq![0x3cu8, 0x2fu8, 0x70u8, 0x3eu8]
}

/// `</p><p>`
pub open spec fn paragraph_break() -> Seq<u8> {
    paragraph_close() + paragraph_open()
}

/// `<br>`
pub open spec fn line_break() -> Seq<u8> {
    seq![0x3cu8, 0x62u8, 0x72u8, 0x3eu8]
}

// ---------------------------------------------------------------------------
// Escaping
// ---------------------------------------------------------------------------

/// What one byte of ordinary text becomes: angle brackets turn into entities.
pub open spec fn angle_escaped(b: u8) -> Seq<u8> {
    if b == LT {
        entity_lt()
    } else if b == GT {
        entity_gt()
    } else {
        seq![b]
    }
}

/// Text with every angle bracket escaped.
pub open spec fn escape_angles(s: Seq<u8>) -> Seq<u8>
    decreases s.len(),
{
    if s.len() == 0 {
        Seq::empty()
    } else {
        escape_angles(s.drop_last()) + angle_escaped(s.last())
    }
}

/// What one byte of a link target becomes: a double quote is percent-encoded.
pub open spec fn href_byte(b: u8) -> Seq<u8> {
    if b == QUOTE {
        percent_quote()
    } else {
        seq![b]
    }
}

/// A link target with every double quote percent-encoded.
pub open spec fn href_escape(s: Seq<u8>) -> Seq<u8>
    decreases s.len(),
{
    if s.len() == 0 {
        Seq::empty()
    } else {
        href_escape(s.drop_last()) + href_byte(s.last())
    }
}

// ---------------------------------------------------------------------------
// Links: `[label](target)`
// ---------------------------------------------------------------------------

/// Index of the first `]` at or after `i`.
pub open spec fn first_close_bracket(s: Seq<u8>, i: int) -> Option<int>
    decreases s.len() - i,
{
    if i >= s.len() {
        None
    } else if s[i] == CLOSE_BRACKET {
        Some(i)
    } else {
        first_close_bracket(s, i + 1)
    }
}

/// Scanning from `i`, where `open` is one past the latest `(` seen so far:
/// the target's bounds `(start, end)`, ending at the first `)` that follows
/// some `(`, and starting just after the last `(` before it.
pub open spec fn link_target(s: Seq<u8>, i: int, open: Option<int>) -> Option<(int, int)>
    decreases s.len() - i,
{
    if i >= s.len() {
        None
    } else if s[i] == OPEN_PAREN {
        link_target(s, i + 1, Some(i + 1))
    } else if open is Some && s[i] == CLOSE_PAREN {
        Some((open->0, i))
    } else {
        link_target(s, i + 1, open)
    }
}

/// Where the parts of a link lie: the `]` that ends the label, and the bounds
/// of the target, found after that `]`.
pub open spec fn link_parts(s: Seq<u8>) -> Option<(int, int, int)> {
    match first_close_bracket(s, 0) {
        Some(c) => match link_target(s, c + 1, None) {
            Some((start, end)) => Some((c, start, end)),
            None => None,
        },
        None => None,
    }
}

/// The HTML of a link.
pub open spec fn anchor(target: Seq<u8>, label: Seq<u8>) -> Seq<u8> {
    anchor_open() + href_escape(target) + anchor_mid() + escape_angles(label) + anchor_close()
}

/// Reading a link at the start of `s` (whose first byte is the `[`): the text
/// after the link and the link's HTML; where no link is found, the `[` stays
/// as it is and reading resumes after it.
pub open spec fn linkmark(s: Seq<u8>) -> (Seq<u8>, Seq<u8>) {
    match link_parts(s) {
        Some((c, start, end)) => (s.skip(end + 1), anchor(s.subrange(start, end), s.subrange(1, c))),
        None => (s.skip(1), seq![OPEN_BRACKET]),
    }
}

// ---------------------------------------------------------------------------
// Verbatim text: `{{...}}`
// ---------------------------------------------------------------------------

/// Prefixes the output of a successful scan.
pub open spec fn prefixed(p: Seq<u8>, o: Option<(Seq<u8>, Seq<u8>)>) -> Option<(Seq<u8>, Seq<u8>)> {
    match o {
        Some((rest, out)) => Some((rest, p + out)),
        None => None,
    }
}

/// Whether `t` starts with the byte `b` twice.
pub open spec fn starts_with_pair(t: Seq<u8>, b: u8) -> bool {
    t.len() >= 2 && t[0] == b && t[1] == b
}

/// The inside of `{{...}}`, read up to the first `}}`.
pub open spec fn verbatim_body(t: Seq<u8>) -> Option<(Seq<u8>, Seq<u8>)>
    decreases t.len(),
{
    if t.len() < 2 {
        None
    } else if starts_with_pair(t, CLOSE_BRACE) {
        Some((t.skip(2), Seq::empty()))
    } else {
        prefixed(angle_escaped(t[0]), verbatim_body(t.skip(1)))
    }
}

/// Reading `{{...}}` at the start of `s`: the text after it and its HTML;
/// where it is not closed, the first `{` stays as it is.
pub open spec fn nomark(s: Seq<u8>) -> (Seq<u8>, Seq<u8>) {
    match verbatim_body(s.skip(2)) {
        Some((rest, out)) => (rest, out),
        None => (s.skip(1), seq![OPEN_BRACE]),
    }
}

// ---------------------------------------------------------------------------
// Bold and strike-through spans
// ---------------------------------------------------------------------------

/// Inside a bold span, `~~` and `--` open a strike-through span; inside a
/// strike-through span, `__` and `**` open a bold one.
pub open spec fn opens_nested(t: Seq<u8>, strong: bool) -> bool {
    if strong {
        starts_with_pair(t, TILDE) || starts_with_pair(t, DASH)
    } else {
        starts_with_pair(t, UNDERSCORE) || starts_with_pair(t, STAR)
    }
}

/// Whether `t` starts with the two bytes of `tag`.
pub open spec fn starts_with_tag(t: Seq<u8>, tag: Seq<u8>) -> bool {
    tag.len() == 2 && t.len() >= 2 && t[0] == tag[0] && t[1] == tag[1]
}

/// The inside of a span (bold when `strong`), read up to the closing `tag`.
pub open spec fn span_body(t: Seq<u8>, tag: Seq<u8>, strong: bool) -> Option<(Seq<u8>, Seq<u8>)>
    decreases t.len(), 1int,
{
    if t.len() == 0 {
        None
    } else if starts_with_tag(t, tag) {
        Some((t.skip(2), Seq::empty()))
    } else {
        let step = if opens_nested(t, strong) {
            span(t, t.take(2), !strong)
        } else if t[0] == OPEN_BRACKET {
            linkmark(t)
        } else {
            (t.skip(1), seq![t[0]])
        };
        if step.0.len() < t.len() {
            prefixed(step.1, span_body(step.0, tag, strong))
        } else {
            None
        }
    }
}

/// Reading a span that `tag` (its first two bytes) opens at the start of
/// `text`: the text after it and its HTML; where it is not closed, the first
/// byte of the tag stays as it is.
pub open spec fn span(text: Seq<u8>, tag: Seq<u8>, strong: bool) -> (Seq<u8>, Seq<u8>)
    decreases text.len(), 0int,
{
    if text.len() < 2 {
        (text, Seq::empty())
    } else {
        match span_body(text.skip(2), tag, strong) {
            Some((rest, inner)) => (
                rest,
                if strong {
                    strong_open() + inner + strong_close()
                } else {
                    del_open() + inner + del_close()
                },
            ),
            None => (text.skip(1), tag.take(1)),
        }
    }
}

// ---------------------------------------------------------------------------
// The whole text
// ---------------------------------------------------------------------------

/// The markup that the text `t` starts with, read off: the text after it and
/// its HTML.  Markup of two bytes is recognised only with more than two bytes
/// left.
pub open spec fn next_piece(t: Seq<u8>) -> (Seq<u8>, Seq<u8>) {
    if t.len() > 2 && starts_with_pair(t, NEWLINE) {
        (t.skip(2), paragraph_break())
    } else if t.len() > 2 && starts_with_pair(t, SPACE) {
        (t.skip(2), line_break())
    } else if t.len() > 2 && (starts_with_pair(t, TILDE) || starts_with_pair(t, DASH)) {
        span(t, t.take(2), false)
    } else if t.len() > 2 && starts_with_pair(t, OPEN_BRACE) {
        nomark(t)
    } else if t.len() > 2 && (starts_with_pair(t, UNDERSCORE) || starts_with_pair(t, STAR)) {
        span(t, t.take(2), true)
    } else if t[0] == OPEN_BRACKET {
        linkmark(t)
    } else {
        (t.skip(1), angle_escaped(t[0]))
    }
}

/// The HTML of a text, without the enclosing paragraph.
pub open spec fn body_html(t: Seq<u8>) -> Seq<u8>
    decreases t.len(),
{
    if t.len() == 0 {
        Seq::empty()
    } else {
        let step = next_piece(t);
        if step.0.len() < t.len() {
            step.1 + body_html(step.0)
        } else {
            Seq::empty()
        }
    }
}

/// The HTML of a text: one paragraph around the rendered body.
pub open spec fn markdown_html(text: Seq<u8>) -> Seq<u8> {
    paragraph_open() + body_html(text) + paragraph_close()
}

// ---------------------------------------------------------------------------
// Facts about the reading functions
// ---------------------------------------------------------------------------

pub proof fn lemma_first_close_bracket(s: Seq<u8>, i: int)
    requires
        0 <= i,
    ensures
        first_close_bracket(s, i) matches Some(c) ==> i <= c < s.len() && s[c] == CLOSE_BRACKET,
    decreases s.len() - i,
{
    if i < s.len() && s[i] != CLOSE_BRACKET {
        lemma_first_close_bracket(s, i + 1);
    }
}

pub proof fn lemma_link_target(s: Seq<u8>, i: int, open: Option<int>)
    requires
        0 <= i,
        open matches Some(o) ==> 1 <= o <= i && s[o - 1] == OPEN_PAREN,
    ensures
        link_target(s, i, open) matches Some((start, end)) ==> {
            &&& 1 <= start <= end < s.len()
            &&& i <= end
            &&& open is None ==> i + 1 <= start
            &&& open matches Some(o) ==> o <= start
            &&& s[start - 1] == OPEN_PAREN
            &&& s[end] == CLOSE_PAREN
        },
    decreases s.len() - i,
{
    if i < s.len() {
        if s[i] == OPEN_PAREN {
            lemma_link_target(s, i + 1, Some(i + 1));
        } else if open is Some && s[i] == CLOSE_PAREN {
        } else {
            lemma_link_target(s, i + 1, open);
        }
    }
}

/// A text that starts with `[` has a non-empty place for the label.
pub proof fn lemma_linkmark_ready(s: Seq<u8>)
    requires
        s.len() >= 1,
        s[0] == OPEN_BRACKET,
    ensures
        link_parts(s) matches Some((c, _, _)) ==> c >= 1,
{
    lemma_first_close_bracket(s, 1);
    assert(first_close_bracket(s, 0) == first_close_bracket(s, 1));
}

pub proof fn lemma_link_parts(s: Seq<u8>)
    ensures
        link_parts(s) matches Some((c, start, end)) ==> {
            &&& 0 <= c < start <= end < s.len()
            &&& s[c] == CLOSE_BRACKET
            &&& s[start - 1] == OPEN_PAREN
            &&& s[end] == CLOSE_PAREN
        },
{
    lemma_first_close_bracket(s, 0);
    if let Some(c) = first_close_bracket(s, 0) {
        lemma_link_target(s, c + 1, None);
    }
}

/// `r` is what is left at the end of `t`.
pub open spec fn is_rest_of(r: Seq<u8>, t: Seq<u8>) -> bool {
    r.len() <= t.len() && r == t.skip(t.len() - r.len())
}

proof fn lemma_skip_is_rest(t: Seq<u8>, k: int)
    requires
        0 <= k <= t.len(),
    ensures
        is_rest_of(t.skip(k), t),
{
}

proof fn lemma_rest_of_rest(a: Seq<u8>, b: Seq<u8>, c: Seq<u8>)
    requires
        is_rest_of(a, b),
        is_rest_of(b, c),
    ensures
        is_rest_of(a, c),
{
    assert(a == c.skip(c.len() - a.len()));
}

proof fn lemma_linkmark_rest(s: Seq<u8>)
    requires
        s.len() >= 1,
    ensures
        is_rest_of(linkmark(s).0, s),
{
    lemma_link_parts(s);
    match link_parts(s) {
        Some((c, start, end)) => lemma_skip_is_rest(s, end + 1),
        None => lemma_skip_is_rest(s, 1),
    }
}

proof fn lemma_span_body_rest(t: Seq<u8>, tag: Seq<u8>, strong: bool)
    ensures
        span_body(t, tag, strong) matches Some((rest, _)) ==> is_rest_of(rest, t),
    decreases t.len(), 1int,
{
    if t.len() == 0 {
    } else if starts_with_tag(t, tag) {
        lemma_skip_is_rest(t, 2);
    } else {
        let step = if opens_nested(t, strong) {
            span_leaves_a_suffix(t, t.take(2), !strong);
            span(t, t.take(2), !strong)
        } else if t[0] == OPEN_BRACKET {
            lemma_linkmark_rest(t);
            linkmark(t)
        } else {
            lemma_skip_is_rest(t, 1);
            (t.skip(1), seq![t[0]])
        };
        if step.0.len() < t.len() {
            lemma_span_body_rest(step.0, tag, strong);
            if let Some((rest, _)) = span_body(step.0, tag, strong) {
                lemma_rest_of_rest(rest, step.0, t);
            }
        }
    }
}

/// Reading a bold or strike-through span leaves the end of the text: what
/// is left is a suffix of the text, shorter than it where the text holds the
/// two bytes of the tag.
pub proof fn span_leaves_a_suffix(text: Seq<u8>, tag: Seq<u8>, strong: bool)
    ensures
        is_rest_of(span(text, tag, strong).0, text),
        text.len() >= 2 ==> span(text, tag, strong).0.len() < text.len(),
    decreases text.len(), 0int,
{
    if text.len() >= 2 {
        lemma_span_body_rest(text.skip(2), tag, strong);
        lemma_skip_is_rest(text, 2);
        lemma_skip_is_rest(text, 1);
        if let Some((rest, _)) = span_body(text.skip(2), tag, strong) {
            lemma_rest_of_rest(rest, text.skip(2), text);
        }
    } else {
        assert(text.skip(0) == text);
    }
}

// ---------------------------------------------------------------------------
// Executable code
// ---------------------------------------------------------------------------

/// Appends `lit` to `out`.
pub fn push_lit(out: &mut Vec<u8>, lit: &[u8])
    ensures
        final(out)@ == old(out)@ + lit@,
{
    let mut i: usize = 0;
    while i < lit.len()
        invariant
            i <= lit@.len(),
            out@ == old(out)@ + lit@.take(i as int),
        decreases lit@.len() - i,
    {
        out.push(lit[i]);
        i = i + 1;
        assert(lit@.take(i as int) == lit@.take(i - 1) + seq![lit@[i - 1]]);
    }
    assert(lit@.take(i as int) == lit@);
}

/// The bytes of `t` from `k` on.
pub fn tail(t: &[u8], k: usize) -> (r: &[u8])
    requires
        k <= t@.len(),
    ensures
        r@ == t@.skip(k as int),
{
    &t[k..t.len()]
}

/// Appends one byte of ordinary text, escaping angle brackets.
pub fn push_angle_escaped(out: &mut Vec<u8>, b: u8)
    ensures
        final(out)@ == old(out)@ + angle_escaped(b),
{
    if b == LT {
        push_lit(out, &[0x26u8, 0x6cu8, 0x74u8, 0x3bu8]);
    } else if b == GT {
        push_lit(out, &[0x26u8, 0x67u8, 0x74u8, 0x3bu8]);
    } else {
        out.push(b);
    }
}

/// Appends `s` with every angle bracket escaped.
pub fn push_escape_angles(out: &mut Vec<u8>, s: &[u8])
    ensures
        final(out)@ == old(out)@ + escape_angles(s@),
{
    let mut i: usize = 0;
    while i < s.len()
        invariant
            i <= s@.len(),
            out@ == old(out)@ + escape_angles(s@.take(i as int)),
        decreases s@.len() - i,
    {
        let ghost before = out@;
        push_angle_escaped(out, s[i]);
        i = i + 1;
        assert(s@.take(i as int).drop_last() == s@.take(i - 1));
        assert(out@ == old(out)@ + (escape_angles(s@.take(i - 1)) + angle_escaped(s@[i - 1])));
    }
    assert(s@.take(i as int) == s@);
}

/// Appends a link target with every double quote percent-encoded.
pub fn push_href_escape(out: &mut Vec<u8>, s: &[u8])
    ensures
        final(out)@ == old(out)@ + href_escape(s@),
{
    let mut i: usize = 0;
    while i < s.len()
        invariant
            i <= s@.len(),
            out@ == old(out)@ + href_escape(s@.take(i as int)),
        decreases s@.len() - i,
    {
        let ch = s[i];
        if ch == QUOTE {
            push_lit(out, &[0x25u8, 0x32u8, 0x32u8]);
        } else {
            out.push(ch);
        }
        i = i + 1;
        assert(s@.take(i as int).drop_last() == s@.take(i - 1));
        assert(out@ == old(out)@ + (href_escape(s@.take(i - 1)) + href_byte(s@[i - 1])));
    }
    assert(s@.take(i as int) == s@);
}

/// Reads a link `[label](target)` at the start of `text`.
pub fn parse_linkmark(text: &[u8]) -> (r: (&[u8], Vec<u8>))
    requires
        text@.len() >= 1,
        link_parts(text@) matches Some((c, _, _)) ==> c >= 1,
    ensures
        (r.0@, r.1@) == linkmark(text@),
        r.0@.len() < text@.len(),
{
    let ghost s = text@;
    let mut contents: Option<usize> = None;
    let mut link_start: Option<usize> = None;
    let mut link_end: Option<usize> = None;
    let mut i: usize = 0;
    while i < text.len() && link_end.is_none()
        invariant
            i <= s.len(),
            s == text@,
            contents is None ==> {
                &&& first_close_bracket(s, 0) == first_close_bracket(s, i as int)
                &&& link_start is None
                &&& link_end is None
            },
            contents matches Some(c) ==> {
                &&& first_close_bracket(s, 0) == Some(c as int)
                &&& c < i
                &&& link_start matches Some(o) ==> c + 2 <= o <= i
                &&& link_end is None ==> link_target(s, c + 1, None) == link_target(
                    s,
                    i as int,
                    match link_start {
                        Some(o) => Some(o as int),
                        None => None,
                    },
                )
                &&& link_end matches Some(e) ==> {
                    &&& link_start matches Some(o)
                    &&& link_target(s, c + 1, None) == Some((o as int, e as int))
                }
            },
            link_end is Some ==> contents is Some,
        decreases s.len() - i + (if link_end is None { 1int } else { 0int }),
    {
        let ch = text[i];
        if contents.is_none() {
            if ch == CLOSE_BRACKET {
                contents = Some(i);
            }
        } else {
            if ch == OPEN_PAREN {
                link_start = Some(i + 1);
            }
            if link_start.is_some() && ch == CLOSE_PAREN {
                link_end = Some(i);
            }
        }
        if link_end.is_none() {
            i = i + 1;
        }
    }
    proof {
        lemma_link_parts(s);
    }
    let (l1, l2, c) = match (link_start, link_end, contents) {
        (Some(l1), Some(l2), Some(c)) => (l1, l2, c),
        _ => {
            return (tail(text, 1), vec![OPEN_BRACKET]);
        },
    };
    let mut link = Vec::<u8>::new();
    let mut label = Vec::<u8>::new();
    push_href_escape(&mut link, &text[l1..l2]);
    push_escape_angles(&mut label, &text[1..c]);
    let mut msg = Vec::<u8>::new();
    push_lit(&mut msg, &[0x3cu8, 0x61u8, 0x20u8, 0x68u8, 0x72u8, 0x65u8, 0x66u8, 0x3du8, 0x22u8]);
    msg.append(&mut link);
    push_lit(&mut msg, &[0x22u8, 0x3eu8]);
    msg.append(&mut label);
    push_lit(&mut msg, &[0x3cu8, 0x2fu8, 0x61u8, 0x3eu8]);
    (tail(text, l2 + 1), msg)
}

/// Reads verbatim text `{{...}}` at the start of `text`.
pub fn parse_nomark(text: &[u8]) -> (r: (&[u8], Vec<u8>))
    requires
        text@.len() >= 2,
    ensures
        (r.0@, r.1@) == nomark(text@),
        r.0@.len() < text@.len(),
{
    let mut res = Vec::<u8>::new();
    let mut t = tail(text, 2);
    assert(res@ + Seq::<u8>::empty() == Seq::<u8>::empty());
    while t.len() >= 2
        invariant
            t@.len() <= text@.len(),
            verbatim_body(text@.skip(2)) == prefixed(res@, verbatim_body(t@)),
        decreases t@.len(),
    {
        if t[0] == CLOSE_BRACE && t[1] == CLOSE_BRACE {
            assert(res@ + Seq::<u8>::empty() == res@);
            return (tail(t, 2), res);
        }
        let ghost before = res@;
        push_angle_escaped(&mut res, t[0]);
        proof {
            match verbatim_body(t@.skip(1)) {
                Some((rest, out)) => {
                    assert(before + (angle_escaped(t@[0]) + out) == res@ + out);
                },
                None => {},
            }
        }
        t = tail(t, 1);
    }
    (tail(text, 1), vec![OPEN_BRACE])
}

/// Whether `t` starts with the two bytes of `tag`.
fn has_tag(t: &[u8], tag: &[u8]) -> (b: bool)
    ensures
        b == starts_with_tag(t@, tag@),
{
    tag.len() == 2 && t.len() >= 2 && t[0] == tag[0] && t[1] == tag[1]
}

/// Whether `t` starts with the byte `b` twice.
fn has_pair(t: &[u8], b: u8) -> (r: bool)
    ensures
        r == starts_with_pair(t@, b),
{
    t.len() >= 2 && t[0] == b && t[1] == b
}

/// The first two bytes of `t`.
fn head2(t: &[u8]) -> (r: &[u8])
    requires
        t@.len() >= 2,
    ensures
        r@ == t@.take(2),
{
    &t[0..2]
}

/// Reads a strike-through span that `tag` opens at the start of `text`.
pub fn parse_strikethrough<'a>(text: &'a [u8], tag: &'a [u8]) -> (r: (&'a [u8], Vec<u8>))
    requires
        text@.len() >= 2,
        tag@.len() >= 1,
    ensures
        (r.0@, r.1@) == span(text@, tag@, false),
        r.0@.len() < text@.len(),
        r.0@ == text@.skip(text@.len() - r.0@.len()),
    decreases text@.len(),
{
    let mut res = Vec::<u8>::new();
    let mut t = tail(text, 2);
    assert(res@ + Seq::<u8>::empty() == Seq::<u8>::empty());
    while t.len() > 0
        invariant
            t@.len() + 2 <= text@.len(),
            span_body(text@.skip(2), tag@, false) == prefixed(res@, span_body(t@, tag@, false)),
        decreases t@.len(),
    {
        if has_tag(t, tag) {
            let mut msg = Vec::<u8>::new();
            push_lit(&mut msg, &[0x3cu8, 0x64u8, 0x65u8, 0x6cu8, 0x3eu8]);
            msg.append(&mut res);
            push_lit(&mut msg, &[0x3cu8, 0x2fu8, 0x64u8, 0x65u8, 0x6cu8, 0x3eu8]);
            assert(res@ + Seq::<u8>::empty() == res@);
            proof {
                span_leaves_a_suffix(text@, tag@, false);
            }
            return (tail(t, 2), msg);
        }
        let ghost before = res@;
        let ghost t0 = t@;
        if has_pair(t, UNDERSCORE) || has_pair(t, STAR) {
            let (rest, mut piece) = parse_bold(t, head2(t));
            let ghost p = piece@;
            res.append(&mut piece);
            t = rest;
            proof {
                match span_body(t@, tag@, false) {
                    Some((r2, out)) => {
                        assert(before + (p + out) == res@ + out);
                    },
                    None => {},
                }
            }
            continue;
        }
        if t[0] == OPEN_BRACKET {
            proof {
                lemma_linkmark_ready(t@);
            }
            let (rest, mut piece) = parse_linkmark(t);
            let ghost p = piece@;
            res.append(&mut piece);
            t = rest;
            proof {
                match span_body(t@, tag@, false) {
                    Some((r2, out)) => {
                        assert(before + (p + out) == res@ + out);
                    },
                    None => {},
                }
            }
            continue;
        }
        res.push(t[0]);
        proof {
            match span_body(t@.skip(1), tag@, false) {
                Some((r2, out)) => {
                    assert(before + (seq![t0[0]] + out) == res@ + out);
                },
                None => {},
            }
        }
        t = tail(t, 1);
    }
    assert(tag@.take(1) == seq![tag@[0]]);
    (tail(text, 1), vec![tag[0]])
}

/// Reads a bold span that `tag` opens at the start of `text`.
pub fn parse_bold<'a>(text: &'a [u8], tag: &'a [u8]) -> (r: (&'a [u8], Vec<u8>))
    requires
        text@.len() >= 2,
        tag@.len() >= 1,
    ensures
        (r.0@, r.1@) == span(text@, tag@, true),
        r.0@.len() < text@.len(),
        r.0@ == text@.skip(text@.len() - r.0@.len()),
    decreases text@.len(),
{
    let mut res = Vec::<u8>::new();
    let mut t = tail(text, 2);
    assert(res@ + Seq::<u8>::empty() == Seq::<u8>::empty());
    while t.len() > 0
        invariant
            t@.len() + 2 <= text@.len(),
            span_body(text@.skip(2), tag@, true) == prefixed(res@, span_body(t@, tag@, true)),
        decreases t@.len(),
    {
        if has_tag(t, tag) {
            let mut msg = Vec::<u8>::new();
            push_lit(&mut msg, &[0x3cu8, 0x73u8, 0x74u8, 0x72u8, 0x6fu8, 0x6eu8, 0x67u8, 0x3eu8]);
            msg.append(&mut res);
            push_lit(
                &mut msg,
                &[0x3cu8, 0x2fu8, 0x73u8, 0x74u8, 0x72u8, 0x6fu8, 0x6eu8, 0x67u8, 0x3eu8],
            );
            assert(res@ + Seq::<u8>::empty() == res@);
            proof {
                span_leaves_a_suffix(text@, tag@, true);
            }
            return (tail(t, 2), msg);
        }
        let ghost before = res@;
        let ghost t0 = t@;
        if has_pair(t, TILDE) || has_pair(t, DASH) {
            let (rest, mut piece) = parse_strikethrough(t, head2(t));
            let ghost p = piece@;
            res.append(&mut piece);
            t = rest;
            proof {
                match span_body(t@, tag@, true) {
                    Some((r2, out)) => {
                        assert(before + (p + out) == res@ + out);
                    },
                    None => {},
                }
            }
            continue;
        }
        if t[0] == OPEN_BRACKET {
            proof {
                lemma_linkmark_ready(t@);
            }
            let (rest, mut piece) = parse_linkmark(t);
            let ghost p = piece@;
            res.append(&mut piece);
            t = rest;
            proof {
                match span_body(t@, tag@, true) {
                    Some((r2, out)) => {
                        assert(before + (p + out) == res@ + out);
                    },
                    None => {},
                }
            }
            continue;
        }
        res.push(t[0]);
        proof {
            match span_body(t@.skip(1), tag@, true) {
                Some((r2, out)) => {
                    assert(before + (seq![t0[0]] + out) == res@ + out);
                },
                None => {},
            }
        }
        t = tail(t, 1);
    }
    assert(tag@.take(1) == seq![tag@[0]]);
    (tail(text, 1), vec![tag[0]])
}

/// The same text, with nothing read off it: block quotes are not rendered.
pub fn parse_blackqoute(text: &[u8]) -> (r: (&[u8], Vec<u8>))
    ensures
        r.0@ == text@,
        r.1@ == Seq::<u8>::empty(),
{
    let t = text;
    let html = Vec::<u8>::new();
    (t, html)
}

/// Renders the bytes of a text to HTML.
pub fn parse_bytes(text: &[u8]) -> (res: Vec<u8>)
    ensures
        res@ == markdown_html(text@),
{
    let mut res = Vec::<u8>::new();
    push_lit(&mut res, &[0x3cu8, 0x70u8, 0x3eu8]);
    let mut t = text;
    while t.len() != 0
        invariant
            paragraph_open() + body_html(text@) == res@ + body_html(t@),
        decreases t@.len(),
    {
        let ghost before = res@;
        let ghost t0 = t@;
        if t.len() > 2 {
            if has_pair(t, NEWLINE) {
                push_lit(&mut res, &[0x3cu8, 0x2fu8, 0x70u8, 0x3eu8, 0x3cu8, 0x70u8, 0x3eu8]);
                t = tail(t, 2);
                assert(before + (paragraph_break() + body_html(t@)) == res@ + body_html(t@));
                continue;
            }
            if has_pair(t, SPACE) {
                push_lit(&mut res, &[0x3cu8, 0x62u8, 0x72u8, 0x3eu8]);
                t = tail(t, 2);
                assert(before + (line_break() + body_html(t@)) == res@ + body_html(t@));
                continue;
            }
            if has_pair(t, TILDE) || has_pair(t, DASH) {
                let (rest, mut piece) = parse_strikethrough(t, head2(t));
                let ghost p = piece@;
                res.append(&mut piece);
                t = rest;
                assert(before + (p + body_html(t@)) == res@ + body_html(t@));
                continue;
            }
            if has_pair(t, OPEN_BRACE) {
                let (rest, mut piece) = parse_nomark(t);
                let ghost p = piece@;
                res.append(&mut piece);
                t = rest;
                assert(before + (p + body_html(t@)) == res@ + body_html(t@));
                continue;
            }
            if has_pair(t, UNDERSCORE) || has_pair(t, STAR) {
                let (rest, mut piece) = parse_bold(t, head2(t));
                let ghost p = piece@;
                res.append(&mut piece);
                t = rest;
                assert(before + (p + body_html(t@)) == res@ + body_html(t@));
                continue;
            }
        }
        if t[0] == OPEN_BRACKET {
            proof {
                lemma_linkmark_ready(t@);
            }
            let (rest, mut piece) = parse_linkmark(t);
            let ghost p = piece@;
            res.append(&mut piece);
            t = rest;
            assert(before + (p + body_html(t@)) == res@ + body_html(t@));
            continue;
        }
        push_angle_escaped(&mut res, t[0]);
        t = tail(t, 1);
        assert(before + (angle_escaped(t0[0]) + body_html(t@)) == res@ + body_html(t@));
    }
    push_lit(&mut res, &[0x3cu8, 0x2fu8, 0x70u8, 0x3eu8]);
    res
}

/// Renders a text to HTML: the text is read as its UTF-8 bytes.
pub fn parse(text: &str) -> (res: Vec<u8>)
    ensures
        res@ == markdown_html(vstd::utf8::encode_utf8(text@)),
{
    parse_bytes(text.as_bytes())
}

/// A text to be shown as rendered markdown.
pub struct Markdown<'a> {
    obj: &'a str,
}

impl<'a> Markdown<'a> {
    /// The text that is rendered.
    pub closed spec fn text(&self) -> Seq<char> {
        self.obj@
    }

    /// Appends the HTML of the text to `out`; writing to memory cannot fail.
    pub fn to_html(&self, out: &mut Vec<u8>) -> (r: Result<(), std::io::Error>)
        ensures
            r is Ok,
            final(out)@ == old(out)@ + markdown_html(vstd::utf8::encode_utf8(self.text())),
    {
        let mut html = parse(self.obj);
        out.append(&mut html);
        Ok(())
    }
}

/// Wraps a text to be shown as rendered markdown.
pub fn render<'a>(obj: &'a str) -> (m: Markdown<'a>)
    ensures
        m.text() == obj@,
{
    Markdown { obj: obj }
}

} // verus!
