//! Matching a request's method and path against the routes of the board.
//!
//! A route is a method and a path pattern made of literal parts and at most
//! one numeric segment: `/threads/{uid}/comments` matches the path
//! `/threads/` followed by a segment without `/` that reads, once
//! percent-decoded, as a `u32`, followed by `/comments` and nothing else.
use vstd::prelude::*;
use crate::text::{find_char, lemma_find_char, matches_chars};

verus! {

/// The method of a request.
#[derive(Clone, Copy, Debug, PartialEq, Eq, Structural)]
pub enum Method {
    Get,
    Post,
    Put,
    Delete,
    Other,
}

/// The method of the given name, by exact, case-sensitive name.
pub open spec fn method_named(name: Seq<char>) -> Method {
    if name == seq!['G', 'E', 'T'] {
        Method::Get
    } else if name == seq!['P', 'O', 'S', 'T'] {
        Method::Post
    } else if name == seq!['P', 'U', 'T'] {
        Method::Put
    } else if name == seq!['D', 'E', 'L', 'E', 'T', 'E'] {
        Method::Delete
    } else {
        Method::Other
    }
}

pub fn method_of(name: &str) -> (m: Method)
    ensures
        m == method_named(name@),
{
    if matches_chars(name, &['G', 'E', 'T']) {
        Method::Get
    } else if matches_chars(name, &['P', 'O', 'S', 'T']) {
        Method::Post
    } else if matches_chars(name, &['P', 'U', 'T']) {
        Method::Put
    } else if matches_chars(name, &['D', 'E', 'L', 'E', 'T', 'E']) {
        Method::Delete
    } else {
        Method::Other
    }
}

/// The path of a request target: what comes before the first `?`.
pub open spec fn path_of(url: Seq<char>) -> Seq<char> {
    match find_char(url, '?', 0) {
        Some(k) => url.take(k),
        None => url,
    }
}

pub fn request_path(url: &str) -> (p: &str)
    ensures
        p@ == path_of(url@),
{
    let n = url.unicode_len();
    let mut i: usize = 0;
    while i < n && url.get_char(i) != '?'
        invariant
            n == url@.len(),
            i <= n,
            forall|k: int| 0 <= k < i ==> #[trigger] url@[k] != '?',
        decreases n - i,
    {
        i = i + 1;
    }
    proof {
        crate::text::lemma_find_char_at(url@, '?', 0, i as int);
        assert(url@.take(n as int) == url@);
    }
    url.substring_char(0, i)
}

// ---------------------------------------------------------------------------
// Numbers in paths and parameters
// ---------------------------------------------------------------------------

/// Whether every character is an ASCII digit.
pub open spec fn all_digits(s: Seq<char>) -> bool {
    forall|i: int| 0 <= i < s.len() ==> '0' <= #[trigger] s[i] <= '9'
}

/// The value of a run of decimal digits.
pub open spec fn digits_value(s: Seq<char>) -> nat
    decreases s.len(),
{
    if s.len() == 0 {
        0
    } else {
        digits_value(s.drop_last()) * 10 + ((s.last() as u32 - '0' as u32) as nat)
    }
}

/// An unsigned number as Rust reads it from text (`str::parse`): an optional
/// `+`, then one or more decimal digits, of a value at most `max`.
pub open spec fn parse_unsigned(s: Seq<char>, max: nat) -> Option<nat> {
    let body = if s.len() > 0 && s[0] == '+' {
        s.skip(1)
    } else {
        s
    };
    if body.len() > 0 && all_digits(body) && digits_value(body) <= max {
        Some(digits_value(body))
    } else {
        None
    }
}

/// Reads an unsigned number of value at most `max` from text.
pub fn parse_unsigned_text(s: &str, max: u64) -> (r: Option<u64>)
    ensures
        match r {
            Some(v) => parse_unsigned(s@, max as nat) == Some(v as nat),
            None => parse_unsigned(s@, max as nat) is None,
        },
{
    let n = s.unicode_len();
    let start: usize = if n > 0 && s.get_char(0) == '+' {
        1
    } else {
        0
    };
    let ghost body = if s@.len() > 0 && s@[0] == '+' {
        s@.skip(1)
    } else {
        s@
    };
    assert(body == s@.skip(start as int));
    assert(parse_unsigned(s@, max as nat) == (if body.len() > 0 && all_digits(body) && digits_value(
        body,
    ) <= max {
        Some(digits_value(body))
    } else {
        None
    }));
    if start >= n {
        return None;
    }
    let mut acc: u64 = 0;
    let mut i: usize = start;
    while i < n
        invariant
            n == s@.len(),
            start <= i <= n,
            body == s@.skip(start as int),
            body.len() > 0,
            parse_unsigned(s@, max as nat) == (if all_digits(body) && digits_value(body) <= max {
                Some(digits_value(body))
            } else {
                None
            }),
            all_digits(body.take(i - start)),
            acc as nat == digits_value(body.take(i - start)),
            acc <= max,
        decreases n - i,
    {
        let c = s.get_char(i);
        if c < '0' || c > '9' {
            proof {
                assert(body[i - start] == c);
                assert(!('0' <= body[i - start] <= '9'));
                assert(!all_digits(body));
                assert(parse_unsigned(s@, max as nat) is None);
            }
            return None;
        }
        let d = (c as u32 - '0' as u32) as u64;
        let ghost prefix = body.take(i - start);
        let ghost next = body.take(i - start + 1);
        proof {
            assert(next.drop_last() == prefix);
            assert(next.last() == c);
            assert(digits_value(next) == digits_value(prefix) * 10 + d);
            assert(all_digits(next)) by {
                assert forall|k: int| 0 <= k < next.len() implies '0' <= #[trigger] next[k]
                    <= '9' by {
                    if k < prefix.len() {
                        assert(next[k] == prefix[k]);
                    }
                }
            }
        }
        if d > max || acc > (max - d) / 10 {
            proof {
                assert(acc * 10 + d > max);
                if all_digits(body) {
                    lemma_digits_value_monotone(body, i - start + 1);
                    assert(digits_value(body) > max);
                }
            }
            return None;
        }
        assert(acc * 10 + d <= max);
        acc = acc * 10 + d;
        i = i + 1;
    }
    assert(body.take(n - start) == body);
    Some(acc)
}

/// Reading more digits never makes the value smaller.
proof fn lemma_digits_value_monotone(s: Seq<char>, k: int)
    requires
        0 <= k <= s.len(),
        all_digits(s),
    ensures
        digits_value(s.take(k)) <= digits_value(s),
    decreases s.len() - k,
{
    if k < s.len() {
        lemma_digits_value_monotone(s, k + 1);
        let a = s.take(k + 1);
        assert(a.drop_last() == s.take(k));
        assert(digits_value(a) == digits_value(s.take(k)) * 10 + ((a.last() as u32 - '0' as u32) as nat));
    } else {
        assert(s.take(k) == s);
    }
}

/// The percent-decoded form of a path segment, with byte sequences that are
/// not UTF-8 replaced, as the percent_encoding crate's `percent_decode` and
/// `decode_utf8_lossy` compute it.
pub uninterp spec fn percent_decoded(segment: Seq<char>) -> Seq<char>;

/// Calls percent_encoding's `percent_decode` (as rouille re-exports it) on
/// the bytes of a path segment, then `decode_utf8_lossy`.  The contract
/// claims only that the result is what `percent_decoded` names.
#[verifier::external_body]
fn percent_decode_lossy(segment: &str) -> (r: String)
    ensures
        r@ == percent_decoded(segment@),
{
    rouille::percent_encoding::percent_decode(segment.as_bytes()).decode_utf8_lossy().into_owned()
}

// ---------------------------------------------------------------------------
// Path patterns
// ---------------------------------------------------------------------------

/// What follows `prefix` in `s`, if `s` starts with it.
pub open spec fn after_prefix(s: Seq<char>, prefix: Seq<char>) -> Option<Seq<char>> {
    if s.len() >= prefix.len() && s.take(prefix.len() as int) == prefix {
        Some(s.skip(prefix.len() as int))
    } else {
        None
    }
}

/// What follows `prefix` in `s`, if `s` starts with it.
pub fn strip_prefix<'a>(s: &'a str, prefix: &[char]) -> (r: Option<&'a str>)
    ensures
        match r {
            Some(rest) => after_prefix(s@, prefix@) == Some(rest@),
            None => after_prefix(s@, prefix@) is None,
        },
{
    let n = s.unicode_len();
    let m = prefix.len();
    if n < m {
        return None;
    }
    let mut i: usize = 0;
    while i < m
        invariant
            n == s@.len(),
            m == prefix@.len(),
            m <= n,
            i <= m,
            forall|k: int| 0 <= k < i ==> s@[k] == prefix@[k],
        decreases m - i,
    {
        if s.get_char(i) != prefix[i] {
            proof {
                assert(s@.take(m as int)[i as int] != prefix@[i as int]);
            }
            return None;
        }
        i = i + 1;
    }
    assert(s@.take(m as int) == prefix@);
    Some(s.substring_char(m, n))
}

/// A path segment at the start of `s`: after a `/`, up to the next `/`; and
/// what follows it, from that `/` on.
pub open spec fn split_segment(s: Seq<char>) -> Option<(Seq<char>, Seq<char>)> {
    if s.len() > 0 && s[0] == '/' {
        let u = s.skip(1);
        let end = match find_char(u, '/', 0) {
            Some(e) => e,
            None => u.len() as int,
        };
        Some((u.take(end), u.skip(end)))
    } else {
        None
    }
}

/// The number that a path matches a numeric pattern with: the path is
/// `prefix`, `/`, a segment that reads as a `u32` once percent-decoded, and
/// `suffix`.
pub open spec fn numbered_path(path: Seq<char>, prefix: Seq<char>, suffix: Seq<char>) -> Option<
    u32,
> {
    match after_prefix(path, prefix) {
        Some(r) => match split_segment(r) {
            Some((seg, rest)) => match parse_unsigned(percent_decoded(seg), u32::MAX as nat) {
                Some(v) => if rest == suffix {
                    Some(v as u32)
                } else {
                    None
                },
                None => None,
            },
            None => None,
        },
        None => None,
    }
}

/// The text that a path matches a text pattern with: the path is `prefix`,
/// `/`, a segment (percent-decoded) and nothing else.
pub open spec fn named_path(path: Seq<char>, prefix: Seq<char>) -> Option<Seq<char>> {
    match after_prefix(path, prefix) {
        Some(r) => match split_segment(r) {
            Some((seg, rest)) => if rest.len() == 0 {
                Some(percent_decoded(seg))
            } else {
                None
            },
            None => None,
        },
        None => None,
    }
}

/// Splits off the segment at the start of `s`.
fn take_segment<'a>(s: &'a str) -> (r: Option<(&'a str, &'a str)>)
    ensures
        match r {
            Some((seg, rest)) => split_segment(s@) == Some((seg@, rest@)),
            None => split_segment(s@) is None,
        },
{
    let n = s.unicode_len();
    if n == 0 || s.get_char(0) != '/' {
        return None;
    }
    let mut j: usize = 1;
    while j < n && s.get_char(j) != '/'
        invariant
            n == s@.len(),
            1 <= j <= n,
            forall|k: int| 1 <= k < j ==> #[trigger] s@[k] != '/',
        decreases n - j,
    {
        j = j + 1;
    }
    proof {
        let u = s@.skip(1);
        assert forall|k: int| 0 <= k < j - 1 implies #[trigger] u[k] != '/' by {
            assert(u[k] == s@[k + 1]);
        }
        crate::text::lemma_find_char_at(u, '/', 0, j - 1);
        assert(u.take(j - 1) == s@.subrange(1, j as int));
        assert(u.skip(j - 1) == s@.subrange(j as int, n as int));
    }
    Some((s.substring_char(1, j), s.substring_char(j, n)))
}

/// The number that a path matches `prefix/{n}suffix` with.
pub fn match_numbered(path: &str, prefix: &[char], suffix: &[char]) -> (r: Option<u32>)
    ensures
        r == numbered_path(path@, prefix@, suffix@),
{
    let rest = match strip_prefix(path, prefix) {
        Some(r) => r,
        None => {
            return None;
        },
    };
    let (seg, tail) = match take_segment(rest) {
        Some(p) => p,
        None => {
            return None;
        },
    };
    let decoded = percent_decode_lossy(seg);
    let v = match parse_unsigned_text(decoded.as_str(), 0xffff_ffff) {
        Some(v) => v,
        None => {
            return None;
        },
    };
    if matches_chars(tail, suffix) {
        Some(v as u32)
    } else {
        None
    }
}

/// The text that a path matches `prefix/{text}` with.
pub fn match_named(path: &str, prefix: &[char]) -> (r: Option<String>)
    ensures
        match r {
            Some(t) => named_path(path@, prefix@) == Some(t@),
            None => named_path(path@, prefix@) is None,
        },
{
    let rest = match strip_prefix(path, prefix) {
        Some(r) => r,
        None => {
            return None;
        },
    };
    let (seg, tail) = match take_segment(rest) {
        Some(p) => p,
        None => {
            return None;
        },
    };
    if tail.unicode_len() == 0 {
        Some(percent_decode_lossy(seg))
    } else {
        None
    }
}

/// Whether a path is exactly the given one.
pub fn is_path(path: &str, lit: &[char]) -> (b: bool)
    ensures
        b == (path@ == lit@),
{
    matches_chars(path, lit)
}

// ---------------------------------------------------------------------------
// Entity tags
// ---------------------------------------------------------------------------

/// Whether an `If-None-Match` value starts with a double quote.
pub open spec fn quoted(h: Seq<char>) -> bool {
    h.len() > 0 && h[0] == '"'
}

/// Whether the quotes of an `If-None-Match` value can be cut off: a quoted
/// value has a closing character, and that character is one byte long.
pub open spec fn tag_readable(h: Seq<char>) -> bool {
    quoted(h) ==> h.len() >= 2 && (h.last() as u32) < 0x80
}

/// The entity tag that an `If-None-Match` value names: without its first and
/// last character where it starts with a double quote.
pub open spec fn requested_tag(h: Seq<char>) -> Seq<char> {
    if quoted(h) {
        h.subrange(1, h.len() - 1)
    } else {
        h
    }
}

/// Whether the request already holds the current version: it names the
/// current entity tag.
pub open spec fn tag_matches(header: Option<String>, etag: Seq<char>) -> bool {
    header matches Some(h) && requested_tag(h@) == etag
}

/// Whether the request already holds the version with entity tag `etag`.
pub fn etag_matches(header: &Option<String>, etag: &str) -> (b: bool)
    requires
        header matches Some(h) ==> tag_readable(h@),
    ensures
        b == tag_matches(*header, etag@),
{
    match header {
        Some(h) => {
            let n = h.as_str().unicode_len();
            if n > 0 && h.as_str().get_char(0) == '"' {
                crate::text::str_eq(h.as_str().substring_char(1, n - 1), etag)
            } else {
                crate::text::str_eq(h.as_str(), etag)
            }
        },
        None => false,
    }
}

/// The path of a request target is what comes before its first `?`: the
/// query never takes part in routing.
pub proof fn query_is_not_part_of_the_path(p: Seq<char>, q: Seq<char>)
    requires
        forall|i: int| 0 <= i < p.len() ==> #[trigger] p[i] != '?',
    ensures
        path_of(p + seq!['?'] + q) == p,
        path_of(p) == p,
{
    let u = p + seq!['?'] + q;
    assert forall|m: int| 0 <= m < p.len() implies #[trigger] u[m] != '?' by {
        assert(u[m] == p[m]);
    }
    crate::text::lemma_find_char_at(u, '?', 0, p.len() as int);
    assert(u.take(p.len() as int) == p);
    crate::text::lemma_find_char_at(p, '?', 0, p.len() as int);
}

proof fn lemma_segment(seg: Seq<char>, rest: Seq<char>)
    requires
        forall|i: int| 0 <= i < seg.len() ==> #[trigger] seg[i] != '/',
        rest.len() > 0 ==> rest[0] == '/',
    ensures
        split_segment(seq!['/'] + seg + rest) == Some((seg, rest)),
{
    let s = seq!['/'] + seg + rest;
    let u = s.skip(1);
    assert(u == seg + rest);
    assert forall|m: int| 0 <= m < seg.len() implies #[trigger] u[m] != '/' by {
        assert(u[m] == seg[m]);
    }
    if rest.len() > 0 {
        assert(u[seg.len() as int] == '/');
    }
    crate::text::lemma_find_char_at(u, '/', 0, seg.len() as int);
    assert(u.take(seg.len() as int) == seg);
    assert(u.skip(seg.len() as int) == rest);
}

/// A path `prefix/segment` followed by `suffix` (empty, or starting with
/// `/`) takes the number that its one segment reads as, percent-decoded;
/// a path without the prefix takes none.
pub proof fn numbered_paths_read_their_segment(
    prefix: Seq<char>,
    seg: Seq<char>,
    suffix: Seq<char>,
)
    requires
        forall|i: int| 0 <= i < seg.len() ==> #[trigger] seg[i] != '/',
        suffix.len() > 0 ==> suffix[0] == '/',
    ensures
        numbered_path(prefix + seq!['/'] + seg + suffix, prefix, suffix) == match parse_unsigned(
            percent_decoded(seg),
            u32::MAX as nat,
        ) {
            Some(v) => Some(v as u32),
            None => None::<u32>,
        },
        named_path(prefix + seq!['/'] + seg, prefix) == Some(percent_decoded(seg)),
{
    let path = prefix + seq!['/'] + seg + suffix;
    assert(path.take(prefix.len() as int) == prefix);
    assert(path.skip(prefix.len() as int) == seq!['/'] + seg + suffix);
    lemma_segment(seg, suffix);
    let named = prefix + seq!['/'] + seg;
    assert(named.take(prefix.len() as int) == prefix);
    assert(named.skip(prefix.len() as int) == seq!['/'] + seg + Seq::<char>::empty());
    lemma_segment(seg, Seq::<char>::empty());
}

} // verus!
