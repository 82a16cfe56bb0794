//! Settings, the negotiated response format, error replies and password
//! hashing.
use vstd::prelude::*;
use crate::text::{find_char, lemma_find_char, matches_chars, split, split_chars, views};
use crate::response::Reply;
use crypto::digest::Digest;

verus! {

/// The server's settings, as read from its settings file.
pub struct ServerSetting {
    pub host: String,
    pub db: String,
    pub user: String,
    pub password: String,
    pub aes_iv: String,
    pub aes_key: String,
}

/// The format in which a reply is written.
#[derive(Clone, Copy, Debug, PartialEq, Eq, Structural)]
pub enum ResponseContentType {
    Html,
    Json,
    Xml,
}

/// A plain-text error reply with the given status code.
pub fn error(msg: &str, code: u16) -> (r: Reply)
    ensures
        r matches Reply::Text { body, status } && body@ == msg@ && status == code,
{
    Reply::Text { body: msg.to_owned(), status: code }
}

// ---------------------------------------------------------------------------
// Password hashing
// ---------------------------------------------------------------------------

/// The lowercase hexadecimal SHA3-512 digest of the UTF-8 bytes of a text,
/// as rust-crypto's `Sha3::sha3_512` computes it.
pub uninterp spec fn sha3_512_hex(text: Seq<char>) -> Seq<char>;

/// Calls rust-crypto's `Sha3::sha3_512`, `Digest::input_str` and
/// `Digest::result_str`; the contract claims only that the result is the
/// digest named `sha3_512_hex` of the text.
#[verifier::external_body]
fn sha3_512_hex_of(text: &str) -> (r: String)
    ensures
        r@ == sha3_512_hex(text@),
{
    let mut hasher = crypto::sha3::Sha3::sha3_512();
    hasher.input_str(text);
    hasher.result_str()
}

/// The SHA3-512 digest of a text, in lowercase hexadecimal; passwords are
/// stored and compared in this form.
pub fn to_sha3(text: &str) -> (r: String)
    ensures
        r@ == sha3_512_hex(text@),
{
    sha3_512_hex_of(text)
}

// ---------------------------------------------------------------------------
// Content negotiation from the `Accept` header
// ---------------------------------------------------------------------------

/// The media ranges of an `Accept` header: the pieces between its commas.
pub fn accept_ranges(accept: &str) -> (r: Vec<String>)
    ensures
        views(r@) == split_chars(accept@, ','),
{
    split(accept, ',')
}

/// Index of the first `q=` at or after `i`.
pub open spec fn find_quality(s: Seq<char>, i: int) -> Option<int>
    decreases s.len() - i,
{
    if i + 1 >= s.len() {
        None
    } else if s[i] == 'q' && s[i + 1] == '=' {
        Some(i)
    } else {
        find_quality(s, i + 1)
    }
}

proof fn lemma_find_quality(s: Seq<char>, i: int)
    requires
        0 <= i,
    ensures
        find_quality(s, i) matches Some(k) ==> i <= k && k + 2 <= s.len(),
    decreases s.len() - i,
{
    if i + 1 < s.len() && !(s[i] == 'q' && s[i + 1] == '=') {
        lemma_find_quality(s, i + 1);
    }
}

/// The quality text of a media range: the piece after its first `q=`, up to
/// the next `q=`; none where the range has no `q=`.
pub open spec fn quality_chars(s: Seq<char>) -> Option<Seq<char>> {
    match find_quality(s, 0) {
        Some(k) => Some(
            s.subrange(
                k + 2,
                match find_quality(s, k + 2) {
                    Some(m) => m,
                    None => s.len() as int,
                },
            ),
        ),
        None => None,
    }
}

/// Finds `q=` from `i` on.
fn find_quality_at(s: &str, n: usize, i: usize) -> (r: Option<usize>)
    requires
        n == s@.len(),
    ensures
        match r {
            Some(k) => find_quality(s@, i as int) == Some(k as int),
            None => find_quality(s@, i as int) is None,
        },
    decreases n - i,
{
    if i >= n || i + 1 >= n {
        None
    } else if s.get_char(i) == 'q' && s.get_char(i + 1) == '=' {
        Some(i)
    } else {
        find_quality_at(s, n, i + 1)
    }
}

/// The quality text of a media range (the text of a number between 0 and 1
/// that weighs the range), if it gives one.
pub fn quality_text(range: &str) -> (r: Option<String>)
    ensures
        match r {
            Some(q) => quality_chars(range@) == Some(q@),
            None => quality_chars(range@) is None,
        },
{
    let n = range.unicode_len();
    match find_quality_at(range, n, 0) {
        Some(k) => {
            proof {
                lemma_find_quality(range@, 0);
                lemma_find_quality(range@, k + 2);
            }
            let end = match find_quality_at(range, n, k + 2) {
                Some(m) => m,
                None => n,
            };
            Some(range.substring_char(k + 2, end).to_owned())
        },
        None => None,
    }
}

/// The weight of a media range that gives no quality.
pub const DEFAULT_WEIGHT: i32 = 10;

/// Whether `i` is the first of the heaviest weights.
pub open spec fn is_first_heaviest(weights: Seq<i32>, i: int) -> bool {
    &&& 0 <= i < weights.len()
    &&& forall|j: int| 0 <= j < weights.len() ==> #[trigger] weights[j] <= weights[i]
    &&& forall|j: int| 0 <= j < i ==> #[trigger] weights[j] < weights[i]
}

/// The index of the range to answer in: the first among those of the
/// greatest weight.
pub fn pick_range(weights: &Vec<i32>) -> (i: usize)
    requires
        weights@.len() > 0,
    ensures
        is_first_heaviest(weights@, i as int),
        i == heaviest_index(weights@),
{
    let mut best: usize = 0;
    let mut j: usize = 1;
    while j < weights.len()
        invariant
            1 <= j <= weights@.len(),
            best < j,
            forall|k: int| 0 <= k < j ==> #[trigger] weights@[k] <= weights@[best as int],
            forall|k: int| 0 <= k < best ==> #[trigger] weights@[k] < weights@[best as int],
        decreases weights@.len() - j,
    {
        if weights[j] > weights[best] {
            best = j;
        }
        j = j + 1;
    }
    proof {
        lemma_first_heaviest_unique(weights@, best as int);
    }
    best
}

/// The index of the first of the heaviest weights.
pub open spec fn heaviest_index(weights: Seq<i32>) -> int {
    choose|i: int| is_first_heaviest(weights, i)
}

/// The first of the heaviest weights is one index only.
pub proof fn lemma_first_heaviest_unique(weights: Seq<i32>, i: int)
    requires
        is_first_heaviest(weights, i),
    ensures
        heaviest_index(weights) == i,
{
    let k = heaviest_index(weights);
    assert(is_first_heaviest(weights, k));
    if k < i {
        assert(weights[k] < weights[i]);
        assert(weights[i] <= weights[k]);
    } else if i < k {
        assert(weights[i] < weights[k]);
        assert(weights[k] <= weights[i]);
    }
}

/// The subtype of a media range: the piece after its first `/`, up to the
/// next `/`, and before any `;` in it.
pub open spec fn media_subtype(range: Seq<char>) -> Seq<char> {
    let slash = find_char(range, '/', 0)->0;
    let end = match find_char(range, '/', slash + 1) {
        Some(e) => e,
        None => range.len() as int,
    };
    let piece = range.subrange(slash + 1, end);
    match find_char(piece, ';', 0) {
        Some(f) => piece.take(f),
        None => piece,
    }
}

/// The format that a subtype asks for: JSON and XML by name, HTML otherwise.
pub open spec fn format_of_subtype(sub: Seq<char>) -> ResponseContentType {
    if sub == seq!['j', 's', 'o', 'n'] {
        ResponseContentType::Json
    } else if sub == seq!['x', 'm', 'l'] {
        ResponseContentType::Xml
    } else {
        ResponseContentType::Html
    }
}

/// Finds `c` in `s` from `i` on.
fn find_char_at(s: &str, n: usize, c: char, i: usize) -> (r: Option<usize>)
    requires
        n == s@.len(),
    ensures
        match r {
            Some(k) => find_char(s@, c, i as int) == Some(k as int),
            None => find_char(s@, c, i as int) is None,
        },
    decreases n - i,
{
    if i >= n {
        None
    } else if s.get_char(i) == c {
        Some(i)
    } else {
        find_char_at(s, n, c, i + 1)
    }
}

/// The format that the chosen media range asks for.
pub fn content_type_of(range: &str) -> (r: ResponseContentType)
    requires
        find_char(range@, '/', 0) is Some,
    ensures
        r == format_of_subtype(media_subtype(range@)),
{
    let n = range.unicode_len();
    let slash = match find_char_at(range, n, '/', 0) {
        Some(k) => k,
        None => {
            return ResponseContentType::Html;
        },
    };
    proof {
        lemma_find_char(range@, '/', 0);
        lemma_find_char(range@, '/', slash + 1);
    }
    let end = match find_char_at(range, n, '/', slash + 1) {
        Some(e) => e,
        None => n,
    };
    let piece = range.substring_char(slash + 1, end);
    let pn = piece.unicode_len();
    proof {
        lemma_find_char(piece@, ';', 0);
    }
    let sub = match find_char_at(piece, pn, ';', 0) {
        Some(f) => piece.substring_char(0, f),
        None => piece,
    };
    proof {
        assert(piece@.subrange(0, piece@.len() as int) == piece@);
    }
    if matches_chars(sub, &['j', 's', 'o', 'n']) {
        ResponseContentType::Json
    } else if matches_chars(sub, &['x', 'm', 'l']) {
        ResponseContentType::Xml
    } else {
        ResponseContentType::Html
    }
}

/// The format of the reply to a request with the given `Accept` header:
/// `ranges` are its media ranges and `weights` their weights; the first of
/// the heaviest ranges decides.
pub fn accept_type_for(ranges: &Vec<String>, weights: &Vec<i32>) -> (r: ResponseContentType)
    requires
        ranges@.len() == weights@.len(),
        weights@.len() > 0,
        find_char(ranges@[heaviest_index(weights@)]@, '/', 0) is Some,
    ensures
        r == format_of_subtype(media_subtype(ranges@[heaviest_index(weights@)]@)),
{
    let i = pick_range(weights);
    content_type_of(ranges[i].as_str())
}

/// The subtype of a media range `type/subtype;parameters` is the part
/// between the `/` and the first `;`, and it alone decides the format: JSON
/// for `json`, XML for `xml`, HTML for anything else.
pub proof fn subtype_decides_the_format(t: Seq<char>, sub: Seq<char>, params: Seq<char>)
    requires
        forall|i: int| 0 <= i < t.len() ==> #[trigger] t[i] != '/',
        forall|i: int| 0 <= i < sub.len() ==> #[trigger] sub[i] != '/' && sub[i] != ';',
        forall|i: int| 0 <= i < params.len() ==> #[trigger] params[i] != '/',
        params.len() > 0 ==> params[0] == ';',
    ensures
        media_subtype(t + seq!['/'] + sub + params) == sub,
        format_of_subtype(media_subtype(t + seq!['/'] + sub + params)) == if sub == seq![
            'j',
            's',
            'o',
            'n',
        ] {
            ResponseContentType::Json
        } else if sub == seq!['x', 'm', 'l'] {
            ResponseContentType::Xml
        } else {
            ResponseContentType::Html
        },
{
    let r = t + seq!['/'] + sub + params;
    let k = t.len() as int;
    assert forall|m: int| 0 <= m < k implies #[trigger] r[m] != '/' by {
        assert(r[m] == t[m]);
    }
    assert(r[k] == '/');
    crate::text::lemma_find_char_at(r, '/', 0, k);
    assert forall|m: int| k + 1 <= m < r.len() implies #[trigger] r[m] != '/' by {
        if m < k + 1 + sub.len() {
            assert(r[m] == sub[m - k - 1]);
        } else {
            assert(r[m] == params[m - k - 1 - sub.len()]);
        }
    }
    crate::text::lemma_find_char_at(r, '/', k + 1, r.len() as int);
    let piece = r.subrange(k + 1, r.len() as int);
    assert(piece == sub + params);
    let n = sub.len() as int;
    assert forall|m: int| 0 <= m < n implies #[trigger] piece[m] != ';' by {
        assert(piece[m] == sub[m]);
    }
    if params.len() > 0 {
        assert(piece[n] == ';');
        crate::text::lemma_find_char_at(piece, ';', 0, n);
        assert(piece.take(n) == sub);
    } else {
        crate::text::lemma_find_char_at(piece, ';', 0, n);
        assert(piece == sub);
    }
}

} // verus!
