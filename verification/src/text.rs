//! Text operations on characters: comparing, trimming, splitting, and
//! writing numbers in decimal.
use vstd::prelude::*;

verus! {

// ---------------------------------------------------------------------------
// Comparing
// ---------------------------------------------------------------------------

/// Whether two texts hold the same characters.
pub fn str_eq(a: &str, b: &str) -> (r: bool)
    ensures
        r == (a@ == b@),
{
    let n = a.unicode_len();
    let m = b.unicode_len();
    if n != m {
        return false;
    }
    let mut i: usize = 0;
    while i < n
        invariant
            n == a@.len(),
            m == b@.len(),
            n == m,
            i <= n,
            forall|k: int| 0 <= k < i ==> a@[k] == b@[k],
        decreases n - i,
    {
        if a.get_char(i) != b.get_char(i) {
            return false;
        }
        i = i + 1;
    }
    assert(a@ == b@);
    true
}

/// Whether a text holds exactly the characters of `lit`.
pub fn matches_chars(a: &str, lit: &[char]) -> (r: bool)
    ensures
        r == (a@ == lit@),
{
    let n = a.unicode_len();
    if n != lit.len() {
        return false;
    }
    let mut i: usize = 0;
    while i < n
        invariant
            n == a@.len(),
            n == lit@.len(),
            i <= n,
            forall|k: int| 0 <= k < i ==> a@[k] == lit@[k],
        decreases n - i,
    {
        if a.get_char(i) != lit[i] {
            return false;
        }
        i = i + 1;
    }
    assert(a@ == lit@);
    true
}

/// A copy of a text.
pub fn to_owned_string(s: &str) -> (r: String)
    ensures
        r@ == s@,
{
    s.to_owned()
}

// ---------------------------------------------------------------------------
// Trimming
// ---------------------------------------------------------------------------

/// The characters that Unicode calls White_Space.
pub open spec fn is_whitespace(c: char) -> bool {
    let u = c as u32;
    ||| 0x09 <= u <= 0x0d
    ||| u == 0x20
    ||| u == 0x85
    ||| u == 0xa0
    ||| u == 0x1680
    ||| 0x2000 <= u <= 0x200a
    ||| u == 0x2028
    ||| u == 0x2029
    ||| u == 0x202f
    ||| u == 0x205f
    ||| u == 0x3000
}

pub fn is_whitespace_char(c: char) -> (b: bool)
    ensures
        b == is_whitespace(c),
{
    let u = c as u32;
    (0x09 <= u && u <= 0x0d) || u == 0x20 || u == 0x85 || u == 0xa0 || u == 0x1680 || (0x2000
        <= u && u <= 0x200a) || u == 0x2028 || u == 0x2029 || u == 0x202f || u == 0x205f || u
        == 0x3000
}

/// The text without the whitespace it starts with.
pub open spec fn trim_start_chars(s: Seq<char>) -> Seq<char>
    decreases s.len(),
{
    if s.len() > 0 && is_whitespace(s[0]) {
        trim_start_chars(s.skip(1))
    } else {
        s
    }
}

/// The text without the whitespace it ends with.
pub open spec fn trim_end_chars(s: Seq<char>) -> Seq<char>
    decreases s.len(),
{
    if s.len() > 0 && is_whitespace(s.last()) {
        trim_end_chars(s.drop_last())
    } else {
        s
    }
}

/// The text without leading and trailing whitespace.
pub open spec fn trim_chars(s: Seq<char>) -> Seq<char> {
    trim_end_chars(trim_start_chars(s))
}

proof fn lemma_trim_start_skip(s: Seq<char>, i: int)
    requires
        0 <= i <= s.len(),
        forall|k: int| 0 <= k < i ==> is_whitespace(#[trigger] s[k]),
    ensures
        trim_start_chars(s) == trim_start_chars(s.skip(i)),
    decreases i,
{
    if i > 0 {
        assert(is_whitespace(s[0]));
        let s1 = s.skip(1);
        assert forall|k: int| 0 <= k < i - 1 implies is_whitespace(#[trigger] s1[k]) by {
            assert(s1[k] == s[k + 1]);
        }
        lemma_trim_start_skip(s1, i - 1);
        assert(s1.skip(i - 1) == s.skip(i));
    } else {
        assert(s.skip(0) == s);
    }
}

proof fn lemma_trim_end_take(s: Seq<char>, j: int)
    requires
        0 <= j <= s.len(),
        forall|k: int| j <= k < s.len() ==> is_whitespace(#[trigger] s[k]),
    ensures
        trim_end_chars(s) == trim_end_chars(s.take(j)),
    decreases s.len() - j,
{
    if j < s.len() {
        let s1 = s.drop_last();
        assert forall|k: int| j <= k < s1.len() implies is_whitespace(#[trigger] s1[k]) by {
            assert(s1[k] == s[k]);
        }
        assert(is_whitespace(s[s.len() - 1]));
        lemma_trim_end_take(s1, j);
        assert(s1.take(j) == s.take(j));
    } else {
        assert(s.take(j) == s);
    }
}

/// The text without leading and trailing whitespace.
pub fn trim(s: &str) -> (r: &str)
    ensures
        r@ == trim_chars(s@),
{
    let n = s.unicode_len();
    let mut i: usize = 0;
    while i < n && is_whitespace_char(s.get_char(i))
        invariant
            n == s@.len(),
            i <= n,
            forall|k: int| 0 <= k < i ==> is_whitespace(#[trigger] s@[k]),
        decreases n - i,
    {
        i = i + 1;
    }
    let mut j: usize = n;
    while j > i && is_whitespace_char(s.get_char(j - 1))
        invariant
            n == s@.len(),
            i <= j <= n,
            forall|k: int| j <= k < n ==> is_whitespace(#[trigger] s@[k]),
        decreases j,
    {
        j = j - 1;
    }
    proof {
        lemma_trim_start_skip(s@, i as int);
        let u = s@.skip(i as int);
        assert(trim_start_chars(u) == u) by {
            if u.len() > 0 {
                assert(u[0] == s@[i as int]);
            }
        }
        assert forall|k: int| j - i <= k < u.len() implies is_whitespace(#[trigger] u[k]) by {
            assert(u[k] == s@[k + i]);
        }
        lemma_trim_end_take(u, j - i);
        let w = u.take(j - i);
        assert(trim_end_chars(w) == w) by {
            if w.len() > 0 {
                assert(w.last() == s@[j - 1]);
            }
        }
        assert(w == s@.subrange(i as int, j as int));
    }
    s.substring_char(i, j)
}

// ---------------------------------------------------------------------------
// Splitting
// ---------------------------------------------------------------------------

/// Index of the first `c` at or after `i`.
pub open spec fn find_char(s: Seq<char>, c: char, i: int) -> Option<int>
    decreases s.len() - i,
{
    if i >= s.len() {
        None
    } else if s[i] == c {
        Some(i)
    } else {
        find_char(s, c, i + 1)
    }
}

pub proof fn lemma_find_char(s: Seq<char>, c: char, i: int)
    requires
        0 <= i,
    ensures
        find_char(s, c, i) matches Some(k) ==> {
            &&& i <= k < s.len()
            &&& s[k] == c
            &&& forall|m: int| i <= m < k ==> s[m] != c
        },
        find_char(s, c, i) is None ==> forall|m: int| i <= m < s.len() ==> s[m] != c,
    decreases s.len() - i,
{
    if i < s.len() && s[i] != c {
        lemma_find_char(s, c, i + 1);
    }
}

pub proof fn lemma_find_char_at(s: Seq<char>, c: char, i: int, k: int)
    requires
        0 <= i <= k <= s.len(),
        forall|m: int| i <= m < k ==> #[trigger] s[m] != c,
        k < s.len() ==> s[k] == c,
    ensures
        find_char(s, c, i) == (if k < s.len() {
            Some(k)
        } else {
            None::<int>
        }),
    decreases k - i,
{
    if i < k {
        lemma_find_char_at(s, c, i + 1, k);
    }
}

#[via_fn]
proof fn split_chars_decreases(s: Seq<char>, sep: char) {
    lemma_find_char(s, sep, 0);
}

/// The pieces of a text between the separators `sep`, in order: one more
/// piece than there are separators.
pub open spec fn split_chars(s: Seq<char>, sep: char) -> Seq<Seq<char>>
    decreases s.len(),
    via split_chars_decreases
{
    match find_char(s, sep, 0) {
        Some(k) => seq![s.take(k)] + split_chars(s.skip(k + 1), sep),
        None => seq![s],
    }
}

/// The characters of each text.
pub open spec fn views(v: Seq<String>) -> Seq<Seq<char>> {
    v.map_values(|x: String| x@)
}

/// The pieces of `s` between the separators `sep`.
pub fn split(s: &str, sep: char) -> (r: Vec<String>)
    ensures
        views(r@) == split_chars(s@, sep),
{
    let n = s.unicode_len();
    let mut pieces: Vec<String> = Vec::new();
    let mut start: usize = 0;
    let mut i: usize = 0;
    assert(s@.skip(0) == s@);
    assert(views(pieces@) == Seq::<Seq<char>>::empty());
    while i < n
        invariant
            n == s@.len(),
            start <= i <= n,
            forall|m: int| start <= m < i ==> #[trigger] s@[m] != sep,
            split_chars(s@, sep) == views(pieces@) + split_chars(s@.skip(start as int), sep),
        decreases n - i,
    {
        if s.get_char(i) == sep {
            let piece = String::from_str(s.substring_char(start, i));
            proof {
                let u = s@.skip(start as int);
                assert forall|m: int| 0 <= m < i - start implies #[trigger] u[m] != sep by {
                    assert(u[m] == s@[m + start]);
                }
                lemma_find_char_at(u, sep, 0, i - start);
                assert(u.take(i - start) == s@.subrange(start as int, i as int));
                assert(u.skip(i - start + 1) == s@.skip(i + 1));
                assert(views(pieces@.push(piece)) == views(pieces@).push(piece@));
            }
            pieces.push(piece);
            start = i + 1;
        }
        i = i + 1;
    }
    let last = String::from_str(s.substring_char(start, n));
    proof {
        let u = s@.skip(start as int);
        assert forall|m: int| 0 <= m < u.len() implies #[trigger] u[m] != sep by {
            assert(u[m] == s@[m + start]);
        }
        lemma_find_char_at(u, sep, 0, u.len() as int);
        assert(u == s@.subrange(start as int, n as int));
        assert(views(pieces@.push(last)) == views(pieces@).push(last@));
    }
    pieces.push(last);
    pieces
}

// ---------------------------------------------------------------------------
// Decimal numbers
// ---------------------------------------------------------------------------

/// The character of a decimal digit.
pub open spec fn digit_char(d: nat) -> char {
    (d + 48) as char
}

/// A natural number written in decimal, without leading zeros.
pub open spec fn decimal(n: nat) -> Seq<char>
    decreases n,
{
    if n < 10 {
        seq![digit_char(n)]
    } else {
        decimal(n / 10).push(digit_char(n % 10))
    }
}

/// An integer written in decimal, with a leading `-` when negative.
pub open spec fn signed_decimal(n: int) -> Seq<char> {
    if n < 0 {
        seq!['-'] + decimal((-n) as nat)
    } else {
        decimal(n as nat)
    }
}

/// The one-character text of a decimal digit.
fn digit_str(d: u64) -> (s: &'static str)
    requires
        d < 10,
    ensures
        s@ == seq![digit_char(d as nat)],
{
    if d == 0 {
        proof { reveal_strlit("0"); }
        "0"
    } else if d == 1 {
        proof { reveal_strlit("1"); }
        "1"
    } else if d == 2 {
        proof { reveal_strlit("2"); }
        "2"
    } else if d == 3 {
        proof { reveal_strlit("3"); }
        "3"
    } else if d == 4 {
        proof { reveal_strlit("4"); }
        "4"
    } else if d == 5 {
        proof { reveal_strlit("5"); }
        "5"
    } else if d == 6 {
        proof { reveal_strlit("6"); }
        "6"
    } else if d == 7 {
        proof { reveal_strlit("7"); }
        "7"
    } else if d == 8 {
        proof { reveal_strlit("8"); }
        "8"
    } else {
        proof { reveal_strlit("9"); }
        "9"
    }
}

/// Appends `n` written in decimal to `out`.
pub fn push_decimal(out: &mut String, n: u64)
    ensures
        final(out)@ == old(out)@ + decimal(n as nat),
{
    // The digits, last first.
    let mut digits: Vec<u64> = Vec::new();
    let mut m = n;
    while m >= 10
        invariant
            decimal(n as nat) == decimal(m as nat) + spec_reverse_digits(digits@),
            forall|k: int| 0 <= k < digits@.len() ==> #[trigger] digits@[k] < 10,
        decreases m,
    {
        let ghost before = digits@;
        let d = m % 10;
        digits.push(d);
        proof {
            lemma_reverse_digits_push(before, d);
            assert(decimal(m as nat) == decimal((m / 10) as nat).push(digit_char(d as nat)));
            assert(decimal((m / 10) as nat).push(digit_char(d as nat)) + spec_reverse_digits(
                before,
            ) == decimal((m / 10) as nat) + (seq![digit_char(d as nat)] + spec_reverse_digits(
                before,
            )));
        }
        m = m / 10;
    }
    let ghost before = digits@;
    digits.push(m);
    proof {
        lemma_reverse_digits_push(before, m);
    }
    let mut k = digits.len();
    assert(digits@.skip(k as int) == Seq::<u64>::empty());
    while k > 0
        invariant
            k <= digits@.len(),
            forall|j: int| 0 <= j < digits@.len() ==> #[trigger] digits@[j] < 10,
            out@ == old(out)@ + spec_reverse_digits(digits@.skip(k as int)),
            decimal(n as nat) == spec_reverse_digits(digits@),
        decreases k,
    {
        k = k - 1;
        out.append(digit_str(digits[k]));
        proof {
            assert(digits@.skip(k as int) == seq![digits@[k as int]] + digits@.skip(k + 1));
            lemma_reverse_digits_cons(digits@[k as int], digits@.skip(k + 1));
        }
    }
    assert(digits@.skip(0) == digits@);
}

/// The characters of digits given from the last to the first.
pub open spec fn spec_reverse_digits(ds: Seq<u64>) -> Seq<char>
    decreases ds.len(),
{
    if ds.len() == 0 {
        Seq::empty()
    } else {
        spec_reverse_digits(ds.skip(1)).push(digit_char(ds[0] as nat))
    }
}

proof fn lemma_reverse_digits_cons(d: u64, ds: Seq<u64>)
    ensures
        spec_reverse_digits(seq![d] + ds) == spec_reverse_digits(ds).push(digit_char(d as nat)),
{
    assert((seq![d] + ds).skip(1) == ds);
}

proof fn lemma_reverse_digits_push(ds: Seq<u64>, d: u64)
    ensures
        spec_reverse_digits(ds.push(d)) == seq![digit_char(d as nat)] + spec_reverse_digits(ds),
    decreases ds.len(),
{
    if ds.len() == 0 {
        assert(ds.push(d) == seq![d]);
        assert(seq![d].skip(1) == Seq::<u64>::empty());
        assert(spec_reverse_digits(Seq::<u64>::empty()) == Seq::<char>::empty());
        assert(spec_reverse_digits(seq![d]) == Seq::<char>::empty().push(digit_char(d as nat)));
        assert(Seq::<char>::empty().push(digit_char(d as nat)) == seq![digit_char(d as nat)]
            + Seq::<char>::empty());
    } else {
        assert(ds.push(d).skip(1) == ds.skip(1).push(d));
        lemma_reverse_digits_push(ds.skip(1), d);
        assert(ds.push(d)[0] == ds[0]);
        assert(spec_reverse_digits(ds.push(d)) == spec_reverse_digits(ds.skip(1).push(d)).push(
            digit_char(ds[0] as nat),
        ));
        assert((seq![digit_char(d as nat)] + spec_reverse_digits(ds.skip(1))).push(
            digit_char(ds[0] as nat),
        ) == seq![digit_char(d as nat)] + spec_reverse_digits(ds.skip(1)).push(
            digit_char(ds[0] as nat),
        ));
    }
}

/// `n` written in decimal.
pub fn decimal_string(n: u64) -> (r: String)
    ensures
        r@ == decimal(n as nat),
{
    let mut s = String::new();
    push_decimal(&mut s, n);
    s
}

/// Appends `n` written in decimal, with a leading `-` when negative.
pub fn push_signed_decimal(out: &mut String, n: i64)
    ensures
        final(out)@ == old(out)@ + signed_decimal(n as int),
{
    if n < 0 {
        proof { reveal_strlit("-"); }
        out.append("-");
        let m: u64 = if n == i64::MIN {
            0x8000_0000_0000_0000u64
        } else {
            (-n) as u64
        };
        push_decimal(out, m);
        assert(old(out)@ + seq!['-'] + decimal(m as nat) == old(out)@ + (seq!['-'] + decimal(
            m as nat,
        )));
    } else {
        push_decimal(out, n as u64);
    }
}

} // verus!
