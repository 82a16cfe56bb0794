//! What the text operations promise together.
use vstd::prelude::*;
use crate::routing::{all_digits, digits_value, parse_unsigned};
use crate::text::{
    decimal, digit_char, find_char, is_whitespace, lemma_find_char, split_chars, trim_chars,
    trim_end_chars, trim_start_chars,
};

verus! {

proof fn lemma_decimal_digits(n: nat)
    ensures
        all_digits(decimal(n)),
        digits_value(decimal(n)) == n,
        decimal(n).len() > 0,
    decreases n,
{
    if n < 10 {
        let s = decimal(n);
        assert(s == seq![digit_char(n)]);
        assert(s.drop_last() == Seq::<char>::empty());
        assert(digits_value(s.drop_last()) == 0);
        assert((digit_char(n) as u32 - '0' as u32) as nat == n);
    } else {
        lemma_decimal_digits(n / 10);
        let s = decimal(n);
        let d = digit_char(n % 10);
        assert(s == decimal(n / 10).push(d));
        assert(s.drop_last() == decimal(n / 10));
        assert((d as u32 - '0' as u32) as nat == n % 10);
        assert(digits_value(s) == (n / 10) * 10 + n % 10);
        assert forall|i: int| 0 <= i < s.len() implies '0' <= #[trigger] s[i] <= '9' by {
            if i < s.len() - 1 {
                assert(s[i] == decimal(n / 10)[i]);
            }
        }
    }
}

/// A number written in decimal reads back as itself: what `push_decimal`
/// writes, `parse_unsigned_text` reads, for every value within the bound.
pub proof fn decimal_reads_back(n: nat, max: nat)
    requires
        n <= max,
    ensures
        parse_unsigned(decimal(n), max) == Some(n),
{
    lemma_decimal_digits(n);
    let s = decimal(n);
    assert('0' <= s[0] <= '9');
}

proof fn lemma_trim_start_properties(s: Seq<char>)
    ensures
        trim_start_chars(s).len() > 0 ==> !is_whitespace(trim_start_chars(s)[0]),
        trim_start_chars(s).len() <= s.len(),
        forall|i: int| 0 <= i < trim_start_chars(s).len() ==> #[trigger] trim_start_chars(s)[i]
            == s[i + s.len() - trim_start_chars(s).len()],
    decreases s.len(),
{
    if s.len() > 0 && is_whitespace(s[0]) {
        lemma_trim_start_properties(s.skip(1));
    }
}

proof fn lemma_trim_end_keeps_start(s: Seq<char>)
    requires
        s.len() > 0 ==> !is_whitespace(s[0]),
    ensures
        trim_end_chars(s).len() > 0 ==> !is_whitespace(trim_end_chars(s)[0]),
        trim_end_chars(s).len() > 0 ==> !is_whitespace(trim_end_chars(s).last()),
        trim_end_chars(s).len() <= s.len(),
        forall|i: int| 0 <= i < trim_end_chars(s).len() ==> #[trigger] trim_end_chars(s)[i] == s[i],
    decreases s.len(),
{
    if s.len() > 0 && is_whitespace(s.last()) {
        let d = s.drop_last();
        assert(d.len() > 0 ==> d[0] == s[0]);
        lemma_trim_end_keeps_start(d);
    }
}

/// A trimmed text neither starts nor ends with whitespace, so trimming it
/// again changes nothing.
pub proof fn trim_is_idempotent(s: Seq<char>)
    ensures
        trim_chars(s).len() > 0 ==> !is_whitespace(trim_chars(s)[0]) && !is_whitespace(
            trim_chars(s).last(),
        ),
        trim_chars(trim_chars(s)) == trim_chars(s),
{
    lemma_trim_start_properties(s);
    let a = trim_start_chars(s);
    lemma_trim_end_keeps_start(a);
    let t = trim_chars(s);
    assert(trim_start_chars(t) == t);
    assert(trim_end_chars(t) == t);
}

proof fn lemma_trim_start_cut(s: Seq<char>) -> (i: int)
    ensures
        0 <= i <= s.len(),
        trim_start_chars(s) == s.skip(i),
        forall|k: int| 0 <= k < i ==> is_whitespace(#[trigger] s[k]),
    decreases s.len(),
{
    if s.len() > 0 && is_whitespace(s[0]) {
        let s1 = s.skip(1);
        let j = lemma_trim_start_cut(s1);
        assert(s1.skip(j) == s.skip(j + 1));
        assert forall|k: int| 0 <= k < j + 1 implies is_whitespace(#[trigger] s[k]) by {
            if k > 0 {
                assert(s[k] == s1[k - 1]);
            }
        }
        j + 1
    } else {
        assert(s.skip(0) == s);
        0
    }
}

proof fn lemma_trim_end_cut(s: Seq<char>) -> (j: int)
    ensures
        0 <= j <= s.len(),
        trim_end_chars(s) == s.take(j),
        forall|k: int| j <= k < s.len() ==> is_whitespace(#[trigger] s[k]),
    decreases s.len(),
{
    if s.len() > 0 && is_whitespace(s.last()) {
        let s1 = s.drop_last();
        let j = lemma_trim_end_cut(s1);
        assert(s1.take(j) == s.take(j));
        assert forall|k: int| j <= k < s.len() implies is_whitespace(#[trigger] s[k]) by {
            if k < s.len() - 1 {
                assert(s[k] == s1[k]);
            }
        }
        j
    } else {
        assert(s.take(s.len() as int) == s);
        s.len() as int
    }
}

/// Trimming takes off exactly the whitespace around a text: the result is
/// the part of the text between its first and its last character that is
/// not whitespace, and empty where there is none.
pub proof fn trim_takes_off_outer_whitespace(s: Seq<char>)
    ensures
        exists|i: int, j: int|
            #![trigger s.subrange(i, j)]
            0 <= i <= j <= s.len() && trim_chars(s) == s.subrange(i, j) && (forall|k: int|
                0 <= k < i ==> is_whitespace(#[trigger] s[k])) && (forall|k: int|
                j <= k < s.len() ==> is_whitespace(#[trigger] s[k])) && (i < j ==> !is_whitespace(
                s[i],
            ) && !is_whitespace(s[j - 1])),
{
    let i = lemma_trim_start_cut(s);
    let a = s.skip(i);
    let j = lemma_trim_end_cut(a);
    trim_is_idempotent(s);
    assert(trim_chars(s) == a.take(j));
    assert(a.take(j) == s.subrange(i, i + j));
    assert forall|k: int| i + j <= k < s.len() implies is_whitespace(#[trigger] s[k]) by {
        assert(s[k] == a[k - i]);
    }
    if j > 0 {
        assert(trim_chars(s)[0] == s[i]);
        assert(trim_chars(s).last() == s[i + j - 1]);
    }
    assert(s.subrange(i, i + j) == s.subrange(i, i + j));
}

/// Pieces put back together with the separator between them.
pub open spec fn joined(pieces: Seq<Seq<char>>, sep: char) -> Seq<char>
    decreases pieces.len(),
{
    if pieces.len() == 0 {
        Seq::empty()
    } else if pieces.len() == 1 {
        pieces[0]
    } else {
        pieces[0] + seq![sep] + joined(pieces.skip(1), sep)
    }
}

/// Splitting loses nothing: the pieces hold no separator, there is at least
/// one, and put back together with the separator they give the text.
pub proof fn split_pieces_join_back(s: Seq<char>, sep: char)
    ensures
        split_chars(s, sep).len() >= 1,
        forall|p: int, k: int|
            0 <= p < split_chars(s, sep).len() && 0 <= k < split_chars(s, sep)[p].len()
                ==> #[trigger] split_chars(s, sep)[p][k] != sep,
        joined(split_chars(s, sep), sep) == s,
    decreases s.len(),
{
    lemma_find_char(s, sep, 0);
    match find_char(s, sep, 0) {
        Some(k) => {
            let rest = s.skip(k + 1);
            split_pieces_join_back(rest, sep);
            let r = split_chars(rest, sep);
            let ps = split_chars(s, sep);
            assert(ps == seq![s.take(k)] + r);
            assert(ps.skip(1) == r);
            assert(ps[0] == s.take(k));
            assert forall|p: int, m: int| 0 <= p < ps.len() && 0 <= m < ps[p].len() implies #[trigger] ps[p][m]
                != sep by {
                if p > 0 {
                    assert(ps[p] == r[p - 1]);
                }
            }
            assert(s.take(k) + seq![sep] + rest == s);
        },
        None => {
            assert(split_chars(s, sep) == seq![s]);
        },
    }
}

/// A number is read from digits only: a `+` may lead, a value above the
/// bound is refused, and any other character, or no digit at all, makes the
/// text no number.
pub proof fn numbers_are_read_from_digits_only(n: nat, max: nat, s: Seq<char>, i: int)
    ensures
        n <= max ==> parse_unsigned(seq!['+'] + decimal(n), max) == Some(n),
        n > max ==> parse_unsigned(decimal(n), max) is None,
        parse_unsigned(Seq::empty(), max) is None,
        parse_unsigned(seq!['+'], max) is None,
        0 <= i < s.len() && !('0' <= s[i] <= '9') && !(i == 0 && s[i] == '+') ==> parse_unsigned(
            s,
            max,
        ) is None,
{
    lemma_decimal_digits(n);
    let d = decimal(n);
    assert('0' <= d[0] <= '9');
    assert((seq!['+'] + d).skip(1) == d);
    assert(seq!['+'].skip(1).len() == 0);
    if 0 <= i < s.len() && !('0' <= s[i] <= '9') && !(i == 0 && s[i] == '+') {
        if s.len() > 0 && s[0] == '+' {
            assert(s.skip(1)[i - 1] == s[i]);
        }
    }
}

} // verus!
