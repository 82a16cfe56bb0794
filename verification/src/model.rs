//! Threads, their comments and their tags, and HTML-escaped output.
use vstd::prelude::*;
use crate::user::{User, UserView};
use chrono::NaiveDateTime;

verus! {

/// A date and a time of day, without a time zone (chrono's `NaiveDateTime`).
#[verifier::external_type_specification]
#[verifier::external_body]
pub struct ExNaiveDateTime(NaiveDateTime);

// ---------------------------------------------------------------------------
// HTML output
// ---------------------------------------------------------------------------

/// Something that can be written out as HTML.
pub trait ToHTML {
    fn to_html(&self, writer: &mut Vec<u8>) -> Result<(), std::io::Error>;
}

/// What one byte of displayed text becomes in HTML: `<`, `>` and `&` turn
/// into entities.
pub open spec fn html_escaped(b: u8) -> Seq<u8> {
    if b == 0x3c {
        seq![0x26u8, 0x6cu8, 0x74u8, 0x3bu8]
    } else if b == 0x3e {
        seq![0x26u8, 0x67u8, 0x74u8, 0x3bu8]
    } else if b == 0x26 {
        seq![0x26u8, 0x61u8, 0x6du8, 0x70u8, 0x3bu8]
    } else {
        seq![b]
    }
}

/// Displayed text as HTML.
pub open spec fn escape_html(s: Seq<u8>) -> Seq<u8>
    decreases s.len(),
{
    if s.len() == 0 {
        Seq::empty()
    } else {
        escape_html(s.drop_last()) + html_escaped(s.last())
    }
}

/// Appends displayed text to `out` as HTML.
pub fn push_escape_html(out: &mut Vec<u8>, s: &[u8])
    ensures
        final(out)@ == old(out)@ + escape_html(s@),
{
    let mut i: usize = 0;
    while i < s.len()
        invariant
            i <= s@.len(),
            out@ == old(out)@ + escape_html(s@.take(i as int)),
        decreases s@.len() - i,
    {
        let c = s[i];
        if c == 0x3c {
            crate::markdown::push_lit(out, &[0x26u8, 0x6cu8, 0x74u8, 0x3bu8]);
        } else if c == 0x3e {
            crate::markdown::push_lit(out, &[0x26u8, 0x67u8, 0x74u8, 0x3bu8]);
        } else if c == 0x26 {
            crate::markdown::push_lit(out, &[0x26u8, 0x61u8, 0x6du8, 0x70u8, 0x3bu8]);
        } else {
            out.push(c);
        }
        i = i + 1;
        assert(s@.take(i as int).drop_last() == s@.take(i - 1));
        assert(out@ == old(out)@ + (escape_html(s@.take(i - 1)) + html_escaped(s@[i - 1])));
    }
    assert(s@.take(i as int) == s@);
}

/// A value that may be missing, shown through its displayed text: nothing is
/// written where it is missing.
impl ToHTML for Option<String> {
    fn to_html(&self, writer: &mut Vec<u8>) -> (r: Result<(), std::io::Error>)
        ensures
            r is Ok,
            final(writer)@ == old(writer)@ + match self {
                Some(v) => escape_html(vstd::utf8::encode_utf8(v@)),
                None => Seq::empty(),
            },
    {
        if let Some(v) = self {
            push_escape_html(writer, v.as_str().as_bytes());
        }
        Ok(())
    }
}

/// HTML-escaped text holds no angle bracket, and every `&` in it starts an
/// entity: whatever is displayed this way cannot open or close an HTML tag.
pub proof fn escaped_html_has_no_markup(s: Seq<u8>)
    ensures
        forall|i: int|
            0 <= i < escape_html(s).len() ==> #[trigger] escape_html(s)[i] != 0x3c
                && escape_html(s)[i] != 0x3e,
    decreases s.len(),
{
    if s.len() > 0 {
        escaped_html_has_no_markup(s.drop_last());
        let e = escape_html(s.drop_last());
        let a = html_escaped(s.last());
        assert(escape_html(s) == e + a);
        assert forall|i: int| 0 <= i < escape_html(s).len() implies #[trigger] escape_html(s)[i]
            != 0x3c && escape_html(s)[i] != 0x3e by {
            if i >= e.len() {
                assert(escape_html(s)[i] == a[i - e.len()]);
            } else {
                assert(escape_html(s)[i] == e[i]);
            }
        }
    }
}

/// `&lt;`
pub open spec fn html_lt() -> Seq<u8> {
    seq![0x26u8, 0x6cu8, 0x74u8, 0x3bu8]
}

/// `&gt;`
pub open spec fn html_gt() -> Seq<u8> {
    seq![0x26u8, 0x67u8, 0x74u8, 0x3bu8]
}

/// `&amp;`
pub open spec fn html_amp() -> Seq<u8> {
    seq![0x26u8, 0x61u8, 0x6du8, 0x70u8, 0x3bu8]
}

/// Whether `w` starts with `p`.
pub open spec fn starts_with(w: Seq<u8>, p: Seq<u8>) -> bool {
    p.len() <= w.len() && w.take(p.len() as int) == p
}

/// HTML read back into the text it shows, from left to right: `&lt;`,
/// `&gt;` and `&amp;` turn back into `<`, `>` and `&`.
pub open spec fn html_unescaped(w: Seq<u8>) -> Seq<u8>
    decreases w.len(),
{
    if w.len() == 0 {
        Seq::empty()
    } else if starts_with(w, html_lt()) {
        seq![0x3cu8] + html_unescaped(w.skip(4))
    } else if starts_with(w, html_gt()) {
        seq![0x3eu8] + html_unescaped(w.skip(4))
    } else if starts_with(w, html_amp()) {
        seq![0x26u8] + html_unescaped(w.skip(5))
    } else {
        seq![w[0]] + html_unescaped(w.skip(1))
    }
}

proof fn lemma_escape_html_prepend(a: u8, s: Seq<u8>)
    ensures
        escape_html(seq![a] + s) == html_escaped(a) + escape_html(s),
    decreases s.len(),
{
    if s.len() == 0 {
        assert(seq![a] + s == seq![a]);
        assert((seq![a]).drop_last() == Seq::<u8>::empty());
        assert(escape_html(Seq::<u8>::empty()) == Seq::<u8>::empty());
        assert(html_escaped(a) + Seq::<u8>::empty() == html_escaped(a));
    } else {
        assert((seq![a] + s).drop_last() == seq![a] + s.drop_last());
        lemma_escape_html_prepend(a, s.drop_last());
        assert((seq![a] + s).last() == s.last());
        assert(html_escaped(a) + escape_html(s.drop_last()) + html_escaped(s.last())
            == html_escaped(a) + (escape_html(s.drop_last()) + html_escaped(s.last())));
    }
}

/// Escaping loses nothing: reading the HTML of a text back gives the text.
pub proof fn unescaping_escaped_html_gives_the_text_back(s: Seq<u8>)
    ensures
        html_unescaped(escape_html(s)) == s,
    decreases s.len(),
{
    if s.len() > 0 {
        let a = s[0];
        let rest = s.skip(1);
        assert(s == seq![a] + rest);
        lemma_escape_html_prepend(a, rest);
        let e = escape_html(rest);
        let w = html_escaped(a) + e;
        assert(escape_html(s) == w);
        unescaping_escaped_html_gives_the_text_back(rest);
        let k = html_escaped(a).len() as int;
        assert(w.take(k) == html_escaped(a));
        assert(w.skip(k) == e);
        if a == 0x3c {
            assert(starts_with(w, html_lt()));
        } else if a == 0x3e {
            assert(w[1] == 0x67u8);
            assert(!starts_with(w, html_lt()));
            assert(starts_with(w, html_gt()));
        } else if a == 0x26 {
            assert(w[1] == 0x61u8);
            assert(!starts_with(w, html_lt()));
            assert(!starts_with(w, html_gt()));
            assert(starts_with(w, html_amp()));
        } else {
            assert(w[0] == a);
            assert(!starts_with(w, html_lt()));
            assert(!starts_with(w, html_gt()));
            assert(!starts_with(w, html_amp()));
        }
    }
}

// ---------------------------------------------------------------------------
// The board's records
// ---------------------------------------------------------------------------

/// How a member is looked up.
pub enum ConditionUserFind {
    ByEMail(String),
    ByNickname(String),
}

/// Why a change to the store was refused.
pub enum ModelError {
    CollapseInsertData(String),
    IncorrectThread,
    IncorrectUser,
}

/// A comment in a thread.
pub struct Comment {
    uid: u32,
    user: User,
    write_datetime: NaiveDateTime,
    content: String,
}

impl Comment {
    pub closed spec fn spec_uid(&self) -> u32 {
        self.uid
    }

    pub closed spec fn spec_user(&self) -> UserView {
        self.user@
    }

    pub closed spec fn spec_write_datetime(&self) -> NaiveDateTime {
        self.write_datetime
    }

    pub closed spec fn spec_content(&self) -> Seq<char> {
        self.content@
    }

    pub fn new(uid: u32, user: User, write_datetime: NaiveDateTime, content: String) -> (c: Comment)
        ensures
            c.spec_uid() == uid,
            c.spec_user() == user@,
            c.spec_write_datetime() == write_datetime,
            c.spec_content() == content@,
    {
        Comment { uid: uid, user: user, write_datetime: write_datetime, content: content }
    }

    pub fn get_uid(&self) -> (r: u32)
        ensures
            r == self.spec_uid(),
    {
        self.uid
    }

    pub fn get_user(&self) -> (r: &User)
        ensures
            r@ == self.spec_user(),
    {
        &self.user
    }

    pub fn get_writed_datetime(&self) -> (r: &NaiveDateTime)
        ensures
            *r == self.spec_write_datetime(),
    {
        &self.write_datetime
    }

    pub fn get_content(&self) -> (r: &String)
        ensures
            r@ == self.spec_content(),
    {
        &self.content
    }
}

/// A thread of the board.
pub struct Thread {
    uid: i32,
    subject: String,
    opener: User,
    recent_update_datetime: NaiveDateTime,
    open_datetime: NaiveDateTime,
}

impl Thread {
    pub closed spec fn spec_uid(&self) -> i32 {
        self.uid
    }

    pub closed spec fn spec_subject(&self) -> Seq<char> {
        self.subject@
    }

    pub closed spec fn spec_opener(&self) -> UserView {
        self.opener@
    }

    pub closed spec fn spec_recent_update_datetime(&self) -> NaiveDateTime {
        self.recent_update_datetime
    }

    pub closed spec fn spec_open_datetime(&self) -> NaiveDateTime {
        self.open_datetime
    }

    pub fn new(
        uid: i32,
        subject: String,
        recent_update_datetime: NaiveDateTime,
        open_datetime: NaiveDateTime,
        opener: User,
    ) -> (t: Thread)
        ensures
            t.spec_uid() == uid,
            t.spec_subject() == subject@,
            t.spec_recent_update_datetime() == recent_update_datetime,
            t.spec_open_datetime() == open_datetime,
            t.spec_opener() == opener@,
    {
        Thread {
            uid: uid,
            subject: subject,
            recent_update_datetime: recent_update_datetime,
            opener: opener,
            open_datetime: open_datetime,
        }
    }

    pub fn get_subject(&self) -> (r: &str)
        ensures
            r@ == self.spec_subject(),
    {
        self.subject.as_str()
    }

    pub fn get_uid(&self) -> (r: i32)
        ensures
            r == self.spec_uid(),
    {
        self.uid
    }

    pub fn get_opener(&self) -> (r: &User)
        ensures
            r@ == self.spec_opener(),
    {
        &self.opener
    }

    pub fn get_recent_update_datetime(&self) -> (r: &NaiveDateTime)
        ensures
            *r == self.spec_recent_update_datetime(),
    {
        &self.recent_update_datetime
    }

    pub fn get_open_datetime(&self) -> (r: &NaiveDateTime)
        ensures
            *r == self.spec_open_datetime(),
    {
        &self.open_datetime
    }
}

/// A tag, with the number of threads that carry it where that is known.
pub struct Tag {
    name: String,
    thread_count: Option<usize>,
}

impl Tag {
    pub closed spec fn spec_name(&self) -> Seq<char> {
        self.name@
    }

    pub closed spec fn spec_thread_count(&self) -> Option<usize> {
        self.thread_count
    }

    pub fn new(name: String) -> (t: Tag)
        ensures
            t.spec_name() == name@,
            t.spec_thread_count() is None,
    {
        Tag { name: name, thread_count: None }
    }

    pub fn with_thread_count(self, count: usize) -> (t: Self)
        ensures
            t.spec_name() == self.spec_name(),
            t.spec_thread_count() == Some(count),
    {
        let mut s = self;
        s.thread_count = Some(count);
        s
    }

    pub fn get_name(&self) -> (r: &String)
        ensures
            r@ == self.spec_name(),
    {
        &self.name
    }

    /// The number of threads that carry the tag, where it is known.
    pub fn known_thread_count(&self) -> (r: Option<usize>)
        ensures
            r == self.spec_thread_count(),
    {
        self.thread_count
    }

    /// The number of threads that carry the tag; 0 where it is not known.
    pub fn get_thread_count(&self) -> (r: usize)
        ensures
            r == match self.spec_thread_count() {
                Some(v) => v,
                None => 0,
            },
    {
        if let Some(v) = self.thread_count {
            return v;
        }
        0
    }
}

} // verus!
