//! Text written into a page as it stands, without escaping.
use vstd::prelude::*;

verus! {

/// Displayed text to be written into a page unescaped.
pub struct Raw {
    obj: String,
}

impl Raw {
    /// The displayed text.
    pub closed spec fn text(&self) -> Seq<char> {
        self.obj@
    }

    /// Appends the UTF-8 bytes of the displayed text, unchanged; writing to
    /// memory cannot fail.
    pub fn to_html(&self, out: &mut Vec<u8>) -> (r: Result<(), std::io::Error>)
        ensures
            r is Ok,
            final(out)@ == old(out)@ + vstd::utf8::encode_utf8(self.text()),
    {
        crate::markdown::push_lit(out, self.obj.as_str().as_bytes());
        Ok(())
    }
}

/// Wraps the displayed text of a value to be written unescaped.
pub fn raw(obj: &str) -> (r: Raw)
    ensures
        r.text() == obj@,
{
    Raw { obj: obj.to_owned() }
}

} // verus!
