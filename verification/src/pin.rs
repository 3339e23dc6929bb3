//! The pin: the upstream commit identifier the patch stack is anchored to.
//!
//! The pin is persisted as a single line of text; the stored form may end
//! in a newline or other trailing whitespace, which is stripped when the
//! pin is read. All phases treat the pin as an opaque byte string.

use vstd::prelude::*;

verus! {

/// ASCII whitespace, as found at the end of a single-line pin file:
/// space, tab, line feed, vertical tab, form feed, carriage return.
pub open spec fn is_ws(b: u8) -> bool {
    b == 32 || b == 9 || b == 10 || b == 11 || b == 12 || b == 13
}

/// `s` with every trailing whitespace byte removed.
pub open spec fn trimmed_end(s: Seq<u8>) -> Seq<u8>
    decreases s.len(),
{
    if s.len() > 0 && is_ws(s[s.len() - 1]) {
        trimmed_end(s.drop_last())
    } else {
        s
    }
}

/// The upstream commit identifier the patch stack is based on, with
/// trailing whitespace already stripped. Read by every phase, written
/// only by a human editing the pin file between runs.
#[derive(Debug, PartialEq, Eq)]
pub struct Pin {
    id: Vec<u8>,
}

impl View for Pin {
    type V = Seq<u8>;

    closed spec fn view(&self) -> Seq<u8> {
        self.id@
    }
}

impl Pin {
    /// A well-formed pin carries no trailing whitespace.
    pub open spec fn wf(&self) -> bool {
        trimmed_end(self@) == self@
    }

    /// Build a pin from the raw bytes of the pin file, stripping
    /// trailing whitespace (the stored line usually ends in a newline).
    pub fn from_raw(raw: Vec<u8>) -> (p: Pin)
        ensures
            p@ == trimmed_end(raw@),
            p.wf(),
    {
        let mut v = raw;
        let ghost orig: Seq<u8> = v@;
        while v.len() > 0 && is_ws_byte(v[v.len() - 1])
            invariant
                trimmed_end(v@) == trimmed_end(orig),
            decreases v.len(),
        {
            v.pop();
        }
        Pin { id: v }
    }

    /// The pin's bytes, for handing to the external version-control tool.
    pub fn bytes(&self) -> (r: &Vec<u8>)
        ensures
            r@ == self@,
    {
        &self.id
    }

    /// Whether the pin file held nothing but whitespace.
    pub fn is_empty(&self) -> (r: bool)
        ensures
            r == (self@.len() == 0),
    {
        self.id.len() == 0
    }
}

/// Executable check for [`is_ws`].
pub fn is_ws_byte(b: u8) -> (r: bool)
    ensures
        r == is_ws(b),
{
    b == 32 || b == 9 || b == 10 || b == 11 || b == 12 || b == 13
}

} // verus!
