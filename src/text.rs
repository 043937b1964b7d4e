//! Short byte strings held inline, with no allocation.
use vstd::prelude::*;

verus! {

/// The most bytes a `Text` holds: enough for `:<line>:<column>\n` with two
/// ten-digit numbers.
pub const TEXT_CAPACITY: usize = 23;

/// A byte string of at most `TEXT_CAPACITY` bytes, held in a fixed buffer.
pub struct Text {
    bytes: [u8; 23],
    len: usize,
}

impl View for Text {
    type V = Seq<u8>;

    closed spec fn view(&self) -> Seq<u8> {
        self.bytes@.subrange(0, self.len as int)
    }
}

impl Text {
    /// The length stays within the buffer.
    pub closed spec fn wf(&self) -> bool {
        self.len <= TEXT_CAPACITY
    }

    /// The empty text.
    pub fn empty() -> (r: Text)
        ensures
            r.wf(),
            r@ == Seq::<u8>::empty(),
    {
        Text { bytes: [0u8; 23], len: 0 }
    }

    /// Appends one byte.
    pub fn push(&mut self, b: u8)
        requires
            old(self).wf(),
            old(self)@.len() < TEXT_CAPACITY,
        ensures
            final(self).wf(),
            final(self)@ == old(self)@.push(b),
    {
        let i = self.len;
        self.bytes.set(i, b);
        self.len = i + 1;
        proof {
            assert(self@ =~= old(self)@.push(b));
        }
    }

    /// The bytes held.
    pub fn as_bytes(&self) -> (r: &[u8])
        requires
            self.wf(),
        ensures
            r@ == self@,
    {
        vstd::slice::slice_subrange(self.bytes.as_slice(), 0, self.len)
    }
}

} // verus!
