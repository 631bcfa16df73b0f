//! Line framing for the streaming relay.
//!
//! The relay forwards a newline-delimited byte stream: arriving chunks
//! collect in a [`LineBuffer`], complete lines leave from the front one
//! at a time, and whatever remains unterminated when the stream ends is
//! flushed as a final fragment. The tasks and the channel around this
//! live outside the library.

use vstd::prelude::*;

verus! {

/// The byte that ends a record.
pub const NEWLINE_BYTE: u8 = 10;

/// Index of the first record-ending byte in `s`, or -1.
pub open spec fn spec_first_newline(s: Seq<u8>) -> int
    decreases s.len(),
{
    if s.len() == 0 {
        -1
    } else if s[0] == NEWLINE_BYTE {
        0
    } else {
        let r = spec_first_newline(s.drop_first());
        if r == -1 {
            -1
        } else {
            r + 1
        }
    }
}

pub proof fn lemma_first_newline_props(s: Seq<u8>)
    ensures
        ({
            let r = spec_first_newline(s);
            &&& r == -1 ==> forall|j: int| 0 <= j < s.len() ==> s[j] != NEWLINE_BYTE
            &&& r != -1 ==> 0 <= r < s.len() && s[r] == NEWLINE_BYTE && forall|j: int|
                0 <= j < r ==> s[j] != NEWLINE_BYTE
        }),
    decreases s.len(),
{
    if s.len() > 0 && s[0] != NEWLINE_BYTE {
        lemma_first_newline_props(s.drop_first());
        let r = spec_first_newline(s.drop_first());
        if r == -1 {
            assert forall|j: int| 0 <= j < s.len() implies s[j] != NEWLINE_BYTE by {
                if j >= 1 {
                    assert(s.drop_first()[j - 1] == s[j]);
                }
            }
        } else {
            assert(s.drop_first()[r] == s[r + 1]);
            assert forall|j: int| 0 <= j < r + 1 implies s[j] != NEWLINE_BYTE by {
                if j >= 1 {
                    assert(s.drop_first()[j - 1] == s[j]);
                }
            }
        }
    }
}

/// Collects stream bytes and hands out complete newline-terminated
/// records from the front. Its view is the bytes it holds.
pub struct LineBuffer {
    buf: Vec<u8>,
}

impl View for LineBuffer {
    type V = Seq<u8>;

    closed spec fn view(&self) -> Seq<u8> {
        self.buf@
    }
}

impl LineBuffer {
    /// An empty buffer.
    pub fn new() -> (b: Self)
        ensures
            b@ == Seq::<u8>::empty(),
    {
        LineBuffer { buf: Vec::new() }
    }

    /// How many bytes wait in the buffer.
    pub fn len(&self) -> (n: usize)
        ensures
            n == self@.len(),
    {
        self.buf.len()
    }

    /// Appends an arriving chunk behind what already waits.
    pub fn push_chunk(&mut self, chunk: &[u8])
        ensures
            final(self)@ == old(self)@ + chunk@,
    {
        self.buf.extend_from_slice(chunk);
    }

    /// Takes the first complete record off the front, newline included;
    /// nothing leaves while no newline has arrived.
    pub fn next_line(&mut self) -> (r: Option<Vec<u8>>)
        ensures
            ({
                let i = spec_first_newline(old(self)@);
                &&& i == -1 ==> r is None && final(self)@ == old(self)@
                &&& i != -1 ==> {
                    &&& r matches Some(line) && line@ == old(self)@.subrange(0, i + 1)
                    &&& final(self)@ == old(self)@.subrange(i + 1, old(self)@.len() as int)
                }
            }),
    {
        let n = self.buf.len();
        let mut i: usize = 0;
        while i < n
            invariant
                i <= n,
                n == self.buf@.len(),
                self.buf@ == old(self)@,
                forall|j: int| 0 <= j < i ==> self.buf@[j] != NEWLINE_BYTE,
            decreases n - i,
        {
            if self.buf[i] == NEWLINE_BYTE {
                proof {
                    lemma_first_newline_props(self.buf@);
                }
                let mut tail = self.buf.split_off(i + 1);
                core::mem::swap(&mut self.buf, &mut tail);
                return Some(tail);
            }
            i += 1;
        }
        proof {
            lemma_first_newline_props(self.buf@);
        }
        None
    }

    /// Flushes whatever waits — the unterminated final fragment when the
    /// stream has ended — leaving the buffer empty.
    pub fn take_remainder(&mut self) -> (r: Vec<u8>)
        ensures
            r@ == old(self)@,
            final(self)@ == Seq::<u8>::empty(),
    {
        let mut out: Vec<u8> = Vec::new();
        core::mem::swap(&mut self.buf, &mut out);
        out
    }
}

} // verus!
