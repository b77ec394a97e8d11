//! The byte source that hands an asynchronous call's out-of-band binary
//! payload to the host in reader fashion: each read takes the next bytes of
//! the payload, as many as the destination has room for.

use vstd::prelude::*;

verus! {

/// A reader over one binary payload buffer shared out of the sandbox.
pub struct ReadableByteCellSlice {
    bytes: Vec<u8>,
    pos: usize,
}

impl ReadableByteCellSlice {
    /// The bytes not yet consumed.
    pub closed spec fn remaining(self) -> Seq<u8> {
        self.bytes@.skip(self.pos as int)
    }

    /// The read position never passes the end of the payload.
    pub closed spec fn wf(self) -> bool {
        self.pos <= self.bytes@.len()
    }

    /// A reader positioned at the start of the payload.
    pub fn new(inner: Vec<u8>) -> (r: Self)
        ensures
            r.wf(),
            r.remaining() == inner@,
    {
        ReadableByteCellSlice { bytes: inner, pos: 0 }
    }

    /// Fills the front of `buf` with the next remaining bytes - as many as
    /// fit, all of them if `buf` is large enough - consumes them, and
    /// returns how many were written. The rest of `buf` is untouched.
    pub fn read(&mut self, buf: &mut Vec<u8>) -> (n: usize)
        requires
            old(self).wf(),
        ensures
            final(self).wf(),
            n == vstd::math::min(old(buf)@.len() as int, old(self).remaining().len() as int),
            final(buf)@.len() == old(buf)@.len(),
            final(buf)@ == old(self).remaining().take(n as int) + old(buf)@.skip(n as int),
            final(self).remaining() == old(self).remaining().skip(n as int),
    {
        let avail: usize = self.bytes.len() - self.pos;
        let n: usize = if buf.len() < avail {
            buf.len()
        } else {
            avail
        };
        let mut i: usize = 0;
        while i < n
            invariant
                *self == *old(self),
                self.pos + n <= self.bytes@.len(),
                self.pos + n <= usize::MAX,
                i <= n,
                n <= buf@.len(),
                buf@.len() == old(buf)@.len(),
                forall|j: int| 0 <= j < i ==> buf@[j] == self.bytes@[self.pos + j],
                forall|j: int| i <= j < buf@.len() ==> buf@[j] == old(buf)@[j],
            decreases n - i,
        {
            let b: u8 = self.bytes[self.pos + i];
            buf[i] = b;
            i = i + 1;
        }
        self.pos = self.pos + n;
        proof {
            assert(buf@ =~= old(self).remaining().take(n as int) + old(buf)@.skip(n as int));
            assert(self.remaining() =~= old(self).remaining().skip(n as int));
        }
        n
    }
}

} // verus!
