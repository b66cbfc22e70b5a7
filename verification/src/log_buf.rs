//! An in-memory byte buffer that captures log output while the terminal
//! is in use, so it can be inspected after the screen is restored.

use vstd::prelude::*;

verus! {

/// A growable byte buffer for captured log output.
pub struct Log {
    pub data: Vec<u8>,
}

impl Log {
    /// An empty buffer.
    pub fn new() -> (r: Log)
        ensures
            r.data@ == Seq::<u8>::empty(),
    {
        Log { data: Vec::new() }
    }

    /// Append bytes at the end of the buffer, returning how many were
    /// taken (all of them).
    pub fn write(&mut self, bytes: &[u8]) -> (n: usize)
        ensures
            final(self).data@ == old(self).data@ + bytes@,
            n == bytes@.len(),
    {
        let mut i: usize = 0;
        let len = bytes.len();
        while i < len
            invariant
                i <= len,
                len == bytes@.len(),
                self.data@ == old(self).data@ + bytes@.take(i as int),
            decreases len - i,
        {
            let b = bytes[i];
            self.data.push(b);
            proof {
                assert(old(self).data@ + bytes@.take(i + 1 as int) =~= (old(self).data@
                    + bytes@.take(i as int)).push(bytes@[i as int]));
            }
            i += 1;
        }
        proof {
            assert(bytes@.take(len as int) =~= bytes@);
        }
        len
    }

    /// Look at the captured bytes.
    pub fn inspect(&self) -> (r: &Vec<u8>)
        ensures
            r@ == self.data@,
    {
        &self.data
    }
}

} // verus!
