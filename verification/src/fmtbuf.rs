//! Formatting into a fixed byte buffer, used for device and thread names.

use vstd::prelude::*;

verus! {

/// Writer over a fixed-size byte buffer; output past the end is dropped.
pub struct SliceWriter {
    pub buf: Vec<u8>,
    pub off: usize,
}

impl SliceWriter {
    pub open spec fn wf(&self) -> bool {
        self.off <= self.buf@.len()
    }

    /// A writer over a buffer of `len` zero bytes.
    pub fn new(len: usize) -> (r: SliceWriter)
        ensures
            r.wf(),
            r.off == 0,
            r.buf@.len() == len,
            forall|i: int| 0 <= i < len ==> r.buf@[i] == 0,
    {
        let mut buf: Vec<u8> = Vec::new();
        let mut i: usize = 0;
        while i < len
            invariant
                i <= len,
                buf@.len() == i,
                forall|k: int| 0 <= k < i ==> buf@[k] == 0,
            decreases len - i,
        {
            buf.push(0);
            i += 1;
        }
        SliceWriter { buf, off: 0 }
    }

    /// Append the bytes of `s`, truncated to the space left.
    pub fn write_str(&mut self, s: &Vec<u8>)
        requires
            old(self).wf(),
        ensures
            final(self).wf(),
            final(self).buf@.len() == old(self).buf@.len(),
            final(self).off == old(self).off + (if s@.len() <= old(self).buf@.len() - old(
                self,
            ).off {
                s@.len() as int
            } else {
                old(self).buf@.len() - old(self).off
            }),
            forall|i: int|
                0 <= i < final(self).off - old(self).off ==> final(self).buf@[old(self).off + i]
                    == s@[i],
            forall|i: int|
                0 <= i < old(self).off ==> final(self).buf@[i] == old(self).buf@[i],
            forall|i: int|
                final(self).off <= i < final(self).buf@.len() ==> final(self).buf@[i] == old(
                    self,
                ).buf@[i],
    {
        let space = self.buf.len() - self.off;
        let n = if s.len() < space {
            s.len()
        } else {
            space
        };
        let mut i: usize = 0;
        while i < n
            invariant
                i <= n,
                self.off == old(self).off,
                n <= s@.len(),
                self.off + n <= self.buf@.len(),
                self.buf@.len() <= usize::MAX,
                self.buf@.len() == old(self).buf@.len(),
                forall|k: int| 0 <= k < i ==> self.buf@[old(self).off + k] == s@[k],
                forall|k: int| 0 <= k < self.off ==> self.buf@[k] == old(self).buf@[k],
                forall|k: int|
                    self.off + i <= k < self.buf@.len() ==> self.buf@[k] == old(self).buf@[k],
            decreases n - i,
        {
            let b = s[i];
            let j = self.off + i;
            self.buf.set(j, b);
            i += 1;
        }
        let o = self.off;
        self.off = o + n;
    }

    /// Append one character's low byte. Writing past the end is an internal
    /// error, excluded by precondition; this path does not truncate.
    pub fn write_char(&mut self, c: u8)
        requires
            old(self).wf(),
            old(self).off < old(self).buf@.len(),
        ensures
            final(self).wf(),
            final(self).buf@ == old(self).buf@.update(old(self).off as int, c),
            final(self).off == old(self).off + 1,
    {
        // the buffer's length pins the cursor sum below the usize bound
        let _n = self.buf.len();
        let o = self.off;
        self.buf.set(o, c);
        self.off = o + 1;
    }
}

} // verus!
