//! A growable byte buffer with a read/write cursor: relative peek, relative
//! patch, append, and sequential reads.

use vstd::prelude::*;

verus! {

pub struct ByteStream {
    data: Vec<u8>,
    pos: usize,
}

impl View for ByteStream {
    type V = Seq<u8>;

    closed spec fn view(&self) -> Seq<u8> {
        self.data@
    }
}

impl ByteStream {
    /// Cursor position, as a spec-level value.
    pub closed spec fn spec_pos(&self) -> int {
        self.pos as int
    }

    /// The cursor never runs past the end of the buffer.
    pub open spec fn wf(&self) -> bool {
        0 <= self.spec_pos() <= self@.len()
    }

    pub fn new(bytes: Vec<u8>) -> (r: Self)
        ensures
            r@ == bytes@,
            r.spec_pos() == 0,
            r.wf(),
    {
        ByteStream { data: bytes, pos: 0 }
    }

    /// Return the number of bytes still available for reading
    pub fn available(&self) -> (n: usize)
        requires
            self.wf(),
        ensures
            n == self@.len() - self.spec_pos(),
    {
        self.data.len() - self.pos
    }

    /// Return the total number of bytes in the stream
    pub fn len(&self) -> (n: usize)
        ensures
            n == self@.len(),
    {
        self.data.len()
    }

    pub fn get_pos(&self) -> (p: usize)
        ensures
            p == self.spec_pos(),
    {
        self.pos
    }

    pub fn last(&self) -> (r: Option<&u8>)
        ensures
            match r {
                Some(b) => self@.len() > 0 && *b == self@.last(),
                None => self@.len() == 0,
            },
    {
        if self.data.len() > 0 {
            Some(&self.data[self.data.len() - 1])
        } else {
            None
        }
    }

    /// Return the next available byte without updating the position
    pub fn peek(&self) -> (b: u8)
        requires
            self.wf(),
            self.spec_pos() < self@.len(),
        ensures
            b == self@[self.spec_pos()],
    {
        self.data[self.pos]
    }

    /// Read the little-endian u32 at `pos_offset` relative to the cursor.
    pub fn peek_u32_at(&self, pos_offset: usize) -> (v: u32)
        requires
            self.wf(),
            self.spec_pos() + pos_offset + 4 <= self@.len(),
        ensures
            v == le32_at(self@, self.spec_pos() + pos_offset),
    {
        let n = self.data.len();
        (self.data[self.pos + pos_offset] as u32) | (self.data[self.pos + pos_offset + 1] as u32)
            << 8 | (self.data[self.pos + pos_offset + 2] as u32) << 16 | (self.data[self.pos
            + pos_offset + 3] as u32) << 24
    }

    /// Replace the byte at `pos_offset` with `val`. The offset is relative to the current position.
    pub fn replace_at(&mut self, pos_offset: usize, val: u8)
        requires
            old(self).wf(),
            old(self).spec_pos() + pos_offset < old(self)@.len(),
        ensures
            final(self)@ == old(self)@.update(old(self).spec_pos() + pos_offset, val),
            final(self).spec_pos() == old(self).spec_pos(),
            final(self).wf(),
    {
        let n = self.data.len();
        self.data.set(self.pos + pos_offset, val);
    }

    /// Replace the u32 at `pos_offset` with `val` (little-endian). The offset is
    /// relative to the current position.
    pub fn replace_u32_at(&mut self, pos_offset: usize, val: u32)
        requires
            old(self).wf(),
            old(self).spec_pos() + pos_offset + 4 <= old(self)@.len(),
        ensures
            final(self)@ == store_le32(old(self)@, old(self).spec_pos() + pos_offset, val),
            final(self).spec_pos() == old(self).spec_pos(),
            final(self).wf(),
    {
        let n = self.data.len();
        self.data.set(self.pos + pos_offset, (val & 0xFF) as u8);
        self.data.set(self.pos + pos_offset + 1, ((val >> 8) & 0xFF) as u8);
        self.data.set(self.pos + pos_offset + 2, ((val >> 16) & 0xFF) as u8);
        self.data.set(self.pos + pos_offset + 3, ((val >> 24) & 0xFF) as u8);
        proof {
            assert(self@ =~= store_le32(old(self)@, old(self).spec_pos() + pos_offset, val));
        }
    }

    /// Reset the position
    pub fn reset(&mut self)
        ensures
            final(self)@ == old(self)@,
            final(self).spec_pos() == 0,
            final(self).wf(),
    {
        self.pos = 0;
    }

    /// Return the next available byte and increment the position
    pub fn read(&mut self) -> (b: u8)
        requires
            old(self).wf(),
            old(self).spec_pos() < old(self)@.len(),
        ensures
            b == old(self)@[old(self).spec_pos()],
            final(self)@ == old(self)@,
            final(self).spec_pos() == old(self).spec_pos() + 1,
            final(self).wf(),
    {
        let n = self.data.len();
        let b = self.data[self.pos];
        self.pos = self.pos + 1;
        b
    }

    /// Return the next `n` available bytes and increment the position
    pub fn read_n(&mut self, n: usize) -> (v: Vec<u8>)
        requires
            old(self).wf(),
            old(self).spec_pos() + n <= old(self)@.len(),
        ensures
            v@ == old(self)@.subrange(old(self).spec_pos(), old(self).spec_pos() + n),
            final(self)@ == old(self)@,
            final(self).spec_pos() == old(self).spec_pos() + n,
            final(self).wf(),
    {
        let total = self.data.len();
        let mut v: Vec<u8> = Vec::new();
        let mut i: usize = 0;
        while i < n
            invariant
                self == old(self),
                self.wf(),
                i <= n,
                self.spec_pos() + n <= self@.len(),
                v@ == self@.subrange(self.spec_pos(), self.spec_pos() + i),
            decreases n - i,
        {
            let total = self.data.len();
            v.push(self.data[self.pos + i]);
            i = i + 1;
            proof {
                assert(v@ =~= self@.subrange(self.spec_pos(), self.spec_pos() + i));
            }
        }
        self.pos = self.pos + n;
        v
    }

    /// Return a Vec with all available bytes
    pub fn read_available(&mut self) -> (v: Vec<u8>)
        requires
            old(self).wf(),
        ensures
            v@ == old(self)@.subrange(old(self).spec_pos(), old(self)@.len() as int),
            final(self)@ == old(self)@,
            final(self).spec_pos() == final(self)@.len(),
            final(self).wf(),
    {
        let n = self.data.len() - self.pos;
        self.read_n(n)
    }

    pub fn borrow_n(&mut self, n: usize) -> (r: &[u8])
        requires
            old(self).wf(),
            old(self).spec_pos() + n <= old(self)@.len(),
        ensures
            r@ == old(self)@.subrange(old(self).spec_pos(), old(self).spec_pos() + n),
            final(self)@ == old(self)@,
            final(self).spec_pos() == old(self).spec_pos() + n,
            final(self).wf(),
    {
        let total = self.data.len();
        let start = self.pos;
        self.pos = self.pos + n;
        vstd::slice::slice_subrange(self.data.as_slice(), start, start + n)
    }

    pub fn skip(&mut self, n: usize)
        requires
            old(self).wf(),
            old(self).spec_pos() + n <= old(self)@.len(),
        ensures
            final(self)@ == old(self)@,
            final(self).spec_pos() == old(self).spec_pos() + n,
            final(self).wf(),
    {
        let total = self.data.len();
        self.pos = self.pos + n;
    }

    /// Hand back the underlying bytes.
    pub fn into_vec(self) -> (v: Vec<u8>)
        ensures
            v@ == self@,
    {
        self.data
    }

    /// Place `val` at *the end* of the stream
    pub fn write(&mut self, val: u8)
        ensures
            final(self)@ == old(self)@.push(val),
            final(self).spec_pos() == old(self).spec_pos(),
            old(self).wf() ==> final(self).wf(),
    {
        self.data.push(val);
    }

    /// Place the values in `s` at *the end* of the stream
    pub fn write_n(&mut self, s: &[u8])
        ensures
            final(self)@ == old(self)@ + s@,
            final(self).spec_pos() == old(self).spec_pos(),
            old(self).wf() ==> final(self).wf(),
    {
        let mut i: usize = 0;
        while i < s.len()
            invariant
                i <= s@.len(),
                self@ == old(self)@ + s@.subrange(0, i as int),
                self.spec_pos() == old(self).spec_pos(),
            decreases s@.len() - i,
        {
            let b = s[i];
            self.data.push(b);
            i = i + 1;
            proof {
                assert(self@ =~= old(self)@ + s@.subrange(0, i as int));
            }
        }
        proof {
            assert(self@ =~= old(self)@ + s@);
        }
    }
}

/// The little-endian 32-bit value stored at `i` in `s`.
pub open spec fn le32_at(s: Seq<u8>, i: int) -> u32 {
    (s[i] as u32) | (s[i + 1] as u32) << 8 | (s[i + 2] as u32) << 16 | (s[i + 3] as u32) << 24
}

/// `s` with the four bytes at `i` replaced by `v`, little-endian.
pub open spec fn store_le32(s: Seq<u8>, i: int, v: u32) -> Seq<u8> {
    s.update(i, (v & 0xFF) as u8).update(i + 1, ((v >> 8) & 0xFF) as u8).update(
        i + 2,
        ((v >> 16) & 0xFF) as u8,
    ).update(i + 3, ((v >> 24) & 0xFF) as u8)
}

/// Writing a u32 little-endian and reading it back yields the same value.
pub proof fn lemma_store_le32_roundtrip(s: Seq<u8>, i: int, v: u32)
    requires
        0 <= i,
        i + 4 <= s.len(),
    ensures
        le32_at(store_le32(s, i, v), i) == v,
{
    assert(((v & 0xFF) as u8 as u32) | (((v >> 8) & 0xFF) as u8 as u32) << 8 | (((v >> 16)
        & 0xFF) as u8 as u32) << 16 | (((v >> 24) & 0xFF) as u8 as u32) << 24 == v)
        by (bit_vector);
}

} // verus!
