//! A growable byte sequence with independent read and write cursors: the
//! substrate every encode and decode operation works on.

use vstd::prelude::*;
use vstd::math::{min, max};

verus! {

/// The byte sequence that results from writing `b` into `data` at offset `w`:
/// the sequence is first zero-extended so that `b` fits, then overwritten.
pub open spec fn store_bytes(data: Seq<u8>, w: int, b: Seq<u8>) -> Seq<u8> {
    Seq::new(
        if w + b.len() > data.len() {
            (w + b.len()) as nat
        } else {
            data.len()
        },
        |i: int|
            if w <= i < w + b.len() {
                b[i - w]
            } else if 0 <= i < data.len() {
                data[i]
            } else {
                0u8
            },
    )
}

/// Two consecutive stores starting where the first one ended act as one store
/// of the concatenated bytes.
pub proof fn lemma_store_bytes_concat(data: Seq<u8>, w: int, b1: Seq<u8>, b2: Seq<u8>)
    requires
        0 <= w,
    ensures
        store_bytes(store_bytes(data, w, b1), w + b1.len(), b2) == store_bytes(data, w, b1 + b2),
{
    assert(store_bytes(store_bytes(data, w, b1), w + b1.len(), b2) =~= store_bytes(
        data,
        w,
        b1 + b2,
    ));
}

/// Storing at the end of the sequence appends.
pub proof fn lemma_store_bytes_append(data: Seq<u8>, b: Seq<u8>)
    ensures
        store_bytes(data, data.len() as int, b) == data + b,
{
    assert(store_bytes(data, data.len() as int, b) =~= data + b);
}

/// A growable byte sequence plus two independent cursor offsets. Writing past
/// the current length zero-extends the sequence first; reading never goes past
/// the end.
pub struct Buffer {
    pub data: Vec<u8>,
    pub read_pos: usize,
    pub write_pos: usize,
}

impl Buffer {
    /// The read cursor never points past the end of the data.
    pub open spec fn wf(&self) -> bool {
        self.read_pos <= self.data@.len()
    }

    /// The bytes not yet consumed by the read cursor.
    pub open spec fn rest(&self) -> Seq<u8> {
        self.data@.skip(self.read_pos as int)
    }

    /// Creates an empty buffer with both cursors at zero.
    pub fn new() -> (r: Buffer)
        ensures
            r.data@ == Seq::<u8>::empty(),
            r.read_pos == 0,
            r.write_pos == 0,
            r.wf(),
    {
        Buffer { data: Vec::new(), read_pos: 0, write_pos: 0 }
    }

    /// Returns the underlying byte sequence.
    pub fn get_data(&self) -> (r: &Vec<u8>)
        ensures
            r@ == self.data@,
    {
        &self.data
    }

    /// Returns the current length of the underlying byte sequence.
    pub fn len(&self) -> (r: usize)
        ensures
            r == self.data@.len(),
    {
        self.data.len()
    }

    /// Moves the read cursor to the given offset.
    pub fn set_read_pos(&mut self, r_pos: usize)
        ensures
            final(self).read_pos == r_pos,
            final(self).data@ == old(self).data@,
            final(self).write_pos == old(self).write_pos,
    {
        self.read_pos = r_pos;
    }

    /// Returns the read cursor.
    pub fn get_read_pos(&self) -> (r: usize)
        ensures
            r == self.read_pos,
    {
        self.read_pos
    }

    /// Moves the write cursor to the given offset.
    pub fn set_write_pos(&mut self, w_pos: usize)
        ensures
            final(self).write_pos == w_pos,
            final(self).data@ == old(self).data@,
            final(self).read_pos == old(self).read_pos,
    {
        self.write_pos = w_pos;
    }

    /// Returns the write cursor.
    pub fn get_write_pos(&self) -> (r: usize)
        ensures
            r == self.write_pos,
    {
        self.write_pos
    }

    /// Removes the first `pos` bytes (clamped to the current length) and
    /// shifts both cursors left by `min(cursor, pos)`, preserving each
    /// cursor's position relative to the bytes that remain.
    #[verifier::loop_isolation(false)]
    pub fn drain(&mut self, pos: usize)
        ensures
            final(self).data@ == old(self).data@.skip(min(old(self).data@.len() as int, pos as int)),
            final(self).read_pos == old(self).read_pos - min(old(self).read_pos as int, pos as int),
            final(self).write_pos == old(self).write_pos - min(old(self).write_pos as int, pos as int),
            old(self).wf() ==> final(self).wf(),
    {
        self.read_pos = self.read_pos - if self.read_pos < pos {
            self.read_pos
        } else {
            pos
        };
        self.write_pos = self.write_pos - if self.write_pos < pos {
            self.write_pos
        } else {
            pos
        };
        let k = if self.data.len() < pos {
            self.data.len()
        } else {
            pos
        };
        let mut kept: Vec<u8> = Vec::new();
        let mut i: usize = k;
        while i < self.data.len()
            invariant
                k <= i <= self.data@.len(),
                kept@ == self.data@.subrange(k as int, i as int),
            decreases self.data@.len() - i,
        {
            kept.push(self.data[i]);
            i = i + 1;
        }
        assert(kept@ == self.data@.skip(k as int));
        self.data = kept;
    }

    /// Like `drain`, but returns the removed prefix.
    #[verifier::loop_isolation(false)]
    pub fn drain_collect(&mut self, pos: usize) -> (r: Vec<u8>)
        ensures
            r@ == old(self).data@.take(min(old(self).data@.len() as int, pos as int)),
            final(self).data@ == old(self).data@.skip(min(old(self).data@.len() as int, pos as int)),
            final(self).read_pos == old(self).read_pos - min(old(self).read_pos as int, pos as int),
            final(self).write_pos == old(self).write_pos - min(old(self).write_pos as int, pos as int),
            old(self).wf() ==> final(self).wf(),
    {
        let k = if self.data.len() < pos {
            self.data.len()
        } else {
            pos
        };
        let mut removed: Vec<u8> = Vec::new();
        let mut i: usize = 0;
        while i < k
            invariant
                0 <= i <= k <= self.data@.len(),
                removed@ == self.data@.subrange(0, i as int),
            decreases k - i,
        {
            removed.push(self.data[i]);
            i = i + 1;
        }
        assert(removed@ == self.data@.take(k as int));
        self.drain(pos);
        removed
    }

    /// Resets the buffer to empty with both cursors at zero.
    pub fn clear(&mut self)
        ensures
            final(self).data@ == Seq::<u8>::empty(),
            final(self).read_pos == 0,
            final(self).write_pos == 0,
            final(self).wf(),
    {
        self.data.clear();
        self.read_pos = 0;
        self.write_pos = 0;
    }

    /// Copies up to `n` bytes starting at the read cursor into a fresh vector
    /// and advances the read cursor by the count actually copied. A short
    /// read is not an error: callers must check the returned length.
    #[verifier::loop_isolation(false)]
    pub fn read_bytes(&mut self, n: usize) -> (r: Vec<u8>)
        requires
            old(self).wf(),
        ensures
            r@.len() == min(n as int, old(self).rest().len() as int),
            r@ == old(self).rest().take(r@.len() as int),
            final(self).read_pos == old(self).read_pos + r@.len(),
            final(self).data@ == old(self).data@,
            final(self).write_pos == old(self).write_pos,
            final(self).wf(),
            final(self).rest() == old(self).rest().skip(r@.len() as int),
    {
        let left = self.data.len() - self.read_pos;
        let count = if left < n {
            left
        } else {
            n
        };
        let mut out: Vec<u8> = Vec::new();
        let mut i: usize = 0;
        while i < count
            invariant
                0 <= i <= count,
                self.read_pos + count <= self.data@.len(),
                out@ == self.data@.subrange(self.read_pos as int, self.read_pos + i),
            decreases count - i,
        {
            out.push(self.data[self.read_pos + i]);
            i = i + 1;
        }
        self.read_pos = self.read_pos + count;
        assert(out@ == old(self).rest().take(count as int));
        assert(self.rest() == old(self).rest().skip(count as int));
        out
    }

    /// Copies up to `buf.len()` bytes starting at the read cursor into the
    /// front of `buf`, returning the count actually copied (0 if no bytes
    /// remain or the request is empty). Never errors on a short read.
    #[verifier::loop_isolation(false)]
    pub fn read(&mut self, buf: &mut Vec<u8>) -> (n: usize)
        requires
            old(self).wf(),
        ensures
            n == min(old(buf)@.len() as int, old(self).rest().len() as int),
            final(buf)@.len() == old(buf)@.len(),
            final(buf)@.take(n as int) == old(self).rest().take(n as int),
            final(buf)@.skip(n as int) == old(buf)@.skip(n as int),
            final(self).read_pos == old(self).read_pos + n,
            final(self).data@ == old(self).data@,
            final(self).write_pos == old(self).write_pos,
            final(self).wf(),
    {
        let left = self.data.len() - self.read_pos;
        let count = if left < buf.len() {
            left
        } else {
            buf.len()
        };
        let mut i: usize = 0;
        while i < count
            invariant
                0 <= i <= count,
                self.read_pos + count <= self.data@.len(),
                count <= buf@.len(),
                buf@.len() == old(buf)@.len(),
                forall|j: int| 0 <= j < i ==> buf@[j] == self.data@[self.read_pos + j],
                forall|j: int| i <= j < buf@.len() ==> buf@[j] == old(buf)@[j],
            decreases count - i,
        {
            let b = self.data[self.read_pos + i];
            buf.set(i, b);
            i = i + 1;
        }
        self.read_pos = self.read_pos + count;
        assert(buf@.take(count as int) =~= old(self).rest().take(count as int));
        assert(buf@.skip(count as int) =~= old(buf)@.skip(count as int));
        count
    }

    /// Writes `buf` at the write cursor, zero-extending the data first if it
    /// is too short, and advances the write cursor by `buf.len()`. Always
    /// succeeds: no upper bound is enforced at this layer.
    #[verifier::loop_isolation(false)]
    pub fn write(&mut self, buf: &[u8]) -> (n: usize)
        requires
            old(self).write_pos + buf@.len() <= usize::MAX,
        ensures
            n == buf@.len(),
            final(self).data@ == store_bytes(old(self).data@, old(self).write_pos as int, buf@),
            final(self).write_pos == old(self).write_pos + buf@.len(),
            final(self).read_pos == old(self).read_pos,
            old(self).wf() ==> final(self).wf(),
    {
        let target = self.write_pos + buf.len();
        while self.data.len() < target
            invariant
                old(self).data@.len() <= self.data@.len() <= max(
                    target as int,
                    old(self).data@.len() as int,
                ),
                forall|j: int| 0 <= j < old(self).data@.len() ==> self.data@[j] == old(self).data@[j],
                forall|j: int|
                    old(self).data@.len() <= j < self.data@.len() ==> self.data@[j] == 0u8,
                self.read_pos == old(self).read_pos,
                self.write_pos == old(self).write_pos,
            decreases target - self.data@.len(),
        {
            self.data.push(0u8);
        }
        let mut i: usize = 0;
        while i < buf.len()
            invariant
                0 <= i <= buf@.len(),
                self.write_pos + buf@.len() <= self.data@.len(),
                self.data@.len() == max(target as int, old(self).data@.len() as int),
                target == self.write_pos + buf@.len(),
                forall|j: int| 0 <= j < old(self).data@.len() && !(self.write_pos <= j
                    < self.write_pos + i) ==> self.data@[j] == old(self).data@[j],
                forall|j: int|
                    old(self).data@.len() <= j < self.data@.len() && !(self.write_pos <= j
                        < self.write_pos + i) ==> self.data@[j] == 0u8,
                forall|j: int|
                    self.write_pos <= j < self.write_pos + i ==> self.data@[j] == buf@[j
                        - self.write_pos],
                self.read_pos == old(self).read_pos,
                self.write_pos == old(self).write_pos,
            decreases buf@.len() - i,
        {
            let w = self.write_pos + i;
            let b = buf[i];
            self.data.set(w, b);
            i = i + 1;
        }
        assert(self.data@ =~= store_bytes(old(self).data@, old(self).write_pos as int, buf@));
        self.write_pos = self.write_pos + buf.len();
        buf.len()
    }
}

} // verus!
