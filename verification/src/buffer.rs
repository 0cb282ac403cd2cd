//! A writer that gathers bytes in a fixed block and passes them on block by block.

use vstd::prelude::*;
use vstd::slice::slice_subrange;

verus! {

/// Appends `src[from..to]` to `dst`.
pub fn append_range(dst: &mut Vec<u8>, src: &[u8], from: usize, to: usize)
    requires
        from <= to <= src@.len(),
    ensures
        final(dst)@ == old(dst)@ + src@.subrange(from as int, to as int),
{
    let mut i: usize = from;
    while i < to
        invariant
            from <= i <= to <= src@.len(),
            dst@ == old(dst)@ + src@.subrange(from as int, i as int),
        decreases to - i,
    {
        dst.push(src[i]);
        i = i + 1;
    }
}

/// Copies `src[from..from + count]` over `dst[at..at + count]` and leaves the rest of `dst`.
pub fn copy_range(dst: &mut Vec<u8>, at: usize, src: &[u8], from: usize, count: usize)
    requires
        at + count <= old(dst)@.len(),
        from + count <= src@.len(),
    ensures
        final(dst)@ == old(dst)@.take(at as int) + src@.subrange(from as int, from + count)
            + old(dst)@.skip(at + count),
{
    let dst_len = dst.len();
    let src_len = src.len();
    let mut i: usize = 0;
    while i < count
        invariant
            i <= count,
            at + count <= old(dst)@.len(),
            from + count <= src@.len(),
            dst@.len() == dst_len,
            src@.len() == src_len,
            dst@ == old(dst)@.take(at as int) + src@.subrange(from as int, from + i) + old(
                dst,
            )@.skip(at + i),
        decreases count - i,
    {
        dst.set(at + i, src[from + i]);
        i = i + 1;
    }
}

/// A buffered writer over an in-memory sink. Bytes written to it gather in a
/// block of fixed size; each time the block is full it is passed on to the
/// sink, and `flush` passes on what has gathered since.
pub struct BufWriter {
    buf: Vec<u8>,
    n: usize,
    w: Vec<u8>,
}

impl BufWriter {
    /// The size of the block.
    pub closed spec fn capacity(&self) -> nat {
        self.buf@.len()
    }

    /// The bytes that have gathered in the block and are not passed on yet.
    pub closed spec fn pending(&self) -> Seq<u8> {
        self.buf@.take(self.n as int)
    }

    /// The bytes passed on to the sink so far.
    pub closed spec fn written(&self) -> Seq<u8> {
        self.w@
    }

    /// The block is not empty and never stays full.
    pub closed spec fn wf(&self) -> bool {
        self.n < self.buf@.len()
    }

    /// Makes a writer over the sink `w` that gathers bytes in `buf`.
    pub fn new(w: Vec<u8>, buf: Vec<u8>) -> (out: BufWriter)
        requires
            buf@.len() > 0,
        ensures
            out.wf(),
            out.capacity() == buf@.len(),
            out.written() == w@,
            out.pending() == Seq::<u8>::empty(),
    {
        let out = BufWriter { buf, n: 0, w };
        out
    }

    /// Takes all of `data`, passing a block on to the sink each time one is
    /// full, and returns the number of bytes taken.
    pub fn write(&mut self, data: &[u8]) -> (taken: usize)
        requires
            old(self).wf(),
        ensures
            final(self).wf(),
            taken == data@.len(),
            final(self).capacity() == old(self).capacity(),
            final(self).written() + final(self).pending() == old(self).written() + old(
                self,
            ).pending() + data@,
            final(self).pending().len() == (old(self).pending().len() + data@.len()) as int % (
            old(self).capacity() as int),
    {
        let mut p: usize = 0;
        let ghost cap = self.buf@.len() as int;
        proof {
            vstd::arithmetic::div_mod::lemma_small_mod(self.n as nat, cap as nat);
        }
        while p < data.len()
            invariant
                p <= data@.len(),
                cap == self.buf@.len(),
                cap == old(self).buf@.len(),
                self.n < cap,
                old(self).n < cap,
                self.w@ + self.buf@.take(self.n as int) == old(self).w@ + old(self).buf@.take(
                    old(self).n as int,
                ) + data@.take(p as int),
                self.n as int == (old(self).n + p) % cap,
            decreases data@.len() - p,
        {
            let space = self.buf.len() - self.n;
            let left = data.len() - p;
            let count = if space > left {
                left
            } else {
                space
            };
            let ghost before = self.buf@;
            let ghost n0 = self.n;
            copy_range(&mut self.buf, self.n, data, p, count);
            self.n = self.n + count;
            proof {
                assert(self.w@ + self.buf@.take(self.n as int) =~= (self.w@ + before.take(
                    n0 as int,
                )) + data@.subrange(p as int, p + count));
                lemma_mod_step((old(self).n + p) as int, count as int, cap);
            }
            p = p + count;
            if self.buf.len() == self.n {
                self.drain();
            }
        }
        p
    }

    /// Passes the pending bytes on to the sink.
    pub fn flush(&mut self)
        requires
            old(self).wf(),
        ensures
            final(self).wf(),
            final(self).capacity() == old(self).capacity(),
            final(self).written() == old(self).written() + old(self).pending(),
            final(self).pending() == Seq::<u8>::empty(),
    {
        self.drain();
    }

    /// Moves the first `n` bytes of the block to the sink, also where the block is full.
    fn drain(&mut self)
        requires
            old(self).n <= old(self).buf@.len(),
            old(self).buf@.len() > 0,
        ensures
            final(self).n == 0,
            final(self).buf@ == old(self).buf@,
            final(self).w@ == old(self).w@ + old(self).buf@.take(old(self).n as int),
    {
        let count = self.n;
        self.n = 0;
        append_range(&mut self.w, self.buf.as_slice(), 0, count);
    }

    /// Passes the pending bytes on and gives back the sink and the block.
    pub fn finish(self) -> (out: (Vec<u8>, Vec<u8>))
        requires
            self.wf(),
        ensures
            out.0@ == self.written() + self.pending(),
            out.1@.len() == self.capacity(),
    {
        let mut this = self;
        this.drain();
        (this.w, this.buf)
    }
}

/// If `a` is the remainder of `x` by `m` and adding `count` does not pass
/// `m`, the remainder of `x + count` is `a + count`, or zero where that is `m`.
proof fn lemma_mod_step(x: int, count: int, m: int)
    requires
        m > 0,
        x >= 0,
        count >= 0,
        x % m + count <= m,
    ensures
        (x + count) % m == if x % m + count == m {
            0
        } else {
            x % m + count
        },
{
    vstd::arithmetic::div_mod::lemma_fundamental_div_mod(x, m);
    vstd::arithmetic::div_mod::lemma_mod_pos_bound(x, m);
    let q = x / m;
    let r = x % m;
    assert(x == q * m + r) by (nonlinear_arith)
        requires
            x == m * q + r,
    ;
    if r + count == m {
        assert(x + count == (q + 1) * m + 0) by (nonlinear_arith)
            requires
                x == q * m + r,
                r + count == m,
        ;
        vstd::arithmetic::div_mod::lemma_fundamental_div_mod_converse(x + count, m, q + 1, 0);
    } else {
        vstd::arithmetic::div_mod::lemma_fundamental_div_mod_converse(x + count, m, q, r + count);
    }
}

} // verus!
