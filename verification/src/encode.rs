//! Bounded byte target: a fixed-size buffer that frame headers are written
//! into, and the big-endian byte splittings that encoding rests on.

use vstd::prelude::*;
use crate::decode::{be16_at, be32_at};

verus! {

/// How a write into the target can fail.
#[derive(Clone, Copy, Debug, PartialEq, Eq, Structural)]
pub enum Problem {
    /// The target ended this many bytes short of the request.
    OutOfSpace(usize),
}

pub type EncodeResult<T> = Result<T, Problem>;

/// What one spec-level write into the target yields: the new contents and
/// cursor position, or the failure (after which the cursor sits at the end).
pub enum Placed {
    Fit(Seq<u8>, int),
    NoRoom(Problem),
}

/// The two big-endian bytes of `v`.
pub open spec fn u16_be_bytes(v: u16) -> Seq<u8> {
    seq![(v >> 8) as u8, (v & 0xff) as u8]
}

/// The four big-endian bytes of `v`.
pub open spec fn u32_be_bytes(v: u32) -> Seq<u8> {
    seq![(v >> 24) as u8, ((v >> 16) & 0xff) as u8, ((v >> 8) & 0xff) as u8, (v & 0xff) as u8]
}

pub broadcast proof fn lemma_u16_be_round(v: u16)
    ensures
        be16_at(#[trigger] u16_be_bytes(v), 0) == v,
{
    let b0 = (v >> 8) as u8;
    let b1 = (v & 0xff) as u8;
    assert((b0 as u16) * 0x100 + (b1 as u16) == v) by (bit_vector)
        requires
            b0 == (v >> 8) as u8,
            b1 == (v & 0xff) as u8,
    ;
}

pub broadcast proof fn lemma_u32_be_round(v: u32)
    ensures
        be32_at(#[trigger] u32_be_bytes(v), 0) == v,
{
    let b0 = (v >> 24) as u8;
    let b1 = ((v >> 16) & 0xff) as u8;
    let b2 = ((v >> 8) & 0xff) as u8;
    let b3 = (v & 0xff) as u8;
    assert((b0 as u32) * 0x1000000 + (b1 as u32) * 0x10000 + (b2 as u32) * 0x100 + (b3 as u32)
        == v) by (bit_vector)
        requires
            b0 == (v >> 24) as u8,
            b1 == ((v >> 16) & 0xff) as u8,
            b2 == ((v >> 8) & 0xff) as u8,
            b3 == (v & 0xff) as u8,
    ;
}

/// Splitting the `u32` read at position `i` back into bytes gives back the
/// four bytes it was read from.
pub proof fn lemma_be32_bytes_id(s: Seq<u8>, i: int)
    requires
        0 <= i,
        i + 4 <= s.len(),
    ensures
        u32_be_bytes(be32_at(s, i)) == s.subrange(i, i + 4),
{
    let b0 = s[i];
    let b1 = s[i + 1];
    let b2 = s[i + 2];
    let b3 = s[i + 3];
    let v = be32_at(s, i);
    assert((v >> 24) as u8 == b0 && ((v >> 16) & 0xff) as u8 == b1 && ((v >> 8) & 0xff) as u8 == b2
        && (v & 0xff) as u8 == b3) by (bit_vector)
        requires
            v == (b0 as u32) * 0x1000000 + (b1 as u32) * 0x10000 + (b2 as u32) * 0x100
                + (b3 as u32),
    ;
    assert(u32_be_bytes(v) =~= s.subrange(i, i + 4));
}

/// Writing the bytes `d` at position `p` of a buffer holding `s`.
pub open spec fn sp_put(s: Seq<u8>, p: int, d: Seq<u8>) -> Placed {
    if p + d.len() <= s.len() {
        Placed::Fit(s.subrange(0, p) + d + s.subrange(p + d.len(), s.len() as int), p + d.len())
    } else {
        Placed::NoRoom(Problem::OutOfSpace((d.len() - (s.len() - p)) as usize))
    }
}

/// A cursor over an owned, fixed-size byte buffer.
pub struct BytesTarget {
    buf: Vec<u8>,
    pos: usize,
}

impl BytesTarget {
    /// The whole buffer, written or not.
    pub closed spec fn all(&self) -> Seq<u8> {
        self.buf@
    }

    /// The cursor: how many bytes have been written.
    pub closed spec fn at(&self) -> int {
        self.pos as int
    }

    pub open spec fn wf(&self) -> bool {
        0 <= self.at() <= self.all().len()
    }

    pub fn new(buf: Vec<u8>) -> (r: Self)
        ensures
            r.wf(),
            r.all() == buf@,
            r.at() == 0,
    {
        Self { buf, pos: 0 }
    }

    /// How many bytes of room are left.
    pub fn left(&self) -> (r: usize)
        requires
            self.wf(),
        ensures
            r == self.all().len() - self.at(),
    {
        self.buf.len() - self.pos
    }

    pub fn put_u8(&mut self, value: u8) -> (r: EncodeResult<()>)
        requires
            old(self).wf(),
        ensures
            final(self).wf(),
            final(self).all().len() == old(self).all().len(),
            match sp_put(old(self).all(), old(self).at(), seq![value]) {
                Placed::Fit(s, q) => r == EncodeResult::<()>::Ok(()) && final(self).all() == s
                    && final(self).at() == q,
                Placed::NoRoom(e) => r == EncodeResult::<()>::Err(e) && final(self).all()
                    == old(self).all() && final(self).at() == old(self).all().len(),
            },
    {
        if self.pos < self.buf.len() {
            self.buf.set(self.pos, value);
            self.pos = self.pos + 1;
            proof {
                assert(self.all() =~= old(self).all().subrange(0, old(self).at()) + seq![value]
                    + old(self).all().subrange(old(self).at() + 1, old(self).all().len() as int));
            }
            Ok(())
        } else {
            self.pos = self.buf.len();
            Err(Problem::OutOfSpace(1))
        }
    }

    pub fn put_u32(&mut self, value: u32) -> (r: EncodeResult<()>)
        requires
            old(self).wf(),
        ensures
            final(self).wf(),
            final(self).all().len() == old(self).all().len(),
            match sp_put(old(self).all(), old(self).at(), u32_be_bytes(value)) {
                Placed::Fit(s, q) => r == EncodeResult::<()>::Ok(()) && final(self).all() == s
                    && final(self).at() == q,
                Placed::NoRoom(e) => r == EncodeResult::<()>::Err(e) && final(self).all()
                    == old(self).all() && final(self).at() == old(self).all().len(),
            },
    {
        if 4 <= self.buf.len() - self.pos {
            let b0 = (value >> 24) as u8;
            let b1 = ((value >> 16) & 0xff) as u8;
            let b2 = ((value >> 8) & 0xff) as u8;
            let b3 = (value & 0xff) as u8;
            self.buf.set(self.pos, b0);
            self.buf.set(self.pos + 1, b1);
            self.buf.set(self.pos + 2, b2);
            self.buf.set(self.pos + 3, b3);
            self.pos = self.pos + 4;
            proof {
                assert(self.all() =~= old(self).all().subrange(0, old(self).at())
                    + u32_be_bytes(value)
                    + old(self).all().subrange(old(self).at() + 4, old(self).all().len() as int));
            }
            Ok(())
        } else {
            let left = self.buf.len() - self.pos;
            self.pos = self.buf.len();
            Err(Problem::OutOfSpace(4 - left))
        }
    }

    /// Hands the buffer back once the writes are done.
    pub fn into_vec(self) -> (r: Vec<u8>)
        ensures
            r@ == self.all(),
    {
        self.buf
    }
}


/// Appends one byte.
pub fn push_u8(out: &mut Vec<u8>, v: u8)
    ensures
        final(out)@ == old(out)@ + seq![v],
{
    out.push(v);
    proof {
        assert(out@ =~= old(out)@ + seq![v]);
    }
}

/// Appends the two big-endian bytes of `v`.
pub fn push_u16_be(out: &mut Vec<u8>, v: u16)
    ensures
        final(out)@ == old(out)@ + u16_be_bytes(v),
{
    out.push((v >> 8) as u8);
    out.push((v & 0xff) as u8);
    proof {
        assert(out@ =~= old(out)@ + u16_be_bytes(v));
    }
}

/// Appends the four big-endian bytes of `v`.
pub fn push_u32_be(out: &mut Vec<u8>, v: u32)
    ensures
        final(out)@ == old(out)@ + u32_be_bytes(v),
{
    out.push((v >> 24) as u8);
    out.push(((v >> 16) & 0xff) as u8);
    out.push(((v >> 8) & 0xff) as u8);
    out.push((v & 0xff) as u8);
    proof {
        assert(out@ =~= old(out)@ + u32_be_bytes(v));
    }
}

/// Appends every byte of `s`.
pub fn push_bytes(out: &mut Vec<u8>, s: &Vec<u8>)
    ensures
        final(out)@ == old(out)@ + s@,
{
    let n = s.len();
    let mut i: usize = 0;
    while i < n
        invariant
            i <= n,
            n == s@.len(),
            out@ == old(out)@ + s@.subrange(0, i as int),
        decreases n - i,
    {
        let b = s[i];
        out.push(b);
        i = i + 1;
        proof {
            assert(out@ =~= old(out)@ + s@.subrange(0, i as int));
        }
    }
    proof {
        assert(old(out)@ + s@.subrange(0, n as int) =~= old(out)@ + s@);
    }
}

/// Appends a null-terminated run: the bytes of `s`, then one null byte.
pub fn push_text(out: &mut Vec<u8>, s: &Vec<u8>)
    ensures
        final(out)@ == old(out)@ + s@ + seq![0u8],
{
    push_bytes(out, s);
    out.push(0);
    proof {
        assert(out@ =~= old(out)@ + s@ + seq![0u8]);
    }
}

/// No byte of `s` is null: the condition for a null-terminated run to carry
/// `s` through the wire unchanged.
pub open spec fn no_null(s: Seq<u8>) -> bool {
    forall|i: int| 0 <= i < s.len() ==> s[i] != 0
}


/// When the four bytes at `p` are the big-endian split of `v`, reading a
/// `u32` at `p` yields `v`.
pub proof fn lemma_u32_at_of(s: Seq<u8>, p: int, v: u32)
    requires
        0 <= p,
        p + 4 <= s.len(),
        s.subrange(p, p + 4) == u32_be_bytes(v),
    ensures
        crate::decode::sp_u32(s, p) == crate::decode::Taken::<u32>::Got(v, p + 4),
{
    lemma_u32_be_round(v);
    assert(be32_at(s, p) == be32_at(u32_be_bytes(v), 0)) by {
        assert(s[p] == u32_be_bytes(v)[0] && s[p + 1] == u32_be_bytes(v)[1] && s[p + 2]
            == u32_be_bytes(v)[2] && s[p + 3] == u32_be_bytes(v)[3]);
    }
}

/// When the two bytes at `p` are the big-endian split of `v`, reading a
/// `u16` at `p` yields `v`.
pub proof fn lemma_u16_at_of(s: Seq<u8>, p: int, v: u16)
    requires
        0 <= p,
        p + 2 <= s.len(),
        s.subrange(p, p + 2) == u16_be_bytes(v),
    ensures
        crate::decode::sp_u16(s, p) == crate::decode::Taken::<u16>::Got(v, p + 2),
{
    lemma_u16_be_round(v);
    assert(be16_at(s, p) == be16_at(u16_be_bytes(v), 0)) by {
        assert(s[p] == u16_be_bytes(v)[0] && s[p + 1] == u16_be_bytes(v)[1]);
    }
}


/// Splitting a known concatenation: when `s` holds `a + b` at `p`, it holds
/// `a` at `p` and `b` right after.
pub proof fn lemma_peel(s: Seq<u8>, p: int, a: Seq<u8>, b: Seq<u8>)
    requires
        0 <= p,
        p + a.len() + b.len() <= s.len(),
        s.subrange(p, p + a.len() + b.len()) == a + b,
    ensures
        s.subrange(p, p + a.len() as int) == a,
        s.subrange(p + a.len() as int, p + a.len() + b.len()) == b,
{
    let whole = a + b;
    vstd::assert_seqs_equal!(s.subrange(p, p + a.len() as int) == a, i => {
        assert(s.subrange(p, p + whole.len() as int)[i] == whole[i]);
    });
    vstd::assert_seqs_equal!(s.subrange(p + a.len() as int, p + a.len() + b.len()) == b, i => {
        assert(s.subrange(p, p + whole.len() as int)[a.len() + i] == whole[a.len() + i]);
    });
}

} // verus!
