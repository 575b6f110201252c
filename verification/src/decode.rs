//! Bounded byte source: the cursor every message codec reads from.
//!
//! A `BytesSource` walks over one message body.  Each `take_*` call either
//! yields the requested datum and advances the cursor, or fails with the one
//! `Problem` the specification assigns to that situation and parks the cursor
//! at the end of the source.

use vstd::prelude::*;

verus! {

/// Why a sequence of bytes was rejected although it framed correctly.
#[derive(Clone, Copy, Debug, PartialEq, Eq, Structural)]
pub enum Incorrectness {
    /// A length-prefixed value declared a length below `-1`.
    ValueLength(i32),
    /// A SASL initial response declared a mechanism-data length below `-1`.
    MechanismDataLength(i32),
}

/// A discriminant outside the documented PostgreSQL protocol.
#[derive(Clone, Copy, Debug, PartialEq, Eq, Structural)]
pub enum Unrecognized {
    /// The opening word of an `Authentication` message.
    AuthSubType(u32),
    /// A value format other than text (`0`) or binary (`1`).
    ValueFormat(u16),
    /// A field-type byte of an error or notice response.
    ErrorFieldType { index: usize, type_byte: u8 },
    /// The status byte of a `ReadyForQuery` message.
    QueryStatus(u8),
}

/// How a decode step can fail.
#[derive(Clone, Copy, Debug, PartialEq, Eq, Structural)]
pub enum Problem {
    /// The source ended this many bytes short of the request.
    NeedMoreBytes(usize),
    /// A null-terminated run was requested and the source holds no null byte.
    NoNullByte,
    /// The bytes are well-formed but violate a semantic constraint.
    Incorrect(Incorrectness),
    /// A discriminant is not recognized; possibly a protocol extension.
    Unknown(Unrecognized),
}

pub type DecodeResult<T> = Result<T, Problem>;

/// What one spec-level read of the source yields: the datum and the new
/// cursor position, or the failure (after which the cursor sits at the end).
pub enum Taken<T> {
    Got(T, int),
    Short(Problem),
}

/// The big-endian `u16` at position `i` of `s`.
pub open spec fn be16_at(s: Seq<u8>, i: int) -> u16 {
    (s[i] * 0x100 + s[i + 1]) as u16
}

/// The big-endian `u32` at position `i` of `s`.
pub open spec fn be32_at(s: Seq<u8>, i: int) -> u32 {
    (s[i] * 0x1000000 + s[i + 1] * 0x10000 + s[i + 2] * 0x100 + s[i + 3]) as u32
}

/// Reading `n` raw bytes at position `p`.
pub open spec fn sp_take(s: Seq<u8>, p: int, n: int) -> Taken<Seq<u8>> {
    if p + n <= s.len() {
        Taken::Got(s.subrange(p, p + n), p + n)
    } else {
        Taken::Short(Problem::NeedMoreBytes((n - (s.len() - p)) as usize))
    }
}

/// Reading one byte at position `p`.
pub open spec fn sp_u8(s: Seq<u8>, p: int) -> Taken<u8> {
    match sp_take(s, p, 1) {
        Taken::Got(_, q) => Taken::Got(s[p], q),
        Taken::Short(e) => Taken::Short(e),
    }
}

/// Reading a big-endian `u16` at position `p`.
pub open spec fn sp_u16(s: Seq<u8>, p: int) -> Taken<u16> {
    match sp_take(s, p, 2) {
        Taken::Got(_, q) => Taken::Got(be16_at(s, p), q),
        Taken::Short(e) => Taken::Short(e),
    }
}

/// Reading a big-endian `u32` at position `p`.
pub open spec fn sp_u32(s: Seq<u8>, p: int) -> Taken<u32> {
    match sp_take(s, p, 4) {
        Taken::Got(_, q) => Taken::Got(be32_at(s, p), q),
        Taken::Short(e) => Taken::Short(e),
    }
}

/// The position of the first null byte of `s` at or after `p`, or `s.len()`
/// when there is none.
pub open spec fn null_at(s: Seq<u8>, p: int) -> int
    decreases s.len() - p,
{
    if p < 0 || p >= s.len() {
        s.len() as int
    } else if s[p] == 0 {
        p
    } else {
        null_at(s, p + 1)
    }
}

/// Reading a null-terminated run at position `p`: the bytes before the first
/// null, which is itself consumed.
pub open spec fn sp_until_null(s: Seq<u8>, p: int) -> Taken<Seq<u8>> {
    let j = null_at(s, p);
    if j < s.len() {
        Taken::Got(s.subrange(p, j), j + 1)
    } else {
        Taken::Short(Problem::NoNullByte)
    }
}

pub broadcast proof fn lemma_null_at(s: Seq<u8>, p: int)
    requires
        0 <= p <= s.len(),
    ensures
        p <= #[trigger] null_at(s, p) <= s.len(),
        null_at(s, p) < s.len() ==> s[null_at(s, p)] == 0,
        forall|k: int| p <= k < null_at(s, p) ==> s[k] != 0,
    decreases s.len() - p,
{
    if p < s.len() && s[p] != 0 {
        lemma_null_at(s, p + 1);
    }
}

/// A cursor over a borrowed byte slice.
pub struct BytesSource<'a> {
    slice: &'a [u8],
    pos: usize,
}

impl<'a> BytesSource<'a> {
    /// Every byte the source was built over, consumed or not.
    pub closed spec fn all(&self) -> Seq<u8> {
        self.slice@
    }

    /// The cursor: how many bytes have been consumed.
    pub closed spec fn at(&self) -> int {
        self.pos as int
    }

    pub open spec fn wf(&self) -> bool {
        0 <= self.at() <= self.all().len() <= usize::MAX
    }

    pub fn new(slice: &'a [u8]) -> (r: Self)
        ensures
            r.wf(),
            r.all() == slice@,
            r.at() == 0,
    {
        let n = slice.len();
        Self { slice, pos: 0 }
    }

    /// How many bytes are left to consume.
    pub fn left(&self) -> (r: usize)
        requires
            self.wf(),
        ensures
            r == self.all().len() - self.at(),
    {
        self.slice.len() - self.pos
    }

    pub fn take_u8(&mut self) -> (r: DecodeResult<u8>)
        requires
            old(self).wf(),
        ensures
            final(self).wf(),
            final(self).all() == old(self).all(),
            match sp_u8(old(self).all(), old(self).at()) {
                Taken::Got(v, q) => r == DecodeResult::<u8>::Ok(v) && final(self).at() == q,
                Taken::Short(e) => r == DecodeResult::<u8>::Err(e) && final(self).at()
                    == old(self).all().len(),
            },
    {
        if self.pos < self.slice.len() {
            let b = self.slice[self.pos];
            self.pos = self.pos + 1;
            Ok(b)
        } else {
            self.pos = self.slice.len();
            Err(Problem::NeedMoreBytes(1))
        }
    }

    pub fn take_u16(&mut self) -> (r: DecodeResult<u16>)
        requires
            old(self).wf(),
        ensures
            final(self).wf(),
            final(self).all() == old(self).all(),
            match sp_u16(old(self).all(), old(self).at()) {
                Taken::Got(v, q) => r == DecodeResult::<u16>::Ok(v) && final(self).at() == q,
                Taken::Short(e) => r == DecodeResult::<u16>::Err(e) && final(self).at()
                    == old(self).all().len(),
            },
    {
        if 2 <= self.slice.len() - self.pos {
            let hi = self.slice[self.pos];
            let lo = self.slice[self.pos + 1];
            self.pos = self.pos + 2;
            Ok((hi as u16) * 0x100 + (lo as u16))
        } else {
            let left = self.slice.len() - self.pos;
            self.pos = self.slice.len();
            Err(Problem::NeedMoreBytes(2 - left))
        }
    }

    pub fn take_u32(&mut self) -> (r: DecodeResult<u32>)
        requires
            old(self).wf(),
        ensures
            final(self).wf(),
            final(self).all() == old(self).all(),
            match sp_u32(old(self).all(), old(self).at()) {
                Taken::Got(v, q) => r == DecodeResult::<u32>::Ok(v) && final(self).at() == q,
                Taken::Short(e) => r == DecodeResult::<u32>::Err(e) && final(self).at()
                    == old(self).all().len(),
            },
    {
        if 4 <= self.slice.len() - self.pos {
            let b0 = self.slice[self.pos];
            let b1 = self.slice[self.pos + 1];
            let b2 = self.slice[self.pos + 2];
            let b3 = self.slice[self.pos + 3];
            self.pos = self.pos + 4;
            Ok((b0 as u32) * 0x1000000 + (b1 as u32) * 0x10000 + (b2 as u32) * 0x100 + (b3 as u32))
        } else {
            let left = self.slice.len() - self.pos;
            self.pos = self.slice.len();
            Err(Problem::NeedMoreBytes(4 - left))
        }
    }

    /// Fills `result` entirely, consuming `result.len()` bytes.
    pub fn take_slice(&mut self, result: &mut Vec<u8>) -> (r: DecodeResult<()>)
        requires
            old(self).wf(),
        ensures
            final(self).wf(),
            final(self).all() == old(self).all(),
            final(result).len() == old(result).len(),
            match sp_take(old(self).all(), old(self).at(), old(result).len() as int) {
                Taken::Got(v, q) => r == DecodeResult::<()>::Ok(()) && final(self).at() == q
                    && final(result)@ == v,
                Taken::Short(e) => r == DecodeResult::<()>::Err(e) && final(self).at()
                    == old(self).all().len() && final(result)@ == old(result)@,
            },
    {
        let n = result.len();
        if n <= self.slice.len() - self.pos {
            let mut i: usize = 0;
            while i < n
                invariant
                    i <= n,
                    n + self.at() <= self.all().len(),
                    self.all().len() <= usize::MAX,
                    result.len() == n,
                    self.wf(),
                    forall|k: int| 0 <= k < i ==> result@[k] == self.all()[self.at() + k],
                decreases n - i,
            {
                let b = self.slice[self.pos + i];
                result.set(i, b);
                i = i + 1;
            }
            let ghost p = self.at();
            self.pos = self.pos + n;
            proof {
                assert(result@ =~= old(self).all().subrange(p, p + n as int));
            }
            Ok(())
        } else {
            let left = self.slice.len() - self.pos;
            self.pos = self.slice.len();
            Err(Problem::NeedMoreBytes(n - left))
        }
    }

    /// Consumes and returns the next `len` bytes.
    pub fn take_vec(&mut self, len: usize) -> (r: DecodeResult<Vec<u8>>)
        requires
            old(self).wf(),
        ensures
            final(self).wf(),
            final(self).all() == old(self).all(),
            match sp_take(old(self).all(), old(self).at(), len as int) {
                Taken::Got(v, q) => r matches Ok(got) && got@ == v && final(self).at() == q,
                Taken::Short(e) => r == DecodeResult::<Vec<u8>>::Err(e) && final(self).at()
                    == old(self).all().len(),
            },
    {
        if len <= self.slice.len() - self.pos {
            let mut got: Vec<u8> = Vec::new();
            let mut i: usize = 0;
            while i < len
                invariant
                    i <= len,
                    len + self.at() <= self.all().len(),
                    self.all().len() <= usize::MAX,
                    self.wf(),
                    got@ == self.all().subrange(self.at(), self.at() + i as int),
                decreases len - i,
            {
                let b = self.slice[self.pos + i];
                got.push(b);
                i = i + 1;
                proof {
                    assert(got@ =~= self.all().subrange(self.at(), self.at() + i as int));
                }
            }
            let ghost p = self.at();
            self.pos = self.pos + len;
            Ok(got)
        } else {
            let left = self.slice.len() - self.pos;
            self.pos = self.slice.len();
            Err(Problem::NeedMoreBytes(len - left))
        }
    }

    /// Consumes bytes up to and including the first null byte; returns the
    /// bytes before it.
    pub fn take_until_null(&mut self) -> (r: DecodeResult<Vec<u8>>)
        requires
            old(self).wf(),
        ensures
            final(self).wf(),
            final(self).all() == old(self).all(),
            match sp_until_null(old(self).all(), old(self).at()) {
                Taken::Got(v, q) => r matches Ok(got) && got@ == v && final(self).at() == q,
                Taken::Short(e) => r == DecodeResult::<Vec<u8>>::Err(e) && final(self).at()
                    == old(self).all().len(),
            },
    {
        proof {
            lemma_null_at(self.all(), self.at());
        }
        let mut got: Vec<u8> = Vec::new();
        let mut i: usize = self.pos;
        while i < self.slice.len()
            invariant
                self == old(self),
                self.wf(),
                self.at() <= i <= self.all().len(),
                forall|k: int| self.at() <= k < i ==> self.all()[k] != 0,
                got@ == self.all().subrange(self.at(), i as int),
            decreases self.slice.len() - i,
        {
            let b = self.slice[i];
            if b == 0 {
                proof {
                    assert(null_at(self.all(), self.at()) == i) by {
                        lemma_null_at_found(self.all(), self.at(), i as int);
                    }
                }
                self.pos = i + 1;
                return Ok(got);
            }
            got.push(b);
            i = i + 1;
            proof {
                assert(got@ =~= self.all().subrange(self.at(), i as int));
            }
        }
        proof {
            lemma_null_at_found(self.all(), self.at(), self.all().len() as int);
        }
        self.pos = self.slice.len();
        Err(Problem::NoNullByte)
    }
}

/// When every byte of `s` in `[p, j)` is non-null and `j` is either the end
/// or a null byte, `j` is where `null_at` points.
proof fn lemma_null_at_found(s: Seq<u8>, p: int, j: int)
    requires
        0 <= p <= j <= s.len(),
        forall|k: int| p <= k < j ==> s[k] != 0,
        j < s.len() ==> s[j] == 0,
    ensures
        null_at(s, p) == j,
    decreases j - p,
{
    if p < j {
        lemma_null_at_found(s, p + 1, j);
    }
}


/// When `s` holds at `p` the run `x` (which has no null byte) followed by a
/// null byte, reading a null-terminated run at `p` yields exactly `x`.
pub proof fn lemma_until_null_of(s: Seq<u8>, p: int, x: Seq<u8>)
    requires
        0 <= p,
        p + x.len() + 1 <= s.len(),
        s.subrange(p, p + x.len()) == x,
        s[p + x.len()] == 0,
        forall|i: int| 0 <= i < x.len() ==> x[i] != 0,
    ensures
        sp_until_null(s, p) == Taken::<Seq<u8>>::Got(x, p + x.len() + 1),
{
    assert(forall|k: int| p <= k < p + x.len() ==> s[k] == x[k - p] && s[k] != 0);
    lemma_null_at_found(s, p, p + x.len());
}

} // verus!
