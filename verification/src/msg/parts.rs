//! Small wire-format pieces shared by several message codecs: value formats,
//! null-terminated texts, and length-prefixed values.

use vstd::prelude::*;
use vstd::assert_seqs_equal;
use crate::decode::{
    be16_at, be32_at,
    BytesSource, DecodeResult, Incorrectness, Problem, Taken, Unrecognized, lemma_until_null_of,
    sp_take, sp_u16, sp_u32, sp_until_null,
};
use crate::encode::{
    lemma_u16_at_of, lemma_u32_at_of, no_null, push_bytes, push_text, push_u16_be, push_u32_be,
    u16_be_bytes, u32_be_bytes,
};

verus! {

/// A run of raw bytes (a column value).
#[derive(Clone, Debug, PartialEq, Eq)]
pub struct Bytes(pub Vec<u8>);

impl View for Bytes {
    type V = Seq<u8>;

    open spec fn view(&self) -> Seq<u8> {
        self.0@
    }
}

/// A null-terminated run of bytes (a name, a query, a tag).
#[derive(Clone, Debug, PartialEq, Eq)]
pub struct Text(pub Vec<u8>);

impl View for Text {
    type V = Seq<u8>;

    open spec fn view(&self) -> Seq<u8> {
        self.0@
    }
}

/// How a parameter or result value travels: as text or in binary.
#[derive(Clone, Copy, Debug, PartialEq, Eq, Structural)]
pub enum Format {
    Text,
    Binary,
}

/// A length-prefixed value: a declared length of `-1` means null.
#[derive(Clone, Debug, PartialEq, Eq)]
pub enum Value {
    Null,
    Bytes(Bytes),
}

/// The mathematical shape of a `Value`.
pub enum ValueV {
    Null,
    Bytes(Seq<u8>),
}

impl View for Value {
    type V = ValueV;

    open spec fn view(&self) -> ValueV {
        match self {
            Value::Null => ValueV::Null,
            Value::Bytes(b) => ValueV::Bytes(b@),
        }
    }
}

/// The view of a vector, element by element.
pub open spec fn vec_view<T: View>(v: Vec<T>) -> Seq<<T as View>::V> {
    v@.map_values(|x: T| x@)
}

/// Decoding a format: `0` is text, `1` is binary, anything else is unknown.
pub open spec fn sp_format(s: Seq<u8>, p: int) -> Taken<Format> {
    match sp_u16(s, p) {
        Taken::Got(x, q) => if x == 0 {
            Taken::Got(Format::Text, q)
        } else if x == 1 {
            Taken::Got(Format::Binary, q)
        } else {
            Taken::Short(Problem::Unknown(Unrecognized::ValueFormat(x)))
        },
        Taken::Short(e) => Taken::Short(e),
    }
}

/// Decoding a value: a `u32` length read as `i32`; `-1` is null, a
/// non-negative length prefixes that many raw bytes, anything below `-1` is
/// incorrect.
pub open spec fn sp_value(s: Seq<u8>, p: int) -> Taken<ValueV> {
    match sp_u32(s, p) {
        Taken::Got(x, q) => {
            let len = x as i32;
            if len == -1 {
                Taken::Got(ValueV::Null, q)
            } else if len >= 0 {
                match sp_take(s, q, len as int) {
                    Taken::Got(v, r) => Taken::Got(ValueV::Bytes(v), r),
                    Taken::Short(e) => Taken::Short(e),
                }
            } else {
                Taken::Short(Problem::Incorrect(Incorrectness::ValueLength(len)))
            }
        },
        Taken::Short(e) => Taken::Short(e),
    }
}

/// Decoding `n` consecutive formats.
pub open spec fn sp_formats(s: Seq<u8>, p: int, n: int) -> Taken<Seq<Format>>
    decreases n,
{
    if n <= 0 {
        Taken::Got(Seq::empty(), p)
    } else {
        match sp_format(s, p) {
            Taken::Got(v, q) => match sp_formats(s, q, n - 1) {
                Taken::Got(vs, r) => Taken::Got(seq![v] + vs, r),
                Taken::Short(e) => Taken::Short(e),
            },
            Taken::Short(e) => Taken::Short(e),
        }
    }
}

/// Decoding `n` consecutive values.
pub open spec fn sp_values(s: Seq<u8>, p: int, n: int) -> Taken<Seq<ValueV>>
    decreases n,
{
    if n <= 0 {
        Taken::Got(Seq::empty(), p)
    } else {
        match sp_value(s, p) {
            Taken::Got(v, q) => match sp_values(s, q, n - 1) {
                Taken::Got(vs, r) => Taken::Got(seq![v] + vs, r),
                Taken::Short(e) => Taken::Short(e),
            },
            Taken::Short(e) => Taken::Short(e),
        }
    }
}

/// Decoding `n` consecutive big-endian `u32` words.
pub open spec fn sp_u32s(s: Seq<u8>, p: int, n: int) -> Taken<Seq<u32>>
    decreases n,
{
    if n <= 0 {
        Taken::Got(Seq::empty(), p)
    } else {
        match sp_u32(s, p) {
            Taken::Got(v, q) => match sp_u32s(s, q, n - 1) {
                Taken::Got(vs, r) => Taken::Got(seq![v] + vs, r),
                Taken::Short(e) => Taken::Short(e),
            },
            Taken::Short(e) => Taken::Short(e),
        }
    }
}

/// Decoding `n` consecutive null-terminated texts.
pub open spec fn sp_texts(s: Seq<u8>, p: int, n: int) -> Taken<Seq<Seq<u8>>>
    decreases n,
{
    if n <= 0 {
        Taken::Got(Seq::empty(), p)
    } else {
        match sp_until_null(s, p) {
            Taken::Got(v, q) => match sp_texts(s, q, n - 1) {
                Taken::Got(vs, r) => Taken::Got(seq![v] + vs, r),
                Taken::Short(e) => Taken::Short(e),
            },
            Taken::Short(e) => Taken::Short(e),
        }
    }
}

impl Format {
    pub fn decode(bytes: &mut BytesSource) -> (r: DecodeResult<Format>)
        requires
            old(bytes).wf(),
        ensures
            final(bytes).wf(),
            final(bytes).all() == old(bytes).all(),
            match sp_format(old(bytes).all(), old(bytes).at()) {
                Taken::Got(v, q) => r == DecodeResult::<Format>::Ok(v) && final(bytes).at() == q,
                Taken::Short(e) => r == DecodeResult::<Format>::Err(e),
            },
    {
        let x = match bytes.take_u16() {
            Ok(x) => x,
            Err(e) => { return Err(e); },
        };
        match x {
            0 => Ok(Format::Text),
            1 => Ok(Format::Binary),
            _ => Err(Problem::Unknown(Unrecognized::ValueFormat(x))),
        }
    }
}

impl Text {
    pub fn decode(bytes: &mut BytesSource) -> (r: DecodeResult<Text>)
        requires
            old(bytes).wf(),
        ensures
            final(bytes).wf(),
            final(bytes).all() == old(bytes).all(),
            match sp_until_null(old(bytes).all(), old(bytes).at()) {
                Taken::Got(v, q) => r matches Ok(t) && t@ == v && final(bytes).at() == q,
                Taken::Short(e) => r == DecodeResult::<Text>::Err(e),
            },
    {
        match bytes.take_until_null() {
            Ok(v) => Ok(Text(v)),
            Err(e) => Err(e),
        }
    }
}

impl Value {
    pub fn decode(bytes: &mut BytesSource) -> (r: DecodeResult<Value>)
        requires
            old(bytes).wf(),
        ensures
            final(bytes).wf(),
            final(bytes).all() == old(bytes).all(),
            match sp_value(old(bytes).all(), old(bytes).at()) {
                Taken::Got(v, q) => r matches Ok(got) && got@ == v && final(bytes).at() == q,
                Taken::Short(e) => r == DecodeResult::<Value>::Err(e),
            },
    {
        let x = match bytes.take_u32() {
            Ok(x) => x,
            Err(e) => { return Err(e); },
        };
        let len = x as i32;
        if len == -1 {
            Ok(Value::Null)
        } else if len >= 0 {
            match bytes.take_vec(len as usize) {
                Ok(v) => Ok(Value::Bytes(Bytes(v))),
                Err(e) => Err(e),
            }
        } else {
            Err(Problem::Incorrect(Incorrectness::ValueLength(len)))
        }
    }
}

/// Decodes `count` formats in a row.
pub fn decode_formats(count: usize, bytes: &mut BytesSource) -> (r: DecodeResult<Vec<Format>>)
    requires
        old(bytes).wf(),
    ensures
        final(bytes).wf(),
        final(bytes).all() == old(bytes).all(),
        match sp_formats(old(bytes).all(), old(bytes).at(), count as int) {
            Taken::Got(v, q) => r matches Ok(items) && items@ == v && final(bytes).at() == q,
            Taken::Short(e) => r == DecodeResult::<Vec<Format>>::Err(e),
        },
{
    let ghost s = old(bytes).all();
    let ghost p0 = old(bytes).at();
    let mut items: Vec<Format> = Vec::new();
    let mut i: usize = 0;
    while i < count
        invariant
            i <= count,
            s == old(bytes).all(),
            p0 == old(bytes).at(),
            bytes.wf(),
            bytes.all() == s,
            match sp_formats(s, bytes.at(), (count - i) as int) {
                Taken::Got(rest, q) => sp_formats(s, p0, count as int) == Taken::Got(
                    items@ + rest,
                    q,
                ),
                Taken::Short(e) => sp_formats(s, p0, count as int) == Taken::<Seq<Format>>::Short(
                    e,
                ),
            },
        decreases count - i,
    {
        let ghost pi = bytes.at();
        let item = match Format::decode(bytes) {
            Ok(x) => x,
            Err(e) => {
                return Err(e);
            },
        };
        let ghost prev = items@;
        items.push(item);
        i = i + 1;
        proof {
            match sp_formats(s, bytes.at(), (count - i) as int) {
                Taken::Got(rest, q) => {
                    assert(sp_formats(s, pi, (count - i + 1) as int) == Taken::Got(
                        seq![item] + rest,
                        q,
                    ));
                    assert(prev + (seq![item] + rest) =~= items@ + rest);
                },
                Taken::Short(e) => {
                    assert(sp_formats(s, pi, (count - i + 1) as int)
                        == Taken::<Seq<Format>>::Short(e));
                },
            }
        }
    }
    proof {
        assert(items@ + Seq::<Format>::empty() =~= items@);
    }
    Ok(items)
}

/// Decodes `count` values in a row.
pub fn decode_values(count: usize, bytes: &mut BytesSource) -> (r: DecodeResult<Vec<Value>>)
    requires
        old(bytes).wf(),
    ensures
        final(bytes).wf(),
        final(bytes).all() == old(bytes).all(),
        match sp_values(old(bytes).all(), old(bytes).at(), count as int) {
            Taken::Got(v, q) => r matches Ok(items) && vec_view(items) == v && final(bytes).at()
                == q,
            Taken::Short(e) => r == DecodeResult::<Vec<Value>>::Err(e),
        },
{
    let ghost s = old(bytes).all();
    let ghost p0 = old(bytes).at();
    let mut items: Vec<Value> = Vec::new();
    let mut i: usize = 0;
    while i < count
        invariant
            i <= count,
            s == old(bytes).all(),
            p0 == old(bytes).at(),
            bytes.wf(),
            bytes.all() == s,
            match sp_values(s, bytes.at(), (count - i) as int) {
                Taken::Got(rest, q) => sp_values(s, p0, count as int) == Taken::Got(
                    vec_view(items) + rest,
                    q,
                ),
                Taken::Short(e) => sp_values(s, p0, count as int) == Taken::<Seq<ValueV>>::Short(
                    e,
                ),
            },
        decreases count - i,
    {
        let ghost pi = bytes.at();
        let item = match Value::decode(bytes) {
            Ok(x) => x,
            Err(e) => {
                return Err(e);
            },
        };
        let ghost prev = vec_view(items);
        items.push(item);
        i = i + 1;
        proof {
            assert(vec_view(items) =~= prev.push(item@));
            match sp_values(s, bytes.at(), (count - i) as int) {
                Taken::Got(rest, q) => {
                    assert(sp_values(s, pi, (count - i + 1) as int) == Taken::Got(
                        seq![item@] + rest,
                        q,
                    ));
                    assert(prev + (seq![item@] + rest) =~= vec_view(items) + rest);
                },
                Taken::Short(e) => {
                    assert(sp_values(s, pi, (count - i + 1) as int)
                        == Taken::<Seq<ValueV>>::Short(e));
                },
            }
        }
    }
    proof {
        assert(vec_view(items) + Seq::<ValueV>::empty() =~= vec_view(items));
    }
    Ok(items)
}

/// Decodes `count` big-endian `u32` words in a row.
pub fn decode_u32s(count: usize, bytes: &mut BytesSource) -> (r: DecodeResult<Vec<u32>>)
    requires
        old(bytes).wf(),
    ensures
        final(bytes).wf(),
        final(bytes).all() == old(bytes).all(),
        match sp_u32s(old(bytes).all(), old(bytes).at(), count as int) {
            Taken::Got(v, q) => r matches Ok(items) && items@ == v && final(bytes).at() == q,
            Taken::Short(e) => r == DecodeResult::<Vec<u32>>::Err(e),
        },
{
    let ghost s = old(bytes).all();
    let ghost p0 = old(bytes).at();
    let mut items: Vec<u32> = Vec::new();
    let mut i: usize = 0;
    while i < count
        invariant
            i <= count,
            s == old(bytes).all(),
            p0 == old(bytes).at(),
            bytes.wf(),
            bytes.all() == s,
            match sp_u32s(s, bytes.at(), (count - i) as int) {
                Taken::Got(rest, q) => sp_u32s(s, p0, count as int) == Taken::Got(
                    items@ + rest,
                    q,
                ),
                Taken::Short(e) => sp_u32s(s, p0, count as int) == Taken::<Seq<u32>>::Short(e),
            },
        decreases count - i,
    {
        let ghost pi = bytes.at();
        let item = match bytes.take_u32() {
            Ok(x) => x,
            Err(e) => {
                return Err(e);
            },
        };
        let ghost prev = items@;
        items.push(item);
        i = i + 1;
        proof {
            match sp_u32s(s, bytes.at(), (count - i) as int) {
                Taken::Got(rest, q) => {
                    assert(sp_u32s(s, pi, (count - i + 1) as int) == Taken::Got(
                        seq![item] + rest,
                        q,
                    ));
                    assert(prev + (seq![item] + rest) =~= items@ + rest);
                },
                Taken::Short(e) => {
                    assert(sp_u32s(s, pi, (count - i + 1) as int) == Taken::<Seq<u32>>::Short(e));
                },
            }
        }
    }
    proof {
        assert(items@ + Seq::<u32>::empty() =~= items@);
    }
    Ok(items)
}

/// Decodes `count` null-terminated texts in a row.
pub fn decode_texts(count: usize, bytes: &mut BytesSource) -> (r: DecodeResult<Vec<Text>>)
    requires
        old(bytes).wf(),
    ensures
        final(bytes).wf(),
        final(bytes).all() == old(bytes).all(),
        match sp_texts(old(bytes).all(), old(bytes).at(), count as int) {
            Taken::Got(v, q) => r matches Ok(items) && vec_view(items) == v && final(bytes).at()
                == q,
            Taken::Short(e) => r == DecodeResult::<Vec<Text>>::Err(e),
        },
{
    let ghost s = old(bytes).all();
    let ghost p0 = old(bytes).at();
    let mut items: Vec<Text> = Vec::new();
    let mut i: usize = 0;
    while i < count
        invariant
            i <= count,
            s == old(bytes).all(),
            p0 == old(bytes).at(),
            bytes.wf(),
            bytes.all() == s,
            match sp_texts(s, bytes.at(), (count - i) as int) {
                Taken::Got(rest, q) => sp_texts(s, p0, count as int) == Taken::Got(
                    vec_view(items) + rest,
                    q,
                ),
                Taken::Short(e) => sp_texts(s, p0, count as int) == Taken::<Seq<Seq<u8>>>::Short(
                    e,
                ),
            },
        decreases count - i,
    {
        let ghost pi = bytes.at();
        let item = match Text::decode(bytes) {
            Ok(x) => x,
            Err(e) => {
                return Err(e);
            },
        };
        let ghost prev = vec_view(items);
        items.push(item);
        i = i + 1;
        proof {
            assert(vec_view(items) =~= prev.push(item@));
            match sp_texts(s, bytes.at(), (count - i) as int) {
                Taken::Got(rest, q) => {
                    assert(sp_texts(s, pi, (count - i + 1) as int) == Taken::Got(
                        seq![item@] + rest,
                        q,
                    ));
                    assert(prev + (seq![item@] + rest) =~= vec_view(items) + rest);
                },
                Taken::Short(e) => {
                    assert(sp_texts(s, pi, (count - i + 1) as int)
                        == Taken::<Seq<Seq<u8>>>::Short(e));
                },
            }
        }
    }
    proof {
        assert(vec_view(items) + Seq::<Seq<u8>>::empty() =~= vec_view(items));
    }
    Ok(items)
}


/// The two wire bytes of a format.
pub open spec fn sp_encode_format(f: Format) -> Seq<u8> {
    match f {
        Format::Text => u16_be_bytes(0),
        Format::Binary => u16_be_bytes(1),
    }
}

/// The wire bytes of a value: `-1` for null, else the length then the raw
/// bytes.
pub open spec fn sp_encode_value(v: ValueV) -> Seq<u8> {
    match v {
        ValueV::Null => u32_be_bytes(0xffffffff),
        ValueV::Bytes(b) => u32_be_bytes(b.len() as u32) + b,
    }
}

/// A value whose declared length fits the wire's `i32`.
pub open spec fn value_ok(v: ValueV) -> bool {
    match v {
        ValueV::Null => true,
        ValueV::Bytes(b) => b.len() <= 0x7fffffff,
    }
}

pub open spec fn sp_encode_formats(items: Seq<Format>) -> Seq<u8>
    decreases items.len(),
{
    if items.len() == 0 {
        Seq::empty()
    } else {
        sp_encode_format(items[0]) + sp_encode_formats(items.drop_first())
    }
}

pub open spec fn sp_encode_values(items: Seq<ValueV>) -> Seq<u8>
    decreases items.len(),
{
    if items.len() == 0 {
        Seq::empty()
    } else {
        sp_encode_value(items[0]) + sp_encode_values(items.drop_first())
    }
}

pub open spec fn sp_encode_u32s(items: Seq<u32>) -> Seq<u8>
    decreases items.len(),
{
    if items.len() == 0 {
        Seq::empty()
    } else {
        u32_be_bytes(items[0]) + sp_encode_u32s(items.drop_first())
    }
}

pub open spec fn sp_encode_texts(items: Seq<Seq<u8>>) -> Seq<u8>
    decreases items.len(),
{
    if items.len() == 0 {
        Seq::empty()
    } else {
        items[0] + seq![0u8] + sp_encode_texts(items.drop_first())
    }
}

pub open spec fn texts_ok(items: Seq<Seq<u8>>) -> bool {
    forall|i: int| 0 <= i < items.len() ==> no_null(#[trigger] items[i])
}

impl Format {
    pub fn encode(&self, out: &mut Vec<u8>)
        ensures
            final(out)@ == old(out)@ + sp_encode_format(*self),
    {
        match self {
            Format::Text => push_u16_be(out, 0),
            Format::Binary => push_u16_be(out, 1),
        }
    }
}

impl Value {
    pub fn encode(&self, out: &mut Vec<u8>)
        requires
            value_ok(self@),
        ensures
            final(out)@ == old(out)@ + sp_encode_value(self@),
    {
        match self {
            Value::Null => push_u32_be(out, 0xffffffff),
            Value::Bytes(b) => {
                push_u32_be(out, b.0.len() as u32);
                push_bytes(out, &b.0);
            },
        }
    }
}

/// Decoding an encoded format gives it back, two bytes on.
pub proof fn lemma_format_round(s: Seq<u8>, p: int, f: Format)
    requires
        0 <= p,
        p + 2 <= s.len(),
        s.subrange(p, p + 2) == sp_encode_format(f),
    ensures
        sp_format(s, p) == Taken::<Format>::Got(f, p + 2),
{
    match f {
        Format::Text => lemma_u16_at_of(s, p, 0),
        Format::Binary => lemma_u16_at_of(s, p, 1),
    }
}

/// Decoding an encoded value gives it back.
pub proof fn lemma_value_round(s: Seq<u8>, p: int, v: ValueV)
    requires
        0 <= p,
        p + sp_encode_value(v).len() <= s.len(),
        s.subrange(p, p + sp_encode_value(v).len()) == sp_encode_value(v),
        value_ok(v),
    ensures
        sp_value(s, p) == Taken::<ValueV>::Got(v, p + sp_encode_value(v).len()),
{
    match v {
        ValueV::Null => {
            assert(s.subrange(p, p + 4) =~= u32_be_bytes(0xffffffff));
            lemma_u32_at_of(s, p, 0xffffffff);
            assert(0xffffffffu32 as i32 == -1i32) by (bit_vector);
        },
        ValueV::Bytes(b) => {
            let enc = sp_encode_value(v);
            assert_seqs_equal!(s.subrange(p, p + 4) == u32_be_bytes(b.len() as u32), i => {
                assert(s.subrange(p, p + enc.len() as int)[i] == enc[i]);
            });
            lemma_u32_at_of(s, p, b.len() as u32);
            let n32 = b.len() as u32;
            assert(n32 as i32 >= 0 && n32 as i32 == n32) by (bit_vector)
                requires
                    n32 <= 0x7fffffffu32,
            ;
            assert_seqs_equal!(s.subrange(p + 4, p + 4 + b.len() as int) == b, i => {
                assert(s.subrange(p, p + enc.len() as int)[4 + i] == enc[4 + i]);
            });
        },
    }
}

/// Decoding an encoded format list gives it back.
pub proof fn lemma_formats_round(s: Seq<u8>, p: int, items: Seq<Format>)
    requires
        0 <= p,
        p + 2 * items.len() <= s.len(),
        s.subrange(p, p + 2 * items.len()) == sp_encode_formats(items),
    ensures
        sp_formats(s, p, items.len() as int) == Taken::<Seq<Format>>::Got(
            items,
            p + 2 * items.len(),
        ),
    decreases items.len(),
{
    lemma_encode_formats_len(items);
    if items.len() == 0 {
        assert(sp_formats(s, p, 0) == Taken::<Seq<Format>>::Got(Seq::empty(), p));
        assert(items =~= Seq::<Format>::empty());
    } else {
        let enc = sp_encode_formats(items);
        let rest = items.drop_first();
        lemma_encode_formats_len(rest);
        assert_seqs_equal!(s.subrange(p, p + 2) == sp_encode_format(items[0]), i => {
            assert(s.subrange(p, p + enc.len() as int)[i] == enc[i]);
        });
        lemma_format_round(s, p, items[0]);
        assert_seqs_equal!(
            s.subrange(p + 2, p + 2 + 2 * rest.len() as int) == sp_encode_formats(rest),
            i => {
                assert(s.subrange(p, p + enc.len() as int)[2 + i] == enc[2 + i]);
            }
        );
        lemma_formats_round(s, p + 2, rest);
        assert(seq![items[0]] + rest =~= items);
    }
}

/// An encoded format list is two bytes per format.
pub proof fn lemma_encode_formats_len(items: Seq<Format>)
    ensures
        sp_encode_formats(items).len() == 2 * items.len(),
    decreases items.len(),
{
    if items.len() > 0 {
        lemma_encode_formats_len(items.drop_first());
    }
}

/// Decoding an encoded value list gives it back.
pub proof fn lemma_values_round(s: Seq<u8>, p: int, items: Seq<ValueV>)
    requires
        0 <= p,
        p + sp_encode_values(items).len() <= s.len(),
        s.subrange(p, p + sp_encode_values(items).len()) == sp_encode_values(items),
        forall|i: int| 0 <= i < items.len() ==> value_ok(#[trigger] items[i]),
    ensures
        sp_values(s, p, items.len() as int) == Taken::<Seq<ValueV>>::Got(
            items,
            p + sp_encode_values(items).len(),
        ),
    decreases items.len(),
{
    if items.len() == 0 {
        assert(items =~= Seq::<ValueV>::empty());
    } else {
        let enc = sp_encode_values(items);
        let head = sp_encode_value(items[0]);
        let rest = items.drop_first();
        let enc_rest = sp_encode_values(rest);
        assert(enc == head + enc_rest);
        assert_seqs_equal!(s.subrange(p, p + head.len() as int) == head, i => {
            assert(s.subrange(p, p + enc.len() as int)[i] == enc[i]);
        });
        lemma_value_round(s, p, items[0]);
        assert_seqs_equal!(
            s.subrange(p + head.len() as int, p + head.len() + enc_rest.len() as int) == enc_rest,
            i => {
                assert(s.subrange(p, p + enc.len() as int)[head.len() + i] == enc[head.len()
                    + i]);
            }
        );
        lemma_values_round(s, p + head.len() as int, rest);
        assert(seq![items[0]] + rest =~= items);
    }
}

/// Decoding an encoded `u32` list gives it back.
pub proof fn lemma_u32s_round(s: Seq<u8>, p: int, items: Seq<u32>)
    requires
        0 <= p,
        p + 4 * items.len() <= s.len(),
        s.subrange(p, p + 4 * items.len()) == sp_encode_u32s(items),
    ensures
        sp_u32s(s, p, items.len() as int) == Taken::<Seq<u32>>::Got(items, p + 4 * items.len()),
    decreases items.len(),
{
    lemma_encode_u32s_len(items);
    if items.len() == 0 {
        assert(items =~= Seq::<u32>::empty());
    } else {
        let enc = sp_encode_u32s(items);
        let rest = items.drop_first();
        lemma_encode_u32s_len(rest);
        assert_seqs_equal!(s.subrange(p, p + 4) == u32_be_bytes(items[0]), i => {
            assert(s.subrange(p, p + enc.len() as int)[i] == enc[i]);
        });
        lemma_u32_at_of(s, p, items[0]);
        assert_seqs_equal!(
            s.subrange(p + 4, p + 4 + 4 * rest.len() as int) == sp_encode_u32s(rest),
            i => {
                assert(s.subrange(p, p + enc.len() as int)[4 + i] == enc[4 + i]);
            }
        );
        lemma_u32s_round(s, p + 4, rest);
        assert(seq![items[0]] + rest =~= items);
    }
}

/// An encoded `u32` list is four bytes per word.
pub proof fn lemma_encode_u32s_len(items: Seq<u32>)
    ensures
        sp_encode_u32s(items).len() == 4 * items.len(),
    decreases items.len(),
{
    if items.len() > 0 {
        lemma_encode_u32s_len(items.drop_first());
    }
}

/// Decoding an encoded text list gives it back.
pub proof fn lemma_texts_round(s: Seq<u8>, p: int, items: Seq<Seq<u8>>)
    requires
        0 <= p,
        p + sp_encode_texts(items).len() <= s.len(),
        s.subrange(p, p + sp_encode_texts(items).len()) == sp_encode_texts(items),
        texts_ok(items),
    ensures
        sp_texts(s, p, items.len() as int) == Taken::<Seq<Seq<u8>>>::Got(
            items,
            p + sp_encode_texts(items).len(),
        ),
    decreases items.len(),
{
    if items.len() == 0 {
        assert(items =~= Seq::<Seq<u8>>::empty());
    } else {
        let enc = sp_encode_texts(items);
        let head = items[0] + seq![0u8];
        let rest = items.drop_first();
        let enc_rest = sp_encode_texts(rest);
        assert(enc == items[0] + seq![0u8] + enc_rest);
        assert(enc == head + enc_rest) by {
            assert(items[0] + seq![0u8] + enc_rest =~= head + enc_rest);
        }
        assert_seqs_equal!(s.subrange(p, p + head.len() as int) == head, i => {
            assert(s.subrange(p, p + enc.len() as int)[i] == enc[i]);
        });
        assert_seqs_equal!(s.subrange(p, p + items[0].len() as int) == items[0], i => {
            assert(s.subrange(p, p + head.len() as int)[i] == head[i]);
        });
        assert(s[p + items[0].len()] == 0) by {
            assert(s.subrange(p, p + head.len() as int)[items[0].len() as int] == head[items[0].len() as int]);
        }
        lemma_until_null_of(s, p, items[0]);
        assert_seqs_equal!(
            s.subrange(p + head.len() as int, p + head.len() + enc_rest.len() as int) == enc_rest,
            i => {
                assert(s.subrange(p, p + enc.len() as int)[head.len() + i] == enc[head.len()
                    + i]);
            }
        );
        assert(texts_ok(rest)) by {
            assert(forall|i: int| 0 <= i < rest.len() ==> rest[i] == #[trigger] items[i + 1]);
        }
        lemma_texts_round(s, p + head.len() as int, rest);
        assert(seq![items[0]] + rest =~= items);
    }
}

/// Encodes `items`, each followed by its null terminator.
pub fn encode_formats(items: &Vec<Format>, out: &mut Vec<u8>)
    ensures
        final(out)@ == old(out)@ + sp_encode_formats(items@),
{
    let n = items.len();
    let mut i: usize = 0;
    while i < n
        invariant
            i <= n,
            n == items@.len(),
            out@ == old(out)@ + sp_encode_formats(items@.take(i as int)),
        decreases n - i,
    {
        items[i].encode(out);
        i = i + 1;
        proof {
            lemma_encode_take_step_formats(items@, i as int);
        }
    }
    proof {
        assert(items@.take(n as int) =~= items@);
    }
}

/// Encodes `items` one after the other.
pub fn encode_values(items: &Vec<Value>, out: &mut Vec<u8>)
    requires
        forall|i: int| 0 <= i < items@.len() ==> value_ok(#[trigger] vec_view(*items)[i]),
    ensures
        final(out)@ == old(out)@ + sp_encode_values(vec_view(*items)),
{
    let n = items.len();
    let mut i: usize = 0;
    while i < n
        invariant
            i <= n,
            n == items@.len(),
            vec_view(*items).len() == n,
            forall|j: int| 0 <= j < n ==> value_ok(#[trigger] vec_view(*items)[j]),
            forall|j: int| 0 <= j < n ==> items@[j]@ == #[trigger] vec_view(*items)[j],
            out@ == old(out)@ + sp_encode_values(vec_view(*items).take(i as int)),
        decreases n - i,
    {
        let item = &items[i];
        proof {
            assert(item@ == vec_view(*items)[i as int]);
        }
        item.encode(out);
        i = i + 1;
        proof {
            lemma_encode_take_step_values(vec_view(*items), i as int);
        }
    }
    proof {
        assert(vec_view(*items).take(n as int) =~= vec_view(*items));
    }
}

/// Encodes `items` as big-endian words.
pub fn encode_u32s(items: &Vec<u32>, out: &mut Vec<u8>)
    ensures
        final(out)@ == old(out)@ + sp_encode_u32s(items@),
{
    let n = items.len();
    let mut i: usize = 0;
    while i < n
        invariant
            i <= n,
            n == items@.len(),
            out@ == old(out)@ + sp_encode_u32s(items@.take(i as int)),
        decreases n - i,
    {
        push_u32_be(out, items[i]);
        i = i + 1;
        proof {
            lemma_encode_take_step_u32s(items@, i as int);
        }
    }
    proof {
        assert(items@.take(n as int) =~= items@);
    }
}

/// Encodes `items`, each followed by its null terminator.
pub fn encode_texts(items: &Vec<Text>, out: &mut Vec<u8>)
    ensures
        final(out)@ == old(out)@ + sp_encode_texts(vec_view(*items)),
{
    let n = items.len();
    let mut i: usize = 0;
    while i < n
        invariant
            i <= n,
            n == items@.len(),
            vec_view(*items).len() == n,
            forall|j: int| 0 <= j < n ==> items@[j]@ == #[trigger] vec_view(*items)[j],
            out@ == old(out)@ + sp_encode_texts(vec_view(*items).take(i as int)),
        decreases n - i,
    {
        let item = &items[i];
        push_text(out, &item.0);
        i = i + 1;
        proof {
            lemma_encode_take_step_texts(vec_view(*items), i as int);
        }
    }
    proof {
        assert(vec_view(*items).take(n as int) =~= vec_view(*items));
    }
}

/// Extending the taken prefix by one item appends that item's encoding.
proof fn lemma_encode_take_step_formats(items: Seq<Format>, i: int)
    requires
        0 < i <= items.len(),
    ensures
        sp_encode_formats(items.take(i)) == sp_encode_formats(items.take(i - 1))
            + sp_encode_format(items[i - 1]),
    decreases i,
{
    lemma_encode_snoc_formats(items.take(i - 1), items[i - 1]);
    assert(items.take(i - 1).push(items[i - 1]) =~= items.take(i));
}

proof fn lemma_encode_snoc_formats(items: Seq<Format>, x: Format)
    ensures
        sp_encode_formats(items.push(x)) == sp_encode_formats(items) + sp_encode_format(x),
    decreases items.len(),
{
    let whole = items.push(x);
    if items.len() == 0 {
        assert(whole.drop_first() =~= items);
        assert(sp_encode_format(x) + sp_encode_formats(items) =~= sp_encode_formats(items) + sp_encode_format(x));
    } else {
        assert(whole.drop_first() =~= items.drop_first().push(x));
        lemma_encode_snoc_formats(items.drop_first(), x);
        let a = sp_encode_format(items[0]);
        let b = sp_encode_formats(items.drop_first());
        let c = sp_encode_format(x);
        assert(sp_encode_formats(whole) == a + (b + c));
        assert(sp_encode_formats(items) == a + b);
        assert(a + (b + c) =~= (a + b) + c);
    }
}

proof fn lemma_encode_take_step_values(items: Seq<ValueV>, i: int)
    requires
        0 < i <= items.len(),
    ensures
        sp_encode_values(items.take(i)) == sp_encode_values(items.take(i - 1)) + sp_encode_value(
            items[i - 1],
        ),
    decreases i,
{
    lemma_encode_snoc_values(items.take(i - 1), items[i - 1]);
    assert(items.take(i - 1).push(items[i - 1]) =~= items.take(i));
}

proof fn lemma_encode_snoc_values(items: Seq<ValueV>, x: ValueV)
    ensures
        sp_encode_values(items.push(x)) == sp_encode_values(items) + sp_encode_value(x),
    decreases items.len(),
{
    let whole = items.push(x);
    if items.len() == 0 {
        assert(whole.drop_first() =~= items);
        assert(sp_encode_value(x) + sp_encode_values(items) =~= sp_encode_values(items) + sp_encode_value(x));
    } else {
        assert(whole.drop_first() =~= items.drop_first().push(x));
        lemma_encode_snoc_values(items.drop_first(), x);
        let a = sp_encode_value(items[0]);
        let b = sp_encode_values(items.drop_first());
        let c = sp_encode_value(x);
        assert(sp_encode_values(whole) == a + (b + c));
        assert(sp_encode_values(items) == a + b);
        assert(a + (b + c) =~= (a + b) + c);
    }
}

proof fn lemma_encode_take_step_u32s(items: Seq<u32>, i: int)
    requires
        0 < i <= items.len(),
    ensures
        sp_encode_u32s(items.take(i)) == sp_encode_u32s(items.take(i - 1)) + u32_be_bytes(
            items[i - 1],
        ),
    decreases i,
{
    lemma_encode_snoc_u32s(items.take(i - 1), items[i - 1]);
    assert(items.take(i - 1).push(items[i - 1]) =~= items.take(i));
}

proof fn lemma_encode_snoc_u32s(items: Seq<u32>, x: u32)
    ensures
        sp_encode_u32s(items.push(x)) == sp_encode_u32s(items) + u32_be_bytes(x),
    decreases items.len(),
{
    let whole = items.push(x);
    if items.len() == 0 {
        assert(whole.drop_first() =~= items);
        assert(u32_be_bytes(x) + sp_encode_u32s(items) =~= sp_encode_u32s(items) + u32_be_bytes(x));
    } else {
        assert(whole.drop_first() =~= items.drop_first().push(x));
        lemma_encode_snoc_u32s(items.drop_first(), x);
        let a = u32_be_bytes(items[0]);
        let b = sp_encode_u32s(items.drop_first());
        let c = u32_be_bytes(x);
        assert(sp_encode_u32s(whole) == a + (b + c));
        assert(sp_encode_u32s(items) == a + b);
        assert(a + (b + c) =~= (a + b) + c);
    }
}

pub proof fn lemma_encode_take_step_texts(items: Seq<Seq<u8>>, i: int)
    requires
        0 < i <= items.len(),
    ensures
        sp_encode_texts(items.take(i)) == sp_encode_texts(items.take(i - 1)) + (items[i - 1]
            + seq![0u8]),
    decreases i,
{
    lemma_encode_snoc_texts(items.take(i - 1), items[i - 1]);
    assert(items.take(i - 1).push(items[i - 1]) =~= items.take(i));
}

proof fn lemma_encode_snoc_texts(items: Seq<Seq<u8>>, x: Seq<u8>)
    ensures
        sp_encode_texts(items.push(x)) == sp_encode_texts(items) + (x + seq![0u8]),
    decreases items.len(),
{
    let whole = items.push(x);
    if items.len() == 0 {
        assert(whole.drop_first() =~= items);
        assert((x + seq![0u8]) + sp_encode_texts(items) =~= sp_encode_texts(items) + (x + seq![0u8]));
    } else {
        assert(whole.drop_first() =~= items.drop_first().push(x));
        lemma_encode_snoc_texts(items.drop_first(), x);
        let a = (items[0] + seq![0u8]);
        let b = sp_encode_texts(items.drop_first());
        let c = (x + seq![0u8]);
        assert(sp_encode_texts(whole) == a + (b + c));
        assert(sp_encode_texts(items) == a + b);
        assert(a + (b + c) =~= (a + b) + c);
    }
}


/// A value whose declared length lies below `-1` is rejected as incorrect,
/// whatever else the bytes hold.
pub proof fn lemma_value_length_below_minus_one(s: Seq<u8>, p: int)
    requires
        0 <= p,
        p + 4 <= s.len(),
        (be32_at(s, p) as i32) < -1,
    ensures
        sp_value(s, p) == Taken::<ValueV>::Short(
            Problem::Incorrect(Incorrectness::ValueLength(be32_at(s, p) as i32)),
        ),
{
}

/// A format word outside text and binary is rejected as unknown, whatever
/// else the bytes hold.
pub proof fn lemma_format_outside_the_pair(s: Seq<u8>, p: int)
    requires
        0 <= p,
        p + 2 <= s.len(),
        be16_at(s, p) != 0,
        be16_at(s, p) != 1,
    ensures
        sp_format(s, p) == Taken::<Format>::Short(
            Problem::Unknown(Unrecognized::ValueFormat(be16_at(s, p))),
        ),
{
}

} // verus!
