//! The `RowDescription` message: the shape of the rows that follow.

use vstd::prelude::*;
use crate::decode::{
    BytesSource, DecodeResult, Taken, lemma_until_null_of, sp_u16, sp_u32, sp_until_null,
};
use crate::encode::{
    lemma_u16_at_of, lemma_u32_at_of, no_null, push_text, push_u16_be, push_u32_be, u16_be_bytes,
    u32_be_bytes,
};
use crate::msg::parts::{Format, lemma_format_round, sp_encode_format, sp_format, vec_view};

verus! {

/// One column of a row description.
#[derive(Clone, Debug, PartialEq, Eq)]
pub struct Field {
    pub name: Vec<u8>,
    pub column_oid: u32,
    pub column_attr_num: u16,
    pub type_oid: u32,
    pub type_size: i16,
    pub type_modifier: i32,
    pub format: Format,
}

/// The mathematical shape of a `Field`.
pub struct FieldV {
    pub name: Seq<u8>,
    pub column_oid: u32,
    pub column_attr_num: u16,
    pub type_oid: u32,
    pub type_size: i16,
    pub type_modifier: i32,
    pub format: Format,
}

impl View for Field {
    type V = FieldV;

    open spec fn view(&self) -> FieldV {
        FieldV {
            name: self.name@,
            column_oid: self.column_oid,
            column_attr_num: self.column_attr_num,
            type_oid: self.type_oid,
            type_size: self.type_size,
            type_modifier: self.type_modifier,
            format: self.format,
        }
    }
}

#[derive(Clone, Debug, PartialEq, Eq)]
pub struct RowDescription {
    pub fields: Vec<Field>,
}

impl View for RowDescription {
    type V = Seq<FieldV>;

    open spec fn view(&self) -> Seq<FieldV> {
        vec_view(self.fields)
    }
}

/// Decoding one field: its name, the column and type identifiers, and its
/// format.
pub open spec fn sp_field(s: Seq<u8>, p: int) -> Taken<FieldV> {
    match sp_until_null(s, p) {
        Taken::Got(name, q1) => match sp_u32(s, q1) {
            Taken::Got(column_oid, q2) => match sp_u16(s, q2) {
                Taken::Got(column_attr_num, q3) => match sp_u32(s, q3) {
                    Taken::Got(type_oid, q4) => match sp_u16(s, q4) {
                        Taken::Got(ts, q5) => match sp_u32(s, q5) {
                            Taken::Got(tm, q6) => match sp_format(s, q6) {
                                Taken::Got(format, q7) => Taken::Got(
                                    FieldV {
                                        name,
                                        column_oid,
                                        column_attr_num,
                                        type_oid,
                                        type_size: ts as i16,
                                        type_modifier: tm as i32,
                                        format,
                                    },
                                    q7,
                                ),
                                Taken::Short(e) => Taken::Short(e),
                            },
                            Taken::Short(e) => Taken::Short(e),
                        },
                        Taken::Short(e) => Taken::Short(e),
                    },
                    Taken::Short(e) => Taken::Short(e),
                },
                Taken::Short(e) => Taken::Short(e),
            },
            Taken::Short(e) => Taken::Short(e),
        },
        Taken::Short(e) => Taken::Short(e),
    }
}

/// Decoding `n` consecutive fields.
pub open spec fn sp_fields(s: Seq<u8>, p: int, n: int) -> Taken<Seq<FieldV>>
    decreases n,
{
    if n <= 0 {
        Taken::Got(Seq::empty(), p)
    } else {
        match sp_field(s, p) {
            Taken::Got(v, q) => match sp_fields(s, q, n - 1) {
                Taken::Got(vs, r) => Taken::Got(seq![v] + vs, r),
                Taken::Short(e) => Taken::Short(e),
            },
            Taken::Short(e) => Taken::Short(e),
        }
    }
}

/// The wire bytes of one field.
pub open spec fn sp_encode_field(f: FieldV) -> Seq<u8> {
    f.name + seq![0u8] + u32_be_bytes(f.column_oid) + u16_be_bytes(f.column_attr_num)
        + u32_be_bytes(f.type_oid) + u16_be_bytes(#[verifier::truncate] (f.type_size as u16)) + u32_be_bytes(
        #[verifier::truncate] (f.type_modifier as u32),
    ) + sp_encode_format(f.format)
}

/// What lets a field travel the wire unchanged.
pub open spec fn field_ok(f: FieldV) -> bool {
    no_null(f.name)
}

/// The wire bytes of a field list.
pub open spec fn sp_encode_fields(items: Seq<FieldV>) -> Seq<u8>
    decreases items.len(),
{
    if items.len() == 0 {
        Seq::empty()
    } else {
        sp_encode_field(items[0]) + sp_encode_fields(items.drop_first())
    }
}

/// Decoding an encoded field gives it back.
pub proof fn lemma_field_round(s: Seq<u8>, p: int, f: FieldV)
    requires
        0 <= p,
        p + sp_encode_field(f).len() <= s.len(),
        s.subrange(p, p + sp_encode_field(f).len()) == sp_encode_field(f),
        field_ok(f),
    ensures
        sp_field(s, p) == Taken::<FieldV>::Got(f, p + sp_encode_field(f).len()),
{
    let enc = sp_encode_field(f);
    let n = f.name.len() as int;
    vstd::assert_seqs_equal!(s.subrange(p, p + n) == f.name, i => {
        assert(s.subrange(p, p + enc.len() as int)[i] == enc[i]);
    });
    assert(s[p + n] == 0) by {
        assert(s.subrange(p, p + enc.len() as int)[n] == enc[n]);
    }
    lemma_until_null_of(s, p, f.name);
    let a = p + n + 1;
    vstd::assert_seqs_equal!(s.subrange(a, a + 4) == u32_be_bytes(f.column_oid), i => {
        assert(s.subrange(p, p + enc.len() as int)[n + 1 + i] == enc[n + 1 + i]);
    });
    lemma_u32_at_of(s, a, f.column_oid);
    vstd::assert_seqs_equal!(s.subrange(a + 4, a + 6) == u16_be_bytes(f.column_attr_num), i => {
        assert(s.subrange(p, p + enc.len() as int)[n + 5 + i] == enc[n + 5 + i]);
    });
    lemma_u16_at_of(s, a + 4, f.column_attr_num);
    vstd::assert_seqs_equal!(s.subrange(a + 6, a + 10) == u32_be_bytes(f.type_oid), i => {
        assert(s.subrange(p, p + enc.len() as int)[n + 7 + i] == enc[n + 7 + i]);
    });
    lemma_u32_at_of(s, a + 6, f.type_oid);
    vstd::assert_seqs_equal!(
        s.subrange(a + 10, a + 12) == u16_be_bytes(#[verifier::truncate] (f.type_size as u16)),
        i => {
            assert(s.subrange(p, p + enc.len() as int)[n + 11 + i] == enc[n + 11 + i]);
        }
    );
    lemma_u16_at_of(s, a + 10, #[verifier::truncate] (f.type_size as u16));
    let ts = f.type_size;
    assert((ts as u16) as i16 == ts) by (bit_vector);
    vstd::assert_seqs_equal!(
        s.subrange(a + 12, a + 16) == u32_be_bytes(#[verifier::truncate] (f.type_modifier as u32)),
        i => {
            assert(s.subrange(p, p + enc.len() as int)[n + 13 + i] == enc[n + 13 + i]);
        }
    );
    lemma_u32_at_of(s, a + 12, #[verifier::truncate] (f.type_modifier as u32));
    let tm = f.type_modifier;
    assert((tm as u32) as i32 == tm) by (bit_vector);
    vstd::assert_seqs_equal!(s.subrange(a + 16, a + 18) == sp_encode_format(f.format), i => {
        assert(s.subrange(p, p + enc.len() as int)[n + 17 + i] == enc[n + 17 + i]);
    });
    lemma_format_round(s, a + 16, f.format);
}

/// Decoding an encoded field list gives it back.
pub proof fn lemma_fields_round(s: Seq<u8>, p: int, items: Seq<FieldV>)
    requires
        0 <= p,
        p + sp_encode_fields(items).len() <= s.len(),
        s.subrange(p, p + sp_encode_fields(items).len()) == sp_encode_fields(items),
        forall|i: int| 0 <= i < items.len() ==> field_ok(#[trigger] items[i]),
    ensures
        sp_fields(s, p, items.len() as int) == Taken::<Seq<FieldV>>::Got(
            items,
            p + sp_encode_fields(items).len(),
        ),
    decreases items.len(),
{
    if items.len() == 0 {
        assert(items =~= Seq::<FieldV>::empty());
    } else {
        let enc = sp_encode_fields(items);
        let head = sp_encode_field(items[0]);
        let rest = items.drop_first();
        let enc_rest = sp_encode_fields(rest);
        assert(enc == head + enc_rest);
        vstd::assert_seqs_equal!(s.subrange(p, p + head.len() as int) == head, i => {
            assert(s.subrange(p, p + enc.len() as int)[i] == enc[i]);
        });
        lemma_field_round(s, p, items[0]);
        vstd::assert_seqs_equal!(
            s.subrange(p + head.len() as int, p + head.len() + enc_rest.len() as int) == enc_rest,
            i => {
                assert(s.subrange(p, p + enc.len() as int)[head.len() + i] == enc[head.len()
                    + i]);
            }
        );
        lemma_fields_round(s, p + head.len() as int, rest);
        assert(seq![items[0]] + rest =~= items);
    }
}

proof fn lemma_encode_snoc_fields(items: Seq<FieldV>, x: FieldV)
    ensures
        sp_encode_fields(items.push(x)) == sp_encode_fields(items) + sp_encode_field(x),
    decreases items.len(),
{
    let whole = items.push(x);
    if items.len() == 0 {
        assert(whole.drop_first() =~= items);
        assert(sp_encode_field(x) + sp_encode_fields(items) =~= sp_encode_fields(items)
            + sp_encode_field(x));
    } else {
        assert(whole.drop_first() =~= items.drop_first().push(x));
        lemma_encode_snoc_fields(items.drop_first(), x);
        let a = sp_encode_field(items[0]);
        let b = sp_encode_fields(items.drop_first());
        let c = sp_encode_field(x);
        assert(sp_encode_fields(whole) == a + (b + c));
        assert(sp_encode_fields(items) == a + b);
        assert(a + (b + c) =~= (a + b) + c);
    }
}

proof fn lemma_encode_take_step_fields(items: Seq<FieldV>, i: int)
    requires
        0 < i <= items.len(),
    ensures
        sp_encode_fields(items.take(i)) == sp_encode_fields(items.take(i - 1)) + sp_encode_field(
            items[i - 1],
        ),
    decreases i,
{
    lemma_encode_snoc_fields(items.take(i - 1), items[i - 1]);
    assert(items.take(i - 1).push(items[i - 1]) =~= items.take(i));
}

impl Field {
    pub fn encode(&self, out: &mut Vec<u8>)
        ensures
            final(out)@ == old(out)@ + sp_encode_field(self@),
    {
        push_text(out, &self.name);
        push_u32_be(out, self.column_oid);
        push_u16_be(out, self.column_attr_num);
        push_u32_be(out, self.type_oid);
        push_u16_be(out, self.type_size as u16);
        push_u32_be(out, self.type_modifier as u32);
        self.format.encode(out);
        proof {
            assert(old(out)@ + sp_encode_field(self@) =~= out@);
        }
    }
}

/// Encodes `items` one after the other.
pub fn encode_fields(items: &Vec<Field>, out: &mut Vec<u8>)
    ensures
        final(out)@ == old(out)@ + sp_encode_fields(vec_view(*items)),
{
    let n = items.len();
    let mut i: usize = 0;
    while i < n
        invariant
            i <= n,
            n == items@.len(),
            vec_view(*items).len() == n,
            forall|j: int| 0 <= j < n ==> items@[j]@ == #[trigger] vec_view(*items)[j],
            out@ == old(out)@ + sp_encode_fields(vec_view(*items).take(i as int)),
        decreases n - i,
    {
        let item = &items[i];
        proof {
            assert(item@ == vec_view(*items)[i as int]);
        }
        item.encode(out);
        i = i + 1;
        proof {
            lemma_encode_take_step_fields(vec_view(*items), i as int);
        }
    }
    proof {
        assert(vec_view(*items).take(n as int) =~= vec_view(*items));
    }
}

impl Field {
    pub fn decode(bytes: &mut BytesSource) -> (r: DecodeResult<Field>)
        requires
            old(bytes).wf(),
        ensures
            final(bytes).wf(),
            final(bytes).all() == old(bytes).all(),
            match sp_field(old(bytes).all(), old(bytes).at()) {
                Taken::Got(v, q) => r matches Ok(m) && m@ == v && final(bytes).at() == q,
                Taken::Short(e) => r == DecodeResult::<Field>::Err(e),
            },
    {
        let name = match bytes.take_until_null() {
            Ok(x) => x,
            Err(e) => { return Err(e); },
        };
        let column_oid = match bytes.take_u32() {
            Ok(x) => x,
            Err(e) => { return Err(e); },
        };
        let column_attr_num = match bytes.take_u16() {
            Ok(x) => x,
            Err(e) => { return Err(e); },
        };
        let type_oid = match bytes.take_u32() {
            Ok(x) => x,
            Err(e) => { return Err(e); },
        };
        let type_size = match bytes.take_u16() {
            Ok(x) => x,
            Err(e) => { return Err(e); },
        };
        let type_modifier = match bytes.take_u32() {
            Ok(x) => x,
            Err(e) => { return Err(e); },
        };
        let format = match Format::decode(bytes) {
            Ok(x) => x,
            Err(e) => { return Err(e); },
        };
        Ok(Field {
            name,
            column_oid,
            column_attr_num,
            type_oid,
            type_size: type_size as i16,
            type_modifier: type_modifier as i32,
            format,
        })
    }
}

impl RowDescription {
    pub open spec fn type_byte() -> u8 {
        0x54
    }

    /// A `u16` field count, then that many fields.
    pub open spec fn sp_decode(s: Seq<u8>, p: int) -> Taken<Seq<FieldV>> {
        match sp_u16(s, p) {
            Taken::Got(count, q) => sp_fields(s, q, count as int),
            Taken::Short(e) => Taken::Short(e),
        }
    }

    /// The field count, then the fields.
    pub open spec fn sp_encode(v: Seq<FieldV>) -> Seq<u8> {
        u16_be_bytes(v.len() as u16) + sp_encode_fields(v)
    }

    /// What lets a `RowDescription` travel the wire unchanged.
    pub open spec fn wire_ok(v: Seq<FieldV>) -> bool {
        v.len() <= 0xffff && (forall|i: int| 0 <= i < v.len() ==> field_ok(#[trigger] v[i]))
    }

    pub fn encode_body(&self) -> (r: Vec<u8>)
        requires
            self.fields@.len() <= 0xffff,
        ensures
            r@ == RowDescription::sp_encode(self@),
    {
        let mut out: Vec<u8> = Vec::new();
        push_u16_be(&mut out, self.fields.len() as u16);
        encode_fields(&self.fields, &mut out);
        proof {
            assert(out@ =~= RowDescription::sp_encode(self@));
        }
        out
    }

    /// Decoding an encoded body gives the message back.
    pub proof fn lemma_round_trip(v: Seq<FieldV>)
        requires
            RowDescription::wire_ok(v),
        ensures
            RowDescription::sp_decode(RowDescription::sp_encode(v), 0) == Taken::<
                Seq<FieldV>,
            >::Got(v, RowDescription::sp_encode(v).len() as int),
    {
        let s = RowDescription::sp_encode(v);
        assert(s.subrange(0, 2) =~= u16_be_bytes(v.len() as u16));
        lemma_u16_at_of(s, 0, v.len() as u16);
        assert(s.subrange(2, 2 + sp_encode_fields(v).len() as int) =~= sp_encode_fields(v));
        lemma_fields_round(s, 2, v);
    }

    pub fn decode_body(bytes: &mut BytesSource) -> (r: DecodeResult<RowDescription>)
        requires
            old(bytes).wf(),
        ensures
            final(bytes).wf(),
            final(bytes).all() == old(bytes).all(),
            match RowDescription::sp_decode(old(bytes).all(), old(bytes).at()) {
                Taken::Got(v, q) => r matches Ok(m) && m@ == v && final(bytes).at() == q,
                Taken::Short(e) => r == DecodeResult::<RowDescription>::Err(e),
            },
    {
        let count = match bytes.take_u16() {
            Ok(x) => x,
            Err(e) => { return Err(e); },
        };
        let fields = match decode_fields(count as usize, bytes) {
            Ok(x) => x,
            Err(e) => { return Err(e); },
        };
        Ok(RowDescription { fields })
    }
}

/// Decodes `count` fields in a row.
fn decode_fields(count: usize, bytes: &mut BytesSource) -> (r: DecodeResult<Vec<Field>>)
    requires
        old(bytes).wf(),
    ensures
        final(bytes).wf(),
        final(bytes).all() == old(bytes).all(),
        match sp_fields(old(bytes).all(), old(bytes).at(), count as int) {
            Taken::Got(v, q) => r matches Ok(items) && vec_view(items) == v && final(bytes).at()
                == q,
            Taken::Short(e) => r == DecodeResult::<Vec<Field>>::Err(e),
        },
{
    let ghost s = old(bytes).all();
    let ghost p0 = old(bytes).at();
    let mut items: Vec<Field> = Vec::new();
    let mut i: usize = 0;
    while i < count
        invariant
            i <= count,
            s == old(bytes).all(),
            p0 == old(bytes).at(),
            bytes.wf(),
            bytes.all() == s,
            match sp_fields(s, bytes.at(), (count - i) as int) {
                Taken::Got(rest, q) => sp_fields(s, p0, count as int) == Taken::Got(
                    vec_view(items) + rest,
                    q,
                ),
                Taken::Short(e) => sp_fields(s, p0, count as int) == Taken::<Seq<FieldV>>::Short(
                    e,
                ),
            },
        decreases count - i,
    {
        let ghost pi = bytes.at();
        let item = match Field::decode(bytes) {
            Ok(x) => x,
            Err(e) => {
                return Err(e);
            },
        };
        let ghost prev = vec_view(items);
        items.push(item);
        i = i + 1;
        proof {
            assert(vec_view(items) =~= prev.push(item@));
            match sp_fields(s, bytes.at(), (count - i) as int) {
                Taken::Got(rest, q) => {
                    assert(sp_fields(s, pi, (count - i + 1) as int) == Taken::Got(
                        seq![item@] + rest,
                        q,
                    ));
                    assert(prev + (seq![item@] + rest) =~= vec_view(items) + rest);
                },
                Taken::Short(e) => {
                    assert(sp_fields(s, pi, (count - i + 1) as int)
                        == Taken::<Seq<FieldV>>::Short(e));
                },
            }
        }
    }
    proof {
        assert(vec_view(items) + Seq::<FieldV>::empty() =~= vec_view(items));
    }
    Ok(items)
}

} // verus!
