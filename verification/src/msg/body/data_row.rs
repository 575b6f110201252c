//! The `DataRow` message: one row of column values.

use vstd::prelude::*;
use crate::decode::{BytesSource, DecodeResult, Taken, sp_u16};
use crate::encode::{lemma_u16_at_of, push_u16_be, u16_be_bytes};
use crate::msg::parts::{
    Value, ValueV, decode_values, encode_values, lemma_values_round, sp_encode_values, sp_values,
    value_ok, vec_view,
};

verus! {

#[derive(Clone, Debug, PartialEq, Eq)]
pub struct DataRow {
    pub columns: Vec<Value>,
}

impl View for DataRow {
    type V = Seq<ValueV>;

    open spec fn view(&self) -> Seq<ValueV> {
        vec_view(self.columns)
    }
}

impl DataRow {
    pub open spec fn type_byte() -> u8 {
        0x44
    }

    /// A `u16` column count, then that many length-prefixed values.
    pub open spec fn sp_decode(s: Seq<u8>, p: int) -> Taken<Seq<ValueV>> {
        match sp_u16(s, p) {
            Taken::Got(count, q) => sp_values(s, q, count as int),
            Taken::Short(e) => Taken::Short(e),
        }
    }

    /// The column count, then the values.
    pub open spec fn sp_encode(v: Seq<ValueV>) -> Seq<u8> {
        u16_be_bytes(v.len() as u16) + sp_encode_values(v)
    }

    /// What lets a `DataRow` travel the wire unchanged.
    pub open spec fn wire_ok(v: Seq<ValueV>) -> bool {
        v.len() <= 0xffff && (forall|i: int| 0 <= i < v.len() ==> value_ok(#[trigger] v[i]))
    }

    pub fn encode_body(&self) -> (r: Vec<u8>)
        requires
            DataRow::wire_ok(self@),
        ensures
            r@ == DataRow::sp_encode(self@),
    {
        let mut out: Vec<u8> = Vec::new();
        push_u16_be(&mut out, self.columns.len() as u16);
        encode_values(&self.columns, &mut out);
        proof {
            assert(out@ =~= DataRow::sp_encode(self@));
        }
        out
    }

    /// Decoding an encoded body gives the row back.
    pub proof fn lemma_round_trip(v: Seq<ValueV>)
        requires
            DataRow::wire_ok(v),
        ensures
            DataRow::sp_decode(DataRow::sp_encode(v), 0) == Taken::<Seq<ValueV>>::Got(
                v,
                DataRow::sp_encode(v).len() as int,
            ),
    {
        let s = DataRow::sp_encode(v);
        assert(s.subrange(0, 2) =~= u16_be_bytes(v.len() as u16));
        lemma_u16_at_of(s, 0, v.len() as u16);
        assert(s.subrange(2, 2 + sp_encode_values(v).len() as int) =~= sp_encode_values(v));
        lemma_values_round(s, 2, v);
    }

    pub fn decode_body(bytes: &mut BytesSource) -> (r: DecodeResult<DataRow>)
        requires
            old(bytes).wf(),
        ensures
            final(bytes).wf(),
            final(bytes).all() == old(bytes).all(),
            match DataRow::sp_decode(old(bytes).all(), old(bytes).at()) {
                Taken::Got(v, q) => r matches Ok(m) && m@ == v && final(bytes).at() == q,
                Taken::Short(e) => r == DecodeResult::<DataRow>::Err(e),
            },
    {
        let count = match bytes.take_u16() {
            Ok(x) => x,
            Err(e) => { return Err(e); },
        };
        let columns = match decode_values(count as usize, bytes) {
            Ok(x) => x,
            Err(e) => { return Err(e); },
        };
        Ok(DataRow { columns })
    }
}

} // verus!
