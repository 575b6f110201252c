//! The `Parse` message: a prepared statement with parameter type OIDs.

use vstd::prelude::*;
use crate::decode::{BytesSource, DecodeResult, Taken, lemma_until_null_of, sp_u16, sp_until_null};
use crate::encode::{lemma_u16_at_of, no_null, push_text, push_u16_be, u16_be_bytes};
use crate::msg::parts::{
    Text, decode_u32s, encode_u32s, lemma_encode_u32s_len, lemma_u32s_round, sp_encode_u32s,
    sp_u32s,
};

verus! {

#[derive(Clone, Debug, PartialEq, Eq)]
pub struct Parse {
    pub prepared_statement_name: Text,
    pub query: Text,
    pub parameters_types: Vec<u32>,
}

/// The mathematical shape of a `Parse`.
pub struct ParseV {
    pub prepared_statement_name: Seq<u8>,
    pub query: Seq<u8>,
    pub parameters_types: Seq<u32>,
}

impl View for Parse {
    type V = ParseV;

    open spec fn view(&self) -> ParseV {
        ParseV {
            prepared_statement_name: self.prepared_statement_name@,
            query: self.query@,
            parameters_types: self.parameters_types@,
        }
    }
}

impl Parse {
    pub open spec fn type_byte() -> u8 {
        0x50
    }

    /// A statement name, the query text, then a `u16` count of `u32`
    /// parameter type OIDs.
    pub open spec fn sp_decode(s: Seq<u8>, p: int) -> Taken<ParseV> {
        match sp_until_null(s, p) {
            Taken::Got(prepared_statement_name, q1) => match sp_until_null(s, q1) {
                Taken::Got(query, q2) => match sp_u16(s, q2) {
                    Taken::Got(count, q3) => match sp_u32s(s, q3, count as int) {
                        Taken::Got(parameters_types, q4) => Taken::Got(
                            ParseV { prepared_statement_name, query, parameters_types },
                            q4,
                        ),
                        Taken::Short(e) => Taken::Short(e),
                    },
                    Taken::Short(e) => Taken::Short(e),
                },
                Taken::Short(e) => Taken::Short(e),
            },
            Taken::Short(e) => Taken::Short(e),
        }
    }

    /// The two names, the OID count, then the OIDs.
    pub open spec fn sp_encode(v: ParseV) -> Seq<u8> {
        v.prepared_statement_name + seq![0u8] + v.query + seq![0u8] + u16_be_bytes(
            v.parameters_types.len() as u16,
        ) + sp_encode_u32s(v.parameters_types)
    }

    /// What lets a `Parse` travel the wire unchanged.
    pub open spec fn wire_ok(v: ParseV) -> bool {
        no_null(v.prepared_statement_name) && no_null(v.query) && v.parameters_types.len()
            <= 0xffff
    }

    pub fn encode_body(&self) -> (r: Vec<u8>)
        requires
            self.parameters_types@.len() <= 0xffff,
        ensures
            r@ == Parse::sp_encode(self@),
    {
        let mut out: Vec<u8> = Vec::new();
        push_text(&mut out, &self.prepared_statement_name.0);
        push_text(&mut out, &self.query.0);
        push_u16_be(&mut out, self.parameters_types.len() as u16);
        encode_u32s(&self.parameters_types, &mut out);
        proof {
            assert(out@ =~= Parse::sp_encode(self@));
        }
        out
    }

    /// Decoding an encoded body gives the message back.
    pub proof fn lemma_round_trip(v: ParseV)
        requires
            Parse::wire_ok(v),
        ensures
            Parse::sp_decode(Parse::sp_encode(v), 0) == Taken::<ParseV>::Got(
                v,
                Parse::sp_encode(v).len() as int,
            ),
    {
        let s = Parse::sp_encode(v);
        let n0 = v.prepared_statement_name.len() as int;
        let n1 = v.query.len() as int;
        let k = v.parameters_types.len() as int;
        lemma_encode_u32s_len(v.parameters_types);
        assert(s.subrange(0, n0) =~= v.prepared_statement_name);
        assert(s[n0] == 0);
        lemma_until_null_of(s, 0, v.prepared_statement_name);
        assert(s.subrange(n0 + 1, n0 + 1 + n1) =~= v.query);
        assert(s[n0 + 1 + n1] == 0);
        lemma_until_null_of(s, n0 + 1, v.query);
        let a2 = n0 + n1 + 2;
        assert(s.subrange(a2, a2 + 2) =~= u16_be_bytes(v.parameters_types.len() as u16));
        lemma_u16_at_of(s, a2, v.parameters_types.len() as u16);
        assert(s.subrange(a2 + 2, a2 + 2 + 4 * k) =~= sp_encode_u32s(v.parameters_types));
        lemma_u32s_round(s, a2 + 2, v.parameters_types);
    }

    pub fn decode_body(bytes: &mut BytesSource) -> (r: DecodeResult<Parse>)
        requires
            old(bytes).wf(),
        ensures
            final(bytes).wf(),
            final(bytes).all() == old(bytes).all(),
            match Parse::sp_decode(old(bytes).all(), old(bytes).at()) {
                Taken::Got(v, q) => r matches Ok(m) && m@ == v && final(bytes).at() == q,
                Taken::Short(e) => r == DecodeResult::<Parse>::Err(e),
            },
    {
        let prepared_statement_name = match Text::decode(bytes) {
            Ok(x) => x,
            Err(e) => { return Err(e); },
        };
        let query = match Text::decode(bytes) {
            Ok(x) => x,
            Err(e) => { return Err(e); },
        };
        let count = match bytes.take_u16() {
            Ok(x) => x,
            Err(e) => { return Err(e); },
        };
        let parameters_types = match decode_u32s(count as usize, bytes) {
            Ok(x) => x,
            Err(e) => { return Err(e); },
        };
        Ok(Parse { prepared_statement_name, query, parameters_types })
    }
}

} // verus!
