//! The `Bind` message: parameter values and formats for a portal.

use vstd::prelude::*;
use crate::decode::{BytesSource, DecodeResult, Taken, lemma_until_null_of, sp_u16, sp_until_null};
use crate::encode::{lemma_u16_at_of, no_null, push_text, push_u16_be, u16_be_bytes};
use crate::msg::parts::{
    Format, Text, Value, ValueV, decode_formats, decode_values, encode_formats, encode_values,
    lemma_encode_formats_len, lemma_formats_round, lemma_values_round, sp_encode_formats,
    sp_encode_values, sp_formats, sp_values, value_ok, vec_view,
};

verus! {

#[derive(Clone, Debug, PartialEq, Eq)]
pub struct Bind {
    pub prepared_statement_name: Text,
    pub portal_name: Text,
    pub parameters_formats: Vec<Format>,
    pub parameters_values: Vec<Value>,
    pub results_formats: Vec<Format>,
}

/// The mathematical shape of a `Bind`.
pub struct BindV {
    pub prepared_statement_name: Seq<u8>,
    pub portal_name: Seq<u8>,
    pub parameters_formats: Seq<Format>,
    pub parameters_values: Seq<ValueV>,
    pub results_formats: Seq<Format>,
}

impl View for Bind {
    type V = BindV;

    open spec fn view(&self) -> BindV {
        BindV {
            prepared_statement_name: self.prepared_statement_name@,
            portal_name: self.portal_name@,
            parameters_formats: self.parameters_formats@,
            parameters_values: vec_view(self.parameters_values),
            results_formats: self.results_formats@,
        }
    }
}

impl Bind {
    pub open spec fn type_byte() -> u8 {
        0x42
    }

    /// Two names, then three `u16`-counted lists: parameter formats,
    /// parameter values and result formats.
    pub open spec fn sp_decode(s: Seq<u8>, p: int) -> Taken<BindV> {
        match sp_until_null(s, p) {
            Taken::Got(prepared_statement_name, q1) => match sp_until_null(s, q1) {
                Taken::Got(portal_name, q2) => match sp_u16(s, q2) {
                    Taken::Got(n1, q3) => match sp_formats(s, q3, n1 as int) {
                        Taken::Got(parameters_formats, q4) => match sp_u16(s, q4) {
                            Taken::Got(n2, q5) => match sp_values(s, q5, n2 as int) {
                                Taken::Got(parameters_values, q6) => match sp_u16(s, q6) {
                                    Taken::Got(n3, q7) => match sp_formats(s, q7, n3 as int) {
                                        Taken::Got(results_formats, q8) => Taken::Got(
                                            BindV {
                                                prepared_statement_name,
                                                portal_name,
                                                parameters_formats,
                                                parameters_values,
                                                results_formats,
                                            },
                                            q8,
                                        ),
                                        Taken::Short(e) => Taken::Short(e),
                                    },
                                    Taken::Short(e) => Taken::Short(e),
                                },
                                Taken::Short(e) => Taken::Short(e),
                            },
                            Taken::Short(e) => Taken::Short(e),
                        },
                        Taken::Short(e) => Taken::Short(e),
                    },
                    Taken::Short(e) => Taken::Short(e),
                },
                Taken::Short(e) => Taken::Short(e),
            },
            Taken::Short(e) => Taken::Short(e),
        }
    }

    /// The two names, then the three counted lists.
    pub open spec fn sp_encode(v: BindV) -> Seq<u8> {
        v.prepared_statement_name + seq![0u8] + v.portal_name + seq![0u8] + u16_be_bytes(
            v.parameters_formats.len() as u16,
        ) + sp_encode_formats(v.parameters_formats) + u16_be_bytes(
            v.parameters_values.len() as u16,
        ) + sp_encode_values(v.parameters_values) + u16_be_bytes(v.results_formats.len() as u16)
            + sp_encode_formats(v.results_formats)
    }

    /// What lets a `Bind` travel the wire unchanged.
    pub open spec fn wire_ok(v: BindV) -> bool {
        &&& no_null(v.prepared_statement_name)
        &&& no_null(v.portal_name)
        &&& v.parameters_formats.len() <= 0xffff
        &&& v.parameters_values.len() <= 0xffff
        &&& v.results_formats.len() <= 0xffff
        &&& forall|i: int|
            0 <= i < v.parameters_values.len() ==> value_ok(#[trigger] v.parameters_values[i])
    }

    pub fn encode_body(&self) -> (r: Vec<u8>)
        requires
            self.parameters_formats@.len() <= 0xffff,
            self.parameters_values@.len() <= 0xffff,
            self.results_formats@.len() <= 0xffff,
            forall|i: int|
                0 <= i < self.parameters_values@.len() ==> value_ok(
                    #[trigger] vec_view(self.parameters_values)[i],
                ),
        ensures
            r@ == Bind::sp_encode(self@),
    {
        let mut out: Vec<u8> = Vec::new();
        push_text(&mut out, &self.prepared_statement_name.0);
        push_text(&mut out, &self.portal_name.0);
        push_u16_be(&mut out, self.parameters_formats.len() as u16);
        encode_formats(&self.parameters_formats, &mut out);
        push_u16_be(&mut out, self.parameters_values.len() as u16);
        encode_values(&self.parameters_values, &mut out);
        push_u16_be(&mut out, self.results_formats.len() as u16);
        encode_formats(&self.results_formats, &mut out);
        proof {
            assert(out@ =~= Bind::sp_encode(self@));
        }
        out
    }

    /// Decoding an encoded body gives the message back.
    pub proof fn lemma_round_trip(v: BindV)
        requires
            Bind::wire_ok(v),
        ensures
            Bind::sp_decode(Bind::sp_encode(v), 0) == Taken::<BindV>::Got(
                v,
                Bind::sp_encode(v).len() as int,
            ),
    {
        let s = Bind::sp_encode(v);
        let enc = s;
        let n0 = v.prepared_statement_name.len() as int;
        let n1 = v.portal_name.len() as int;
        let ef1 = sp_encode_formats(v.parameters_formats);
        let ev = sp_encode_values(v.parameters_values);
        let ef2 = sp_encode_formats(v.results_formats);
        lemma_encode_formats_len(v.parameters_formats);
        lemma_encode_formats_len(v.results_formats);
        assert(s.subrange(0, s.len() as int) =~= s);
        vstd::assert_seqs_equal!(s.subrange(0, n0) == v.prepared_statement_name, i => {
            assert(s.subrange(0, enc.len() as int)[i] == enc[i]);
        });
        assert(s[n0] == 0) by {
            assert(s.subrange(0, enc.len() as int)[n0] == enc[n0]);
        }
        lemma_until_null_of(s, 0, v.prepared_statement_name);
        let a1 = n0 + 1;
        vstd::assert_seqs_equal!(s.subrange(a1, a1 + n1) == v.portal_name, i => {
            assert(s.subrange(0, enc.len() as int)[a1 + i] == enc[a1 + i]);
        });
        assert(s[a1 + n1] == 0) by {
            assert(s.subrange(0, enc.len() as int)[a1 + n1] == enc[a1 + n1]);
        }
        lemma_until_null_of(s, a1, v.portal_name);
        let a2 = a1 + n1 + 1;
        vstd::assert_seqs_equal!(
            s.subrange(a2, a2 + 2) == u16_be_bytes(v.parameters_formats.len() as u16),
            i => {
                assert(s.subrange(0, enc.len() as int)[a2 + i] == enc[a2 + i]);
            }
        );
        lemma_u16_at_of(s, a2, v.parameters_formats.len() as u16);
        let a3 = a2 + 2;
        vstd::assert_seqs_equal!(s.subrange(a3, a3 + ef1.len() as int) == ef1, i => {
            assert(s.subrange(0, enc.len() as int)[a3 + i] == enc[a3 + i]);
        });
        lemma_formats_round(s, a3, v.parameters_formats);
        let a4 = a3 + ef1.len() as int;
        vstd::assert_seqs_equal!(
            s.subrange(a4, a4 + 2) == u16_be_bytes(v.parameters_values.len() as u16),
            i => {
                assert(s.subrange(0, enc.len() as int)[a4 + i] == enc[a4 + i]);
            }
        );
        lemma_u16_at_of(s, a4, v.parameters_values.len() as u16);
        let a5 = a4 + 2;
        vstd::assert_seqs_equal!(s.subrange(a5, a5 + ev.len() as int) == ev, i => {
            assert(s.subrange(0, enc.len() as int)[a5 + i] == enc[a5 + i]);
        });
        lemma_values_round(s, a5, v.parameters_values);
        let a6 = a5 + ev.len() as int;
        vstd::assert_seqs_equal!(
            s.subrange(a6, a6 + 2) == u16_be_bytes(v.results_formats.len() as u16),
            i => {
                assert(s.subrange(0, enc.len() as int)[a6 + i] == enc[a6 + i]);
            }
        );
        lemma_u16_at_of(s, a6, v.results_formats.len() as u16);
        let a7 = a6 + 2;
        vstd::assert_seqs_equal!(s.subrange(a7, a7 + ef2.len() as int) == ef2, i => {
            assert(s.subrange(0, enc.len() as int)[a7 + i] == enc[a7 + i]);
        });
        lemma_formats_round(s, a7, v.results_formats);
    }

    pub fn decode_body(bytes: &mut BytesSource) -> (r: DecodeResult<Bind>)
        requires
            old(bytes).wf(),
        ensures
            final(bytes).wf(),
            final(bytes).all() == old(bytes).all(),
            match Bind::sp_decode(old(bytes).all(), old(bytes).at()) {
                Taken::Got(v, q) => r matches Ok(m) && m@ == v && final(bytes).at() == q,
                Taken::Short(e) => r == DecodeResult::<Bind>::Err(e),
            },
    {
        let prepared_statement_name = match Text::decode(bytes) {
            Ok(x) => x,
            Err(e) => { return Err(e); },
        };
        let portal_name = match Text::decode(bytes) {
            Ok(x) => x,
            Err(e) => { return Err(e); },
        };
        let n1 = match bytes.take_u16() {
            Ok(x) => x,
            Err(e) => { return Err(e); },
        };
        let parameters_formats = match decode_formats(n1 as usize, bytes) {
            Ok(x) => x,
            Err(e) => { return Err(e); },
        };
        let n2 = match bytes.take_u16() {
            Ok(x) => x,
            Err(e) => { return Err(e); },
        };
        let parameters_values = match decode_values(n2 as usize, bytes) {
            Ok(x) => x,
            Err(e) => { return Err(e); },
        };
        let n3 = match bytes.take_u16() {
            Ok(x) => x,
            Err(e) => { return Err(e); },
        };
        let results_formats = match decode_formats(n3 as usize, bytes) {
            Ok(x) => x,
            Err(e) => { return Err(e); },
        };
        Ok(Bind {
            prepared_statement_name,
            portal_name,
            parameters_formats,
            parameters_values,
            results_formats,
        })
    }
}

} // verus!
