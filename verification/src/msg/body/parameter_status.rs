//! The `ParameterStatus` message: one server parameter and its value.

use vstd::prelude::*;
use crate::decode::{BytesSource, DecodeResult, Taken, lemma_until_null_of, sp_until_null};
use crate::encode::{no_null, push_text};

verus! {

#[derive(Clone, Debug, PartialEq, Eq)]
pub struct ParameterStatus {
    pub name: Vec<u8>,
    pub value: Vec<u8>,
}

impl View for ParameterStatus {
    type V = (Seq<u8>, Seq<u8>);

    open spec fn view(&self) -> (Seq<u8>, Seq<u8>) {
        (self.name@, self.value@)
    }
}

impl ParameterStatus {
    pub open spec fn type_byte() -> u8 {
        0x53
    }

    pub fn new(name: Vec<u8>, value: Vec<u8>) -> (r: Self)
        ensures
            r@ == (name@, value@),
    {
        Self { name, value }
    }

    /// Two null-terminated strings: the parameter name, then its value.
    pub open spec fn sp_decode(s: Seq<u8>, p: int) -> Taken<(Seq<u8>, Seq<u8>)> {
        match sp_until_null(s, p) {
            Taken::Got(name, q) => match sp_until_null(s, q) {
                Taken::Got(value, r) => Taken::Got((name, value), r),
                Taken::Short(e) => Taken::Short(e),
            },
            Taken::Short(e) => Taken::Short(e),
        }
    }

    /// The name and the value, each with its null terminator.
    pub open spec fn sp_encode(v: (Seq<u8>, Seq<u8>)) -> Seq<u8> {
        v.0 + seq![0u8] + v.1 + seq![0u8]
    }

    pub fn encode_body(&self) -> (r: Vec<u8>)
        ensures
            r@ == ParameterStatus::sp_encode(self@),
    {
        let mut out: Vec<u8> = Vec::new();
        push_text(&mut out, &self.name);
        push_text(&mut out, &self.value);
        proof {
            assert(out@ =~= ParameterStatus::sp_encode(self@));
        }
        out
    }

    /// Decoding an encoded body gives the pair back, provided neither half
    /// holds a null byte of its own.
    pub proof fn lemma_round_trip(v: (Seq<u8>, Seq<u8>))
        requires
            no_null(v.0),
            no_null(v.1),
        ensures
            ParameterStatus::sp_decode(ParameterStatus::sp_encode(v), 0) == Taken::<
                (Seq<u8>, Seq<u8>),
            >::Got(v, ParameterStatus::sp_encode(v).len() as int),
    {
        let s = ParameterStatus::sp_encode(v);
        let n0 = v.0.len() as int;
        let n1 = v.1.len() as int;
        assert(s.subrange(0, n0) =~= v.0);
        assert(s[n0] == 0);
        lemma_until_null_of(s, 0, v.0);
        assert(s.subrange(n0 + 1, n0 + 1 + n1) =~= v.1);
        assert(s[n0 + 1 + n1] == 0);
        lemma_until_null_of(s, n0 + 1, v.1);
    }

    pub fn decode_body(bytes: &mut BytesSource) -> (r: DecodeResult<ParameterStatus>)
        requires
            old(bytes).wf(),
        ensures
            final(bytes).wf(),
            final(bytes).all() == old(bytes).all(),
            match ParameterStatus::sp_decode(old(bytes).all(), old(bytes).at()) {
                Taken::Got(v, q) => r matches Ok(m) && m@ == v && final(bytes).at() == q,
                Taken::Short(e) => r == DecodeResult::<ParameterStatus>::Err(e),
            },
    {
        let name = match bytes.take_until_null() {
            Ok(x) => x,
            Err(e) => { return Err(e); },
        };
        let value = match bytes.take_until_null() {
            Ok(x) => x,
            Err(e) => { return Err(e); },
        };
        Ok(ParameterStatus { name, value })
    }
}

} // verus!
