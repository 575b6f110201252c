//! The `SASLInitialResponse` message: the chosen mechanism and its first
//! data, whose declared length may be `-1` for "absent".

use vstd::prelude::*;
use crate::decode::{
    BytesSource, DecodeResult, Incorrectness, Problem, Taken, lemma_until_null_of, sp_take,
    sp_u32, sp_until_null,
};
use crate::encode::{lemma_u32_at_of, no_null, push_bytes, push_text, push_u32_be, u32_be_bytes};

verus! {

#[derive(Clone, Debug, PartialEq, Eq)]
pub struct SaslInitialResponse {
    pub selected_mechanism: Vec<u8>,
    pub mechanism_data: Option<Vec<u8>>,
}

/// The mathematical shape of a `SaslInitialResponse`.
pub struct SaslInitialResponseV {
    pub selected_mechanism: Seq<u8>,
    pub mechanism_data: Option<Seq<u8>>,
}

impl View for SaslInitialResponse {
    type V = SaslInitialResponseV;

    open spec fn view(&self) -> SaslInitialResponseV {
        SaslInitialResponseV {
            selected_mechanism: self.selected_mechanism@,
            mechanism_data: match self.mechanism_data {
                Some(ref d) => Some(d@),
                None => None,
            },
        }
    }
}

impl SaslInitialResponse {
    pub open spec fn type_byte() -> u8 {
        0x70
    }

    /// The mechanism name, then an `i32` data length: `-1` means no data, a
    /// non-negative length prefixes that many raw bytes, anything below `-1`
    /// is incorrect.
    pub open spec fn sp_decode(s: Seq<u8>, p: int) -> Taken<SaslInitialResponseV> {
        match sp_until_null(s, p) {
            Taken::Got(selected_mechanism, q) => match sp_u32(s, q) {
                Taken::Got(x, q2) => {
                    let len = x as i32;
                    if len == -1 {
                        Taken::Got(
                            SaslInitialResponseV { selected_mechanism, mechanism_data: None },
                            q2,
                        )
                    } else if len >= 0 {
                        match sp_take(s, q2, len as int) {
                            Taken::Got(d, q3) => Taken::Got(
                                SaslInitialResponseV {
                                    selected_mechanism,
                                    mechanism_data: Some(d),
                                },
                                q3,
                            ),
                            Taken::Short(e) => Taken::Short(e),
                        }
                    } else {
                        Taken::Short(
                            Problem::Incorrect(Incorrectness::MechanismDataLength(len)),
                        )
                    }
                },
                Taken::Short(e) => Taken::Short(e),
            },
            Taken::Short(e) => Taken::Short(e),
        }
    }

    /// The mechanism with its terminator, then the data length and data, or
    /// `-1` for absent data.
    pub open spec fn sp_encode(v: SaslInitialResponseV) -> Seq<u8> {
        v.selected_mechanism + seq![0u8] + (match v.mechanism_data {
            Some(d) => u32_be_bytes(d.len() as u32) + d,
            None => u32_be_bytes(0xffffffff),
        })
    }

    /// What lets the message travel the wire unchanged.
    pub open spec fn wire_ok(v: SaslInitialResponseV) -> bool {
        no_null(v.selected_mechanism) && (match v.mechanism_data {
            Some(d) => d.len() <= 0x7fffffff,
            None => true,
        })
    }

    pub fn encode_body(&self) -> (r: Vec<u8>)
        requires
            (match self@.mechanism_data {
                Some(d) => d.len() <= 0x7fffffff,
                None => true,
            }),
        ensures
            r@ == SaslInitialResponse::sp_encode(self@),
    {
        let mut out: Vec<u8> = Vec::new();
        push_text(&mut out, &self.selected_mechanism);
        match &self.mechanism_data {
            Some(d) => {
                push_u32_be(&mut out, d.len() as u32);
                push_bytes(&mut out, d);
            },
            None => {
                push_u32_be(&mut out, 0xffffffff);
            },
        }
        proof {
            assert(out@ =~= SaslInitialResponse::sp_encode(self@));
        }
        out
    }

    /// Decoding an encoded body gives the message back.
    pub proof fn lemma_round_trip(v: SaslInitialResponseV)
        requires
            SaslInitialResponse::wire_ok(v),
        ensures
            SaslInitialResponse::sp_decode(SaslInitialResponse::sp_encode(v), 0) == Taken::<
                SaslInitialResponseV,
            >::Got(v, SaslInitialResponse::sp_encode(v).len() as int),
    {
        let s = SaslInitialResponse::sp_encode(v);
        let n = v.selected_mechanism.len() as int;
        assert(s.subrange(0, n) =~= v.selected_mechanism);
        assert(s[n] == 0);
        lemma_until_null_of(s, 0, v.selected_mechanism);
        match v.mechanism_data {
            Some(d) => {
                assert(s.subrange(n + 1, n + 5) =~= u32_be_bytes(d.len() as u32));
                lemma_u32_at_of(s, n + 1, d.len() as u32);
                let n32 = d.len() as u32;
                assert(n32 as i32 >= 0 && n32 as i32 == n32) by (bit_vector)
                    requires
                        n32 <= 0x7fffffffu32,
                ;
                assert(s.subrange(n + 5, n + 5 + d.len() as int) =~= d);
            },
            None => {
                assert(s.subrange(n + 1, n + 5) =~= u32_be_bytes(0xffffffff));
                lemma_u32_at_of(s, n + 1, 0xffffffff);
                assert(0xffffffffu32 as i32 == -1i32) by (bit_vector);
            },
        }
    }

    pub fn decode_body(bytes: &mut BytesSource) -> (r: DecodeResult<SaslInitialResponse>)
        requires
            old(bytes).wf(),
        ensures
            final(bytes).wf(),
            final(bytes).all() == old(bytes).all(),
            match SaslInitialResponse::sp_decode(old(bytes).all(), old(bytes).at()) {
                Taken::Got(v, q) => r matches Ok(m) && m@ == v && final(bytes).at() == q,
                Taken::Short(e) => r == DecodeResult::<SaslInitialResponse>::Err(e),
            },
    {
        let selected_mechanism = match bytes.take_until_null() {
            Ok(x) => x,
            Err(e) => { return Err(e); },
        };
        let x = match bytes.take_u32() {
            Ok(x) => x,
            Err(e) => { return Err(e); },
        };
        let len = x as i32;
        if len == -1 {
            Ok(SaslInitialResponse { selected_mechanism, mechanism_data: None })
        } else if len >= 0 {
            let d = match bytes.take_vec(len as usize) {
                Ok(x) => x,
                Err(e) => { return Err(e); },
            };
            Ok(SaslInitialResponse { selected_mechanism, mechanism_data: Some(d) })
        } else {
            Err(Problem::Incorrect(Incorrectness::MechanismDataLength(len)))
        }
    }
}

} // verus!
