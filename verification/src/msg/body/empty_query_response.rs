//! The empty-body `EmptyQueryResponse` message.

use vstd::prelude::*;
use crate::decode::{BytesSource, DecodeResult, Taken};

verus! {

#[derive(Clone, Debug, PartialEq, Eq, Structural)]
pub struct EmptyQueryResponse {}

impl EmptyQueryResponse {
    pub open spec fn type_byte() -> u8 {
        0x49
    }

    /// Decoding consumes nothing: the body is empty.
    pub open spec fn sp_decode(s: Seq<u8>, p: int) -> Taken<EmptyQueryResponse> {
        Taken::Got(EmptyQueryResponse {}, p)
    }

    /// The empty body.
    pub open spec fn sp_encode(v: EmptyQueryResponse) -> Seq<u8> {
        Seq::empty()
    }

    pub fn encode_body(&self) -> (r: Vec<u8>)
        ensures
            r@ == EmptyQueryResponse::sp_encode(*self),
    {
        let r: Vec<u8> = Vec::new();
        proof {
            assert(r@ =~= EmptyQueryResponse::sp_encode(*self));
        }
        r
    }

    /// Decoding an encoded body gives the message back.
    pub proof fn lemma_round_trip(v: EmptyQueryResponse)
        ensures
            EmptyQueryResponse::sp_decode(EmptyQueryResponse::sp_encode(v), 0) == Taken::<EmptyQueryResponse>::Got(
                v,
                EmptyQueryResponse::sp_encode(v).len() as int,
            ),
    {
        assert(v == (EmptyQueryResponse {}));
    }

    pub fn decode_body(bytes: &mut BytesSource) -> (r: DecodeResult<EmptyQueryResponse>)
        requires
            old(bytes).wf(),
        ensures
            final(bytes).wf(),
            final(bytes).all() == old(bytes).all(),
            match EmptyQueryResponse::sp_decode(old(bytes).all(), old(bytes).at()) {
                Taken::Got(v, q) => r == DecodeResult::<EmptyQueryResponse>::Ok(v) && final(bytes).at() == q,
                Taken::Short(e) => r == DecodeResult::<EmptyQueryResponse>::Err(e),
            },
    {
        Ok(EmptyQueryResponse {})
    }
}

} // verus!
