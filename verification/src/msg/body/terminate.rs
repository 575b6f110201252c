//! The empty-body `Terminate` message.

use vstd::prelude::*;
use crate::decode::{BytesSource, DecodeResult, Taken};

verus! {

#[derive(Clone, Debug, PartialEq, Eq, Structural)]
pub struct Terminate {}

impl Terminate {
    pub open spec fn type_byte() -> u8 {
        0x58
    }

    /// Decoding consumes nothing: the body is empty.
    pub open spec fn sp_decode(s: Seq<u8>, p: int) -> Taken<Terminate> {
        Taken::Got(Terminate {}, p)
    }

    /// The empty body.
    pub open spec fn sp_encode(v: Terminate) -> Seq<u8> {
        Seq::empty()
    }

    pub fn encode_body(&self) -> (r: Vec<u8>)
        ensures
            r@ == Terminate::sp_encode(*self),
    {
        let r: Vec<u8> = Vec::new();
        proof {
            assert(r@ =~= Terminate::sp_encode(*self));
        }
        r
    }

    /// Decoding an encoded body gives the message back.
    pub proof fn lemma_round_trip(v: Terminate)
        ensures
            Terminate::sp_decode(Terminate::sp_encode(v), 0) == Taken::<Terminate>::Got(
                v,
                Terminate::sp_encode(v).len() as int,
            ),
    {
        assert(v == (Terminate {}));
    }

    pub fn decode_body(bytes: &mut BytesSource) -> (r: DecodeResult<Terminate>)
        requires
            old(bytes).wf(),
        ensures
            final(bytes).wf(),
            final(bytes).all() == old(bytes).all(),
            match Terminate::sp_decode(old(bytes).all(), old(bytes).at()) {
                Taken::Got(v, q) => r == DecodeResult::<Terminate>::Ok(v) && final(bytes).at() == q,
                Taken::Short(e) => r == DecodeResult::<Terminate>::Err(e),
            },
    {
        Ok(Terminate {})
    }
}

} // verus!
