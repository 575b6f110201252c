//! The empty-body `BindComplete` message.

use vstd::prelude::*;
use crate::decode::{BytesSource, DecodeResult, Taken};

verus! {

#[derive(Clone, Debug, PartialEq, Eq, Structural)]
pub struct BindComplete();

impl BindComplete {
    pub open spec fn type_byte() -> u8 {
        0x32
    }

    /// Decoding consumes nothing: the body is empty.
    pub open spec fn sp_decode(s: Seq<u8>, p: int) -> Taken<BindComplete> {
        Taken::Got(BindComplete(), p)
    }

    /// The empty body.
    pub open spec fn sp_encode(v: BindComplete) -> Seq<u8> {
        Seq::empty()
    }

    pub fn encode_body(&self) -> (r: Vec<u8>)
        ensures
            r@ == BindComplete::sp_encode(*self),
    {
        let r: Vec<u8> = Vec::new();
        proof {
            assert(r@ =~= BindComplete::sp_encode(*self));
        }
        r
    }

    /// Decoding an encoded body gives the message back.
    pub proof fn lemma_round_trip(v: BindComplete)
        ensures
            BindComplete::sp_decode(BindComplete::sp_encode(v), 0) == Taken::<BindComplete>::Got(
                v,
                BindComplete::sp_encode(v).len() as int,
            ),
    {
        assert(v == (BindComplete()));
    }

    pub fn decode_body(bytes: &mut BytesSource) -> (r: DecodeResult<BindComplete>)
        requires
            old(bytes).wf(),
        ensures
            final(bytes).wf(),
            final(bytes).all() == old(bytes).all(),
            match BindComplete::sp_decode(old(bytes).all(), old(bytes).at()) {
                Taken::Got(v, q) => r == DecodeResult::<BindComplete>::Ok(v) && final(bytes).at() == q,
                Taken::Short(e) => r == DecodeResult::<BindComplete>::Err(e),
            },
    {
        Ok(BindComplete())
    }
}

} // verus!
