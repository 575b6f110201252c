//! The empty-body `Sync` message.

use vstd::prelude::*;
use crate::decode::{BytesSource, DecodeResult, Taken};

verus! {

#[derive(Clone, Debug, PartialEq, Eq, Structural)]
pub struct Sync();

impl Sync {
    pub open spec fn type_byte() -> u8 {
        0x53
    }

    /// Decoding consumes nothing: the body is empty.
    pub open spec fn sp_decode(s: Seq<u8>, p: int) -> Taken<Sync> {
        Taken::Got(Sync(), p)
    }

    /// The empty body.
    pub open spec fn sp_encode(v: Sync) -> Seq<u8> {
        Seq::empty()
    }

    pub fn encode_body(&self) -> (r: Vec<u8>)
        ensures
            r@ == Sync::sp_encode(*self),
    {
        let r: Vec<u8> = Vec::new();
        proof {
            assert(r@ =~= Sync::sp_encode(*self));
        }
        r
    }

    /// Decoding an encoded body gives the message back.
    pub proof fn lemma_round_trip(v: Sync)
        ensures
            Sync::sp_decode(Sync::sp_encode(v), 0) == Taken::<Sync>::Got(
                v,
                Sync::sp_encode(v).len() as int,
            ),
    {
        assert(v == (Sync()));
    }

    pub fn decode_body(bytes: &mut BytesSource) -> (r: DecodeResult<Sync>)
        requires
            old(bytes).wf(),
        ensures
            final(bytes).wf(),
            final(bytes).all() == old(bytes).all(),
            match Sync::sp_decode(old(bytes).all(), old(bytes).at()) {
                Taken::Got(v, q) => r == DecodeResult::<Sync>::Ok(v) && final(bytes).at() == q,
                Taken::Short(e) => r == DecodeResult::<Sync>::Err(e),
            },
    {
        Ok(Sync())
    }
}

} // verus!
