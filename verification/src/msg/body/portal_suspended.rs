//! The empty-body `PortalSuspended` message.

use vstd::prelude::*;
use crate::decode::{BytesSource, DecodeResult, Taken};

verus! {

#[derive(Clone, Debug, PartialEq, Eq, Structural)]
pub struct PortalSuspended();

impl PortalSuspended {
    pub open spec fn type_byte() -> u8 {
        0x73
    }

    /// Decoding consumes nothing: the body is empty.
    pub open spec fn sp_decode(s: Seq<u8>, p: int) -> Taken<PortalSuspended> {
        Taken::Got(PortalSuspended(), p)
    }

    /// The empty body.
    pub open spec fn sp_encode(v: PortalSuspended) -> Seq<u8> {
        Seq::empty()
    }

    pub fn encode_body(&self) -> (r: Vec<u8>)
        ensures
            r@ == PortalSuspended::sp_encode(*self),
    {
        let r: Vec<u8> = Vec::new();
        proof {
            assert(r@ =~= PortalSuspended::sp_encode(*self));
        }
        r
    }

    /// Decoding an encoded body gives the message back.
    pub proof fn lemma_round_trip(v: PortalSuspended)
        ensures
            PortalSuspended::sp_decode(PortalSuspended::sp_encode(v), 0) == Taken::<PortalSuspended>::Got(
                v,
                PortalSuspended::sp_encode(v).len() as int,
            ),
    {
        assert(v == (PortalSuspended()));
    }

    pub fn decode_body(bytes: &mut BytesSource) -> (r: DecodeResult<PortalSuspended>)
        requires
            old(bytes).wf(),
        ensures
            final(bytes).wf(),
            final(bytes).all() == old(bytes).all(),
            match PortalSuspended::sp_decode(old(bytes).all(), old(bytes).at()) {
                Taken::Got(v, q) => r == DecodeResult::<PortalSuspended>::Ok(v) && final(bytes).at() == q,
                Taken::Short(e) => r == DecodeResult::<PortalSuspended>::Err(e),
            },
    {
        Ok(PortalSuspended())
    }
}

} // verus!
