//! The empty-body `ParseComplete` message.

use vstd::prelude::*;
use crate::decode::{BytesSource, DecodeResult, Taken};

verus! {

#[derive(Clone, Debug, PartialEq, Eq, Structural)]
pub struct ParseComplete();

impl ParseComplete {
    pub open spec fn type_byte() -> u8 {
        0x31
    }

    /// Decoding consumes nothing: the body is empty.
    pub open spec fn sp_decode(s: Seq<u8>, p: int) -> Taken<ParseComplete> {
        Taken::Got(ParseComplete(), p)
    }

    /// The empty body.
    pub open spec fn sp_encode(v: ParseComplete) -> Seq<u8> {
        Seq::empty()
    }

    pub fn encode_body(&self) -> (r: Vec<u8>)
        ensures
            r@ == ParseComplete::sp_encode(*self),
    {
        let r: Vec<u8> = Vec::new();
        proof {
            assert(r@ =~= ParseComplete::sp_encode(*self));
        }
        r
    }

    /// Decoding an encoded body gives the message back.
    pub proof fn lemma_round_trip(v: ParseComplete)
        ensures
            ParseComplete::sp_decode(ParseComplete::sp_encode(v), 0) == Taken::<ParseComplete>::Got(
                v,
                ParseComplete::sp_encode(v).len() as int,
            ),
    {
        assert(v == (ParseComplete()));
    }

    pub fn decode_body(bytes: &mut BytesSource) -> (r: DecodeResult<ParseComplete>)
        requires
            old(bytes).wf(),
        ensures
            final(bytes).wf(),
            final(bytes).all() == old(bytes).all(),
            match ParseComplete::sp_decode(old(bytes).all(), old(bytes).at()) {
                Taken::Got(v, q) => r == DecodeResult::<ParseComplete>::Ok(v) && final(bytes).at() == q,
                Taken::Short(e) => r == DecodeResult::<ParseComplete>::Err(e),
            },
    {
        Ok(ParseComplete())
    }
}

} // verus!
