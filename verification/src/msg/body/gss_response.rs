//! The `GSSResponse` message: opaque GSSAPI or SSPI data.

use vstd::prelude::*;
use crate::decode::{BytesSource, DecodeResult, Taken};
use crate::encode::push_bytes;

verus! {

#[derive(Clone, Debug, PartialEq, Eq)]
pub struct GssResponse(pub Vec<u8>);

impl View for GssResponse {
    type V = Seq<u8>;

    open spec fn view(&self) -> Seq<u8> {
        self.0@
    }
}

impl GssResponse {
    pub open spec fn type_byte() -> u8 {
        0x70
    }

    /// All the remaining bytes of the body.
    pub open spec fn sp_decode(s: Seq<u8>, p: int) -> Taken<Seq<u8>> {
        Taken::Got(s.subrange(p, s.len() as int), s.len() as int)
    }

    /// The raw bytes as they stand.
    pub open spec fn sp_encode(v: Seq<u8>) -> Seq<u8> {
        v
    }

    pub fn encode_body(&self) -> (r: Vec<u8>)
        ensures
            r@ == GssResponse::sp_encode(self@),
    {
        let mut out: Vec<u8> = Vec::new();
        push_bytes(&mut out, &self.0);
        proof {
            assert(out@ =~= GssResponse::sp_encode(self@));
        }
        out
    }

    /// Decoding an encoded body gives the bytes back.
    pub proof fn lemma_round_trip(v: Seq<u8>)
        ensures
            GssResponse::sp_decode(GssResponse::sp_encode(v), 0) == Taken::<Seq<u8>>::Got(
                v,
                GssResponse::sp_encode(v).len() as int,
            ),
    {
        assert(v.subrange(0, v.len() as int) =~= v);
    }

    pub fn decode_body(bytes: &mut BytesSource) -> (r: DecodeResult<GssResponse>)
        requires
            old(bytes).wf(),
        ensures
            final(bytes).wf(),
            final(bytes).all() == old(bytes).all(),
            match GssResponse::sp_decode(old(bytes).all(), old(bytes).at()) {
                Taken::Got(v, q) => r matches Ok(m) && m@ == v && final(bytes).at() == q,
                Taken::Short(e) => r == DecodeResult::<GssResponse>::Err(e),
            },
    {
        let n = bytes.left();
        let data = match bytes.take_vec(n) {
            Ok(x) => x,
            Err(e) => { return Err(e); },
        };
        Ok(GssResponse(data))
    }
}

} // verus!
