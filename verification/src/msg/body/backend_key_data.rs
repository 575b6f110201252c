//! The `BackendKeyData` message: cancellation credentials for the session.

use vstd::prelude::*;
use crate::decode::{BytesSource, DecodeResult, Taken, sp_u32};
use crate::encode::{lemma_u32_at_of, push_u32_be, u32_be_bytes};

verus! {

#[derive(Clone, Copy, Debug, PartialEq, Eq, Structural)]
pub struct BackendKeyData {
    pub process_id: u32,
    pub secret_key: u32,
}

impl BackendKeyData {
    pub open spec fn type_byte() -> u8 {
        0x4b
    }

    /// Two big-endian `u32` words: the process id, then the secret key.
    pub open spec fn sp_decode(s: Seq<u8>, p: int) -> Taken<BackendKeyData> {
        match sp_u32(s, p) {
            Taken::Got(process_id, q) => match sp_u32(s, q) {
                Taken::Got(secret_key, r) => Taken::Got(BackendKeyData { process_id, secret_key }, r),
                Taken::Short(e) => Taken::Short(e),
            },
            Taken::Short(e) => Taken::Short(e),
        }
    }

    /// Two big-endian words: the process id, then the secret key.
    pub open spec fn sp_encode(v: BackendKeyData) -> Seq<u8> {
        u32_be_bytes(v.process_id) + u32_be_bytes(v.secret_key)
    }

    pub fn encode_body(&self) -> (r: Vec<u8>)
        ensures
            r@ == BackendKeyData::sp_encode(*self),
    {
        let mut out: Vec<u8> = Vec::new();
        push_u32_be(&mut out, self.process_id);
        push_u32_be(&mut out, self.secret_key);
        proof {
            assert(out@ =~= BackendKeyData::sp_encode(*self));
        }
        out
    }

    /// Decoding an encoded body gives the message back.
    pub proof fn lemma_round_trip(v: BackendKeyData)
        ensures
            BackendKeyData::sp_decode(BackendKeyData::sp_encode(v), 0) == Taken::<
                BackendKeyData,
            >::Got(v, BackendKeyData::sp_encode(v).len() as int),
    {
        let s = BackendKeyData::sp_encode(v);
        assert(s.subrange(0, 4) =~= u32_be_bytes(v.process_id));
        assert(s.subrange(4, 8) =~= u32_be_bytes(v.secret_key));
        lemma_u32_at_of(s, 0, v.process_id);
        lemma_u32_at_of(s, 4, v.secret_key);
    }

    pub fn decode_body(bytes: &mut BytesSource) -> (r: DecodeResult<BackendKeyData>)
        requires
            old(bytes).wf(),
        ensures
            final(bytes).wf(),
            final(bytes).all() == old(bytes).all(),
            match BackendKeyData::sp_decode(old(bytes).all(), old(bytes).at()) {
                Taken::Got(v, q) => r == DecodeResult::<BackendKeyData>::Ok(v) && final(bytes).at()
                    == q,
                Taken::Short(e) => r == DecodeResult::<BackendKeyData>::Err(e),
            },
    {
        let process_id = match bytes.take_u32() {
            Ok(x) => x,
            Err(e) => { return Err(e); },
        };
        let secret_key = match bytes.take_u32() {
            Ok(x) => x,
            Err(e) => { return Err(e); },
        };
        Ok(BackendKeyData { process_id, secret_key })
    }
}

} // verus!
