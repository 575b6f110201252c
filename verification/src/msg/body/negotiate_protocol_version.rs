//! The `NegotiateProtocolVersion` message: the backend's counter-offer.

use vstd::prelude::*;
use crate::decode::{BytesSource, DecodeResult, Taken, sp_u32};
use crate::encode::{lemma_u32_at_of, push_u32_be, u32_be_bytes};
use crate::msg::parts::{
    Text, decode_texts, encode_texts, lemma_texts_round, sp_encode_texts, sp_texts, texts_ok,
    vec_view,
};

verus! {

#[derive(Clone, Debug, PartialEq, Eq)]
pub struct NegotiateProtocolVersion {
    pub newest_backend_minor: u32,
    pub unrecognized_options: Vec<Text>,
}

/// The mathematical shape of a `NegotiateProtocolVersion`.
pub struct NegotiateProtocolVersionV {
    pub newest_backend_minor: u32,
    pub unrecognized_options: Seq<Seq<u8>>,
}

impl View for NegotiateProtocolVersion {
    type V = NegotiateProtocolVersionV;

    open spec fn view(&self) -> NegotiateProtocolVersionV {
        NegotiateProtocolVersionV {
            newest_backend_minor: self.newest_backend_minor,
            unrecognized_options: vec_view(self.unrecognized_options),
        }
    }
}

impl NegotiateProtocolVersion {
    pub open spec fn type_byte() -> u8 {
        0x76
    }

    /// The newest supported minor version, then a `u32` count of
    /// null-terminated option names the backend did not recognize.
    pub open spec fn sp_decode(s: Seq<u8>, p: int) -> Taken<NegotiateProtocolVersionV> {
        match sp_u32(s, p) {
            Taken::Got(newest_backend_minor, q1) => match sp_u32(s, q1) {
                Taken::Got(count, q2) => match sp_texts(s, q2, count as int) {
                    Taken::Got(unrecognized_options, q3) => Taken::Got(
                        NegotiateProtocolVersionV { newest_backend_minor, unrecognized_options },
                        q3,
                    ),
                    Taken::Short(e) => Taken::Short(e),
                },
                Taken::Short(e) => Taken::Short(e),
            },
            Taken::Short(e) => Taken::Short(e),
        }
    }

    /// The newest minor version, the option count, then the option names.
    pub open spec fn sp_encode(v: NegotiateProtocolVersionV) -> Seq<u8> {
        u32_be_bytes(v.newest_backend_minor) + u32_be_bytes(v.unrecognized_options.len() as u32)
            + sp_encode_texts(v.unrecognized_options)
    }

    /// What lets the message travel the wire unchanged.
    pub open spec fn wire_ok(v: NegotiateProtocolVersionV) -> bool {
        texts_ok(v.unrecognized_options) && v.unrecognized_options.len() <= 0xffffffff
    }

    pub fn encode_body(&self) -> (r: Vec<u8>)
        requires
            self.unrecognized_options@.len() <= 0xffffffff,
        ensures
            r@ == NegotiateProtocolVersion::sp_encode(self@),
    {
        let mut out: Vec<u8> = Vec::new();
        push_u32_be(&mut out, self.newest_backend_minor);
        push_u32_be(&mut out, self.unrecognized_options.len() as u32);
        encode_texts(&self.unrecognized_options, &mut out);
        proof {
            assert(out@ =~= NegotiateProtocolVersion::sp_encode(self@));
        }
        out
    }

    /// Decoding an encoded body gives the message back.
    pub proof fn lemma_round_trip(v: NegotiateProtocolVersionV)
        requires
            NegotiateProtocolVersion::wire_ok(v),
        ensures
            NegotiateProtocolVersion::sp_decode(NegotiateProtocolVersion::sp_encode(v), 0)
                == Taken::<NegotiateProtocolVersionV>::Got(
                v,
                NegotiateProtocolVersion::sp_encode(v).len() as int,
            ),
    {
        let s = NegotiateProtocolVersion::sp_encode(v);
        assert(s.subrange(0, 4) =~= u32_be_bytes(v.newest_backend_minor));
        lemma_u32_at_of(s, 0, v.newest_backend_minor);
        assert(s.subrange(4, 8) =~= u32_be_bytes(v.unrecognized_options.len() as u32));
        lemma_u32_at_of(s, 4, v.unrecognized_options.len() as u32);
        assert(s.subrange(8, 8 + sp_encode_texts(v.unrecognized_options).len() as int)
            =~= sp_encode_texts(v.unrecognized_options));
        lemma_texts_round(s, 8, v.unrecognized_options);
    }

    pub fn decode_body(bytes: &mut BytesSource) -> (r: DecodeResult<NegotiateProtocolVersion>)
        requires
            old(bytes).wf(),
        ensures
            final(bytes).wf(),
            final(bytes).all() == old(bytes).all(),
            match NegotiateProtocolVersion::sp_decode(old(bytes).all(), old(bytes).at()) {
                Taken::Got(v, q) => r matches Ok(m) && m@ == v && final(bytes).at() == q,
                Taken::Short(e) => r == DecodeResult::<NegotiateProtocolVersion>::Err(e),
            },
    {
        let newest_backend_minor = match bytes.take_u32() {
            Ok(x) => x,
            Err(e) => { return Err(e); },
        };
        let count = match bytes.take_u32() {
            Ok(x) => x,
            Err(e) => { return Err(e); },
        };
        let unrecognized_options = match decode_texts(count as usize, bytes) {
            Ok(x) => x,
            Err(e) => { return Err(e); },
        };
        Ok(NegotiateProtocolVersion { newest_backend_minor, unrecognized_options })
    }
}

} // verus!
