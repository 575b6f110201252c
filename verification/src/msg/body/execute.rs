//! The `Execute` message: run a portal with a row-count limit.

use vstd::prelude::*;
use crate::decode::{BytesSource, DecodeResult, Taken, lemma_until_null_of, sp_u32, sp_until_null};
use crate::encode::{lemma_u32_at_of, no_null, push_text, push_u32_be, u32_be_bytes};
use crate::msg::parts::Text;

verus! {

#[derive(Clone, Debug, PartialEq, Eq)]
pub struct Execute {
    pub portal_name: Text,
    pub rows_limit: u32,
}

/// The mathematical shape of an `Execute`.
pub struct ExecuteV {
    pub portal_name: Seq<u8>,
    pub rows_limit: u32,
}

impl View for Execute {
    type V = ExecuteV;

    open spec fn view(&self) -> ExecuteV {
        ExecuteV { portal_name: self.portal_name@, rows_limit: self.rows_limit }
    }
}

impl Execute {
    pub open spec fn type_byte() -> u8 {
        0x45
    }

    /// A null-terminated portal name, then a `u32` row limit (`0` means
    /// unlimited).
    pub open spec fn sp_decode(s: Seq<u8>, p: int) -> Taken<ExecuteV> {
        match sp_until_null(s, p) {
            Taken::Got(portal_name, q) => match sp_u32(s, q) {
                Taken::Got(rows_limit, r) => Taken::Got(ExecuteV { portal_name, rows_limit }, r),
                Taken::Short(e) => Taken::Short(e),
            },
            Taken::Short(e) => Taken::Short(e),
        }
    }

    /// The portal name with its terminator, then the row limit.
    pub open spec fn sp_encode(v: ExecuteV) -> Seq<u8> {
        v.portal_name + seq![0u8] + u32_be_bytes(v.rows_limit)
    }

    pub fn encode_body(&self) -> (r: Vec<u8>)
        ensures
            r@ == Execute::sp_encode(self@),
    {
        let mut out: Vec<u8> = Vec::new();
        push_text(&mut out, &self.portal_name.0);
        push_u32_be(&mut out, self.rows_limit);
        proof {
            assert(out@ =~= Execute::sp_encode(self@));
        }
        out
    }

    /// Decoding an encoded body gives the message back, provided the portal
    /// name holds no null byte.
    pub proof fn lemma_round_trip(v: ExecuteV)
        requires
            no_null(v.portal_name),
        ensures
            Execute::sp_decode(Execute::sp_encode(v), 0) == Taken::<ExecuteV>::Got(
                v,
                Execute::sp_encode(v).len() as int,
            ),
    {
        let s = Execute::sp_encode(v);
        let n = v.portal_name.len() as int;
        assert(s.subrange(0, n) =~= v.portal_name);
        assert(s[n] == 0);
        lemma_until_null_of(s, 0, v.portal_name);
        assert(s.subrange(n + 1, n + 5) =~= u32_be_bytes(v.rows_limit));
        lemma_u32_at_of(s, n + 1, v.rows_limit);
    }

    pub fn decode_body(bytes: &mut BytesSource) -> (r: DecodeResult<Execute>)
        requires
            old(bytes).wf(),
        ensures
            final(bytes).wf(),
            final(bytes).all() == old(bytes).all(),
            match Execute::sp_decode(old(bytes).all(), old(bytes).at()) {
                Taken::Got(v, q) => r matches Ok(m) && m@ == v && final(bytes).at() == q,
                Taken::Short(e) => r == DecodeResult::<Execute>::Err(e),
            },
    {
        let portal_name = match Text::decode(bytes) {
            Ok(x) => x,
            Err(e) => { return Err(e); },
        };
        let rows_limit = match bytes.take_u32() {
            Ok(x) => x,
            Err(e) => { return Err(e); },
        };
        Ok(Execute { portal_name, rows_limit })
    }
}

} // verus!
