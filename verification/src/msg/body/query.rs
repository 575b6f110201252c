//! The `Query` message: one simple SQL query string.

use vstd::prelude::*;
use crate::decode::{BytesSource, DecodeResult, Taken, lemma_until_null_of, sp_until_null};
use crate::encode::{no_null, push_text};

verus! {

#[derive(Clone, Debug, PartialEq, Eq)]
pub struct Query(pub Vec<u8>);

impl View for Query {
    type V = Seq<u8>;

    open spec fn view(&self) -> Seq<u8> {
        self.0@
    }
}

impl Query {
    pub open spec fn type_byte() -> u8 {
        0x51
    }

    /// One null-terminated SQL string.
    pub open spec fn sp_decode(s: Seq<u8>, p: int) -> Taken<Seq<u8>> {
        sp_until_null(s, p)
    }

    /// The bytes followed by their null terminator.
    pub open spec fn sp_encode(v: Seq<u8>) -> Seq<u8> {
        v + seq![0u8]
    }

    pub fn encode_body(&self) -> (r: Vec<u8>)
        ensures
            r@ == Query::sp_encode(self@),
    {
        let mut out: Vec<u8> = Vec::new();
        push_text(&mut out, &self.0);
        proof {
            assert(out@ =~= Query::sp_encode(self@));
        }
        out
    }

    /// Decoding an encoded body gives the bytes back, provided they hold no
    /// null byte of their own.
    pub proof fn lemma_round_trip(v: Seq<u8>)
        requires
            no_null(v),
        ensures
            Query::sp_decode(Query::sp_encode(v), 0) == Taken::<Seq<u8>>::Got(
                v,
                Query::sp_encode(v).len() as int,
            ),
    {
        let s = Query::sp_encode(v);
        assert(s.subrange(0, v.len() as int) =~= v);
        assert(s[v.len() as int] == 0);
        lemma_until_null_of(s, 0, v);
    }

    pub fn decode_body(bytes: &mut BytesSource) -> (r: DecodeResult<Query>)
        requires
            old(bytes).wf(),
        ensures
            final(bytes).wf(),
            final(bytes).all() == old(bytes).all(),
            match Query::sp_decode(old(bytes).all(), old(bytes).at()) {
                Taken::Got(v, q) => r matches Ok(m) && m@ == v && final(bytes).at() == q,
                Taken::Short(e) => r == DecodeResult::<Query>::Err(e),
            },
    {
        let sql = match bytes.take_until_null() {
            Ok(x) => x,
            Err(e) => { return Err(e); },
        };
        Ok(Query(sql))
    }
}

} // verus!
