//! The `ReadyForQuery` message: the backend's transaction status.

use vstd::prelude::*;
use crate::decode::{BytesSource, DecodeResult, Problem, Taken, Unrecognized, sp_u8};

verus! {

#[derive(Clone, Copy, Debug, PartialEq, Eq, Structural)]
pub enum Status {
    Idle,
    Transaction,
    Error,
}

#[derive(Clone, Copy, Debug, PartialEq, Eq, Structural)]
pub struct ReadyForQuery {
    pub status: Status,
}

impl ReadyForQuery {
    pub open spec fn type_byte() -> u8 {
        0x5a
    }

    /// One status byte: `I` idle, `T` in a transaction, `E` in a failed
    /// transaction; anything else is unknown.
    pub open spec fn sp_decode(s: Seq<u8>, p: int) -> Taken<ReadyForQuery> {
        match sp_u8(s, p) {
            Taken::Got(b, q) => if b == 0x49 {
                Taken::Got(ReadyForQuery { status: Status::Idle }, q)
            } else if b == 0x54 {
                Taken::Got(ReadyForQuery { status: Status::Transaction }, q)
            } else if b == 0x45 {
                Taken::Got(ReadyForQuery { status: Status::Error }, q)
            } else {
                Taken::Short(Problem::Unknown(Unrecognized::QueryStatus(b)))
            },
            Taken::Short(e) => Taken::Short(e),
        }
    }

    /// One status byte.
    pub open spec fn sp_encode(v: ReadyForQuery) -> Seq<u8> {
        match v.status {
            Status::Idle => seq![0x49u8],
            Status::Transaction => seq![0x54u8],
            Status::Error => seq![0x45u8],
        }
    }

    pub fn encode_body(&self) -> (r: Vec<u8>)
        ensures
            r@ == ReadyForQuery::sp_encode(*self),
    {
        let mut out: Vec<u8> = Vec::new();
        match self.status {
            Status::Idle => out.push(0x49),
            Status::Transaction => out.push(0x54),
            Status::Error => out.push(0x45),
        }
        proof {
            assert(out@ =~= ReadyForQuery::sp_encode(*self));
        }
        out
    }

    /// Decoding an encoded body gives the message back.
    pub proof fn lemma_round_trip(v: ReadyForQuery)
        ensures
            ReadyForQuery::sp_decode(ReadyForQuery::sp_encode(v), 0) == Taken::<
                ReadyForQuery,
            >::Got(v, ReadyForQuery::sp_encode(v).len() as int),
    {
    }

    pub fn decode_body(bytes: &mut BytesSource) -> (r: DecodeResult<ReadyForQuery>)
        requires
            old(bytes).wf(),
        ensures
            final(bytes).wf(),
            final(bytes).all() == old(bytes).all(),
            match ReadyForQuery::sp_decode(old(bytes).all(), old(bytes).at()) {
                Taken::Got(v, q) => r == DecodeResult::<ReadyForQuery>::Ok(v) && final(bytes).at()
                    == q,
                Taken::Short(e) => r == DecodeResult::<ReadyForQuery>::Err(e),
            },
    {
        let b = match bytes.take_u8() {
            Ok(x) => x,
            Err(e) => { return Err(e); },
        };
        match b {
            0x49 => Ok(ReadyForQuery { status: Status::Idle }),
            0x54 => Ok(ReadyForQuery { status: Status::Transaction }),
            0x45 => Ok(ReadyForQuery { status: Status::Error }),
            _ => Err(Problem::Unknown(Unrecognized::QueryStatus(b))),
        }
    }
}

} // verus!
