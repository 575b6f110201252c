//! The PostgreSQL protocol messages: their shapes, codecs and framing.

pub mod body;
pub mod parts;
pub mod type_byte;

use vstd::prelude::*;
use crate::encode::{push_bytes, push_u32_be, u32_be_bytes};
use crate::msg::body::authentication::Authentication;
use crate::msg::body::backend_key_data::BackendKeyData;
use crate::msg::body::command_complete::CommandComplete;
use crate::msg::body::data_row::DataRow;
use crate::msg::body::error_and_notice_responses::ErrorResponse;
use crate::msg::body::initial::Initial;
use crate::msg::body::parameter_status::ParameterStatus;
use crate::msg::body::query::Query;
use crate::msg::body::ready_for_query::ReadyForQuery;
use crate::msg::body::row_description::RowDescription;
use crate::msg::body::terminate::Terminate;

verus! {

/// A message one of the simple readers left undecoded, noted by its type
/// byte.
#[derive(Clone, Debug, PartialEq, Eq)]
pub struct Unknown {
    pub note: String,
}

/// A backend message as the simple reading interface surfaces it.
#[derive(Clone, Debug, PartialEq, Eq)]
pub enum BackendMessage {
    Authentication(Authentication),
    BackendKeyData(BackendKeyData),
    CommandComplete(CommandComplete),
    DataRow(DataRow),
    ErrorResponse(ErrorResponse),
    ParameterStatus(ParameterStatus),
    ReadyForQuery(ReadyForQuery),
    RowDescription(RowDescription),
    Unknown(Unknown),
}

/// A frontend message as the simple reading interface surfaces it.
#[derive(Clone, Debug, PartialEq, Eq)]
pub enum FrontendMessage {
    Query(Query),
    Initial(Initial),
    Terminate(Terminate),
    Unknown(Unknown),
}

/// Builds a whole wire frame around an encoded body: the type byte when the
/// kind carries one, the inclusive length word, then the body.
pub fn frame_bytes(tag: Option<u8>, body: &Vec<u8>) -> (r: Vec<u8>)
    requires
        body@.len() + 4 <= u32::MAX,
    ensures
        r@ == (match tag {
            Some(t) => seq![t],
            None => Seq::<u8>::empty(),
        }) + u32_be_bytes((body@.len() + 4) as u32) + body@,
{
    let mut out: Vec<u8> = Vec::new();
    match tag {
        Some(t) => out.push(t),
        None => {},
    }
    push_u32_be(&mut out, (body.len() + 4) as u32);
    push_bytes(&mut out, body);
    proof {
        assert(out@ =~= (match tag {
            Some(t) => seq![t],
            None => Seq::<u8>::empty(),
        }) + u32_be_bytes((body@.len() + 4) as u32) + body@);
    }
    out
}

} // verus!
