//! The one-byte message tags, and their resolution. A few bytes are shared
//! by two or more message kinds; those variants carry both names, and the
//! conveyor state decides which message is meant.

use vstd::prelude::*;

verus! {

#[allow(non_camel_case_types)]
#[derive(Clone, Copy, Debug, PartialEq, Eq, Structural)]
pub enum TypeByte {
    Authentication,
    BackendKeyData,
    Bind,
    BindComplete,
    CommandComplete,
    DataRow,
    EmptyQueryResponse,
    Execute_or_ErrorResponse,
    NoticeResponse,
    GssResponse_or_Password_or_SaslResponses,
    NegotiateProtocolVersion,
    ParameterStatus_or_Sync,
    Parse,
    ParseComplete,
    PortalSuspended,
    Query,
    ReadyForQuery,
    RowDescription,
    Terminate,
}

/// Which tag a byte names, if any.
pub open spec fn sp_type_byte_of(b: u8) -> Option<TypeByte> {
    if b == 0x52 {
        Some(TypeByte::Authentication)
    } else if b == 0x4b {
        Some(TypeByte::BackendKeyData)
    } else if b == 0x42 {
        Some(TypeByte::Bind)
    } else if b == 0x32 {
        Some(TypeByte::BindComplete)
    } else if b == 0x43 {
        Some(TypeByte::CommandComplete)
    } else if b == 0x44 {
        Some(TypeByte::DataRow)
    } else if b == 0x49 {
        Some(TypeByte::EmptyQueryResponse)
    } else if b == 0x45 {
        Some(TypeByte::Execute_or_ErrorResponse)
    } else if b == 0x4e {
        Some(TypeByte::NoticeResponse)
    } else if b == 0x70 {
        Some(TypeByte::GssResponse_or_Password_or_SaslResponses)
    } else if b == 0x76 {
        Some(TypeByte::NegotiateProtocolVersion)
    } else if b == 0x53 {
        Some(TypeByte::ParameterStatus_or_Sync)
    } else if b == 0x50 {
        Some(TypeByte::Parse)
    } else if b == 0x31 {
        Some(TypeByte::ParseComplete)
    } else if b == 0x73 {
        Some(TypeByte::PortalSuspended)
    } else if b == 0x51 {
        Some(TypeByte::Query)
    } else if b == 0x5a {
        Some(TypeByte::ReadyForQuery)
    } else if b == 0x54 {
        Some(TypeByte::RowDescription)
    } else if b == 0x58 {
        Some(TypeByte::Terminate)
    } else {
        None
    }
}

/// The byte a tag is written as.
pub open spec fn sp_byte_of(t: TypeByte) -> u8 {
    match t {
        TypeByte::Authentication => 0x52,
        TypeByte::BackendKeyData => 0x4b,
        TypeByte::Bind => 0x42,
        TypeByte::BindComplete => 0x32,
        TypeByte::CommandComplete => 0x43,
        TypeByte::DataRow => 0x44,
        TypeByte::EmptyQueryResponse => 0x49,
        TypeByte::Execute_or_ErrorResponse => 0x45,
        TypeByte::NoticeResponse => 0x4e,
        TypeByte::GssResponse_or_Password_or_SaslResponses => 0x70,
        TypeByte::NegotiateProtocolVersion => 0x76,
        TypeByte::ParameterStatus_or_Sync => 0x53,
        TypeByte::Parse => 0x50,
        TypeByte::ParseComplete => 0x31,
        TypeByte::PortalSuspended => 0x73,
        TypeByte::Query => 0x51,
        TypeByte::ReadyForQuery => 0x5a,
        TypeByte::RowDescription => 0x54,
        TypeByte::Terminate => 0x58,
    }
}

impl TypeByte {
    /// Resolves a byte read off the wire.
    pub fn of_byte(b: u8) -> (r: Option<TypeByte>)
        ensures
            r == sp_type_byte_of(b),
    {
        match b {
            0x52 => Some(TypeByte::Authentication),
            0x4b => Some(TypeByte::BackendKeyData),
            0x42 => Some(TypeByte::Bind),
            0x32 => Some(TypeByte::BindComplete),
            0x43 => Some(TypeByte::CommandComplete),
            0x44 => Some(TypeByte::DataRow),
            0x49 => Some(TypeByte::EmptyQueryResponse),
            0x45 => Some(TypeByte::Execute_or_ErrorResponse),
            0x4e => Some(TypeByte::NoticeResponse),
            0x70 => Some(TypeByte::GssResponse_or_Password_or_SaslResponses),
            0x76 => Some(TypeByte::NegotiateProtocolVersion),
            0x53 => Some(TypeByte::ParameterStatus_or_Sync),
            0x50 => Some(TypeByte::Parse),
            0x31 => Some(TypeByte::ParseComplete),
            0x73 => Some(TypeByte::PortalSuspended),
            0x51 => Some(TypeByte::Query),
            0x5a => Some(TypeByte::ReadyForQuery),
            0x54 => Some(TypeByte::RowDescription),
            0x58 => Some(TypeByte::Terminate),
            _ => None,
        }
    }

    /// The byte this tag is written as.
    pub fn to_byte(self) -> (r: u8)
        ensures
            r == sp_byte_of(self),
    {
        match self {
            TypeByte::Authentication => 0x52,
            TypeByte::BackendKeyData => 0x4b,
            TypeByte::Bind => 0x42,
            TypeByte::BindComplete => 0x32,
            TypeByte::CommandComplete => 0x43,
            TypeByte::DataRow => 0x44,
            TypeByte::EmptyQueryResponse => 0x49,
            TypeByte::Execute_or_ErrorResponse => 0x45,
            TypeByte::NoticeResponse => 0x4e,
            TypeByte::GssResponse_or_Password_or_SaslResponses => 0x70,
            TypeByte::NegotiateProtocolVersion => 0x76,
            TypeByte::ParameterStatus_or_Sync => 0x53,
            TypeByte::Parse => 0x50,
            TypeByte::ParseComplete => 0x31,
            TypeByte::PortalSuspended => 0x73,
            TypeByte::Query => 0x51,
            TypeByte::ReadyForQuery => 0x5a,
            TypeByte::RowDescription => 0x54,
            TypeByte::Terminate => 0x58,
        }
    }
}

} // verus!
