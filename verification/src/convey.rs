//! The conveyor: the per-connection state machine that reads each framed
//! message off one leg, surfaces it to the observer, and forwards the exact
//! bytes to the other leg.

pub mod dispatch;
pub mod run;

use vstd::prelude::*;
use crate::decode;
use crate::encode;
use crate::msg::body::authentication::{Authentication, AuthenticationV};
use crate::msg::body::backend_key_data::BackendKeyData;
use crate::msg::body::bind::{Bind, BindV};
use crate::msg::body::bind_complete::BindComplete;
use crate::msg::body::command_complete::CommandComplete;
use crate::msg::body::data_row::DataRow;
use crate::msg::body::empty_query_response::EmptyQueryResponse;
use crate::msg::body::error_and_notice_responses::{
    ErrorOrNoticeFieldsV, ErrorResponse, NoticeResponse,
};
use crate::msg::body::execute::{Execute, ExecuteV};
use crate::msg::body::gss_response::GssResponse;
use crate::msg::body::initial::{Initial, InitialV};
use crate::msg::body::negotiate_protocol_version::{
    NegotiateProtocolVersion, NegotiateProtocolVersionV,
};
use crate::msg::body::parameter_status::ParameterStatus;
use crate::msg::body::parse::{Parse, ParseV};
use crate::msg::body::parse_complete::ParseComplete;
use crate::msg::body::password::Password;
use crate::msg::body::portal_suspended::PortalSuspended;
use crate::msg::body::query::Query;
use crate::msg::body::ready_for_query::ReadyForQuery;
use crate::msg::body::row_description::{FieldV, RowDescription};
use crate::msg::body::sasl_initial_response::{SaslInitialResponse, SaslInitialResponseV};
use crate::msg::body::sasl_response::SaslResponse;
use crate::msg::body::sync::Sync;
use crate::msg::body::terminate::Terminate;
use crate::msg::parts::ValueV;
use crate::msg::type_byte::TypeByte;

verus! {

/// Which peer a byte or message came from.
#[derive(Clone, Copy, Debug, PartialEq, Eq, Structural)]
pub enum Side {
    Backend,
    Frontend,
}

/// The protocol phase, seen from the backend: `AskedX` means the backend
/// asked for X, `GotX` that it got X from the frontend.
#[derive(Clone, Copy, Debug, PartialEq, Eq, Structural)]
pub enum State {
    AbortedExtendedQuery,
    AbortedParsingOrBinding,
    AbortedSimpleQuery,
    AnsweringToExtendedQuery,
    AnsweringToSimpleQuery,
    AskedCleartextPassword,
    AskedGssResponse,
    AskedMd5Password,
    AskedSaslInitialResponse,
    AskedSaslResponse,
    Authenticated,
    CompletedExtendedQuery,
    CompletedSimpleCommand,
    ExecutingExtendedQuery,
    FinishedSasl,
    GotAnySaslResponse,
    GotBinding,
    GotCleartextPassword,
    GotGssResponse,
    GotMd5Password,
    GotPreparedStatement,
    GotSimpleQuery,
    GotStartup,
    GotSync,
    ReadyForQuery,
    SeenEmptyExtendedQuery,
    SeenEmptySimpleQuery,
    SentAllBackendParams,
    SuspendedExtendedQuery,
}

/// How a TLS upgrade can go wrong.
#[derive(Clone, Copy, Debug, PartialEq, Eq, Structural)]
pub enum TlsError {
    HandshakeDisrupted,
    TlsRequestedInsideTls,
}

/// How transport input can fail in the conveyor's model: it ran out.
#[derive(Clone, Copy, Debug, PartialEq, Eq, Structural)]
pub enum IoProblem {
    UnexpectedEof,
}

/// A recognized authentication scheme the conveyor refuses to carry.
#[derive(Clone, Copy, Debug, PartialEq, Eq, Structural)]
pub enum UnsupportedReason {
    /// Unsupported after PostgreSQL 9.3, itself out of support.
    KerberosV5,
    /// Only issued by pre-9.1 servers; may leave the protocol.
    ScmCredential,
}

/// Why a conveyor ended other than by a clean termination.
#[derive(Clone, Copy, Debug, PartialEq, Eq, Structural)]
pub enum ConveyError {
    DecodeError(decode::Problem),
    EncodeError(encode::Problem),
    IoError(IoProblem),
    TlsError(TlsError),
    LeftUndecoded(usize),
    UnexpectedType(State, Side, TypeByte),
    UnknownType(Side, u8),
    Unsupported(UnsupportedReason),
}

pub type ConveyResult<T> = Result<T, ConveyError>;

/// A borrowed view of one conveyed message, handed to the observer for the
/// duration of one call.
#[derive(Debug, PartialEq)]
pub enum Message<'a> {
    Backend(BackendMsg<'a>),
    Frontend(FrontendMsg<'a>),
}

#[derive(Debug, PartialEq)]
pub enum BackendMsg<'a> {
    Authentication(&'a Authentication),
    BackendKeyData(&'a BackendKeyData),
    BindComplete(&'a BindComplete),
    CommandComplete(&'a CommandComplete),
    DataRow(&'a DataRow),
    EmptyQueryResponse(&'a EmptyQueryResponse),
    ErrorResponse(&'a ErrorResponse),
    NegotiateProtocolVersion(&'a NegotiateProtocolVersion),
    NoticeResponse(&'a NoticeResponse),
    ParameterStatus(&'a ParameterStatus),
    ParseComplete(&'a ParseComplete),
    PortalSuspended(&'a PortalSuspended),
    ReadyForQuery(&'a ReadyForQuery),
    RowDescription(&'a RowDescription),
}

#[derive(Debug, PartialEq)]
pub enum FrontendMsg<'a> {
    Bind(&'a Bind),
    Execute(&'a Execute),
    GssResponse(&'a GssResponse),
    Initial(&'a Initial),
    Parse(&'a Parse),
    Password(&'a Password),
    Query(&'a Query),
    SaslInitialResponse(&'a SaslInitialResponse),
    SaslResponse(&'a SaslResponse),
    Sync(&'a Sync),
    Terminate(&'a Terminate),
}

/// An owned copy of one conveyed message, for observers that keep messages
/// beyond the callback.
#[derive(Clone, Debug, PartialEq)]
pub enum MessageClone {
    Backend(BackendMsgClone),
    Frontend(FrontendMsgClone),
}

#[derive(Clone, Debug, PartialEq)]
pub enum BackendMsgClone {
    Authentication(Authentication),
    BackendKeyData(BackendKeyData),
    BindComplete(BindComplete),
    CommandComplete(CommandComplete),
    DataRow(DataRow),
    EmptyQueryResponse(EmptyQueryResponse),
    ErrorResponse(ErrorResponse),
    NegotiateProtocolVersion(NegotiateProtocolVersion),
    NoticeResponse(NoticeResponse),
    ParameterStatus(ParameterStatus),
    ParseComplete(ParseComplete),
    PortalSuspended(PortalSuspended),
    ReadyForQuery(ReadyForQuery),
    RowDescription(RowDescription),
}

#[derive(Clone, Debug, PartialEq)]
pub enum FrontendMsgClone {
    Bind(Bind),
    Execute(Execute),
    GssResponse(GssResponse),
    Initial(Initial),
    Parse(Parse),
    Password(Password),
    Query(Query),
    SaslInitialResponse(SaslInitialResponse),
    SaslResponse(SaslResponse),
    Sync(Sync),
    Terminate(Terminate),
}

/// The mathematical shape of one conveyed message.
pub enum MessageV {
    Backend(BackendMsgV),
    Frontend(FrontendMsgV),
}

pub enum BackendMsgV {
    Authentication(AuthenticationV),
    BackendKeyData(BackendKeyData),
    BindComplete(BindComplete),
    CommandComplete(Seq<u8>),
    DataRow(Seq<ValueV>),
    EmptyQueryResponse(EmptyQueryResponse),
    ErrorResponse(ErrorOrNoticeFieldsV),
    NegotiateProtocolVersion(NegotiateProtocolVersionV),
    NoticeResponse(ErrorOrNoticeFieldsV),
    ParameterStatus((Seq<u8>, Seq<u8>)),
    ParseComplete(ParseComplete),
    PortalSuspended(PortalSuspended),
    ReadyForQuery(ReadyForQuery),
    RowDescription(Seq<FieldV>),
}

pub enum FrontendMsgV {
    Bind(BindV),
    Execute(ExecuteV),
    GssResponse(Seq<u8>),
    Initial(InitialV),
    Parse(ParseV),
    Password(Seq<u8>),
    Query(Seq<u8>),
    SaslInitialResponse(SaslInitialResponseV),
    SaslResponse(Seq<u8>),
    Sync(Sync),
    Terminate(Terminate),
}

impl View for BackendMsgClone {
    type V = BackendMsgV;

    open spec fn view(&self) -> BackendMsgV {
        match self {
            BackendMsgClone::Authentication(m) => BackendMsgV::Authentication(m@),
            BackendMsgClone::BackendKeyData(m) => BackendMsgV::BackendKeyData(*m),
            BackendMsgClone::BindComplete(m) => BackendMsgV::BindComplete(*m),
            BackendMsgClone::CommandComplete(m) => BackendMsgV::CommandComplete(m@),
            BackendMsgClone::DataRow(m) => BackendMsgV::DataRow(m@),
            BackendMsgClone::EmptyQueryResponse(m) => BackendMsgV::EmptyQueryResponse(*m),
            BackendMsgClone::ErrorResponse(m) => BackendMsgV::ErrorResponse(m@),
            BackendMsgClone::NegotiateProtocolVersion(m) => BackendMsgV::NegotiateProtocolVersion(
                m@,
            ),
            BackendMsgClone::NoticeResponse(m) => BackendMsgV::NoticeResponse(m@),
            BackendMsgClone::ParameterStatus(m) => BackendMsgV::ParameterStatus(m@),
            BackendMsgClone::ParseComplete(m) => BackendMsgV::ParseComplete(*m),
            BackendMsgClone::PortalSuspended(m) => BackendMsgV::PortalSuspended(*m),
            BackendMsgClone::ReadyForQuery(m) => BackendMsgV::ReadyForQuery(*m),
            BackendMsgClone::RowDescription(m) => BackendMsgV::RowDescription(m@),
        }
    }
}

impl View for FrontendMsgClone {
    type V = FrontendMsgV;

    open spec fn view(&self) -> FrontendMsgV {
        match self {
            FrontendMsgClone::Bind(m) => FrontendMsgV::Bind(m@),
            FrontendMsgClone::Execute(m) => FrontendMsgV::Execute(m@),
            FrontendMsgClone::GssResponse(m) => FrontendMsgV::GssResponse(m@),
            FrontendMsgClone::Initial(m) => FrontendMsgV::Initial(m@),
            FrontendMsgClone::Parse(m) => FrontendMsgV::Parse(m@),
            FrontendMsgClone::Password(m) => FrontendMsgV::Password(m@),
            FrontendMsgClone::Query(m) => FrontendMsgV::Query(m@),
            FrontendMsgClone::SaslInitialResponse(m) => FrontendMsgV::SaslInitialResponse(m@),
            FrontendMsgClone::SaslResponse(m) => FrontendMsgV::SaslResponse(m@),
            FrontendMsgClone::Sync(m) => FrontendMsgV::Sync(*m),
            FrontendMsgClone::Terminate(m) => FrontendMsgV::Terminate(*m),
        }
    }
}

impl View for MessageClone {
    type V = MessageV;

    open spec fn view(&self) -> MessageV {
        match self {
            MessageClone::Backend(m) => MessageV::Backend(m@),
            MessageClone::Frontend(m) => MessageV::Frontend(m@),
        }
    }
}

} // verus!
