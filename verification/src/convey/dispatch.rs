//! The type-byte dispatcher: for every `(side, tag, state)` triple, which
//! message to decode and which state comes next. The tables here are total:
//! every triple yields a step, an unexpected-type verdict, or (for a byte
//! outside the tag set) an unknown-byte verdict — nothing panics.

use vstd::prelude::*;
use crate::convey::{Side, State, UnsupportedReason};
use crate::msg::body::authentication::{Authentication, AuthenticationV};
use crate::msg::type_byte::{TypeByte, sp_type_byte_of};

verus! {

/// The backend messages the steady-state loop can decode.
#[derive(Clone, Copy, Debug, PartialEq, Eq, Structural)]
pub enum BackendKind {
    Authentication,
    BackendKeyData,
    BindComplete,
    CommandComplete,
    DataRow,
    EmptyQueryResponse,
    ErrorResponse,
    NegotiateProtocolVersion,
    NoticeResponse,
    ParameterStatus,
    ParseComplete,
    PortalSuspended,
    ReadyForQuery,
    RowDescription,
}

/// The frontend messages the steady-state loop can decode.
#[derive(Clone, Copy, Debug, PartialEq, Eq, Structural)]
pub enum FrontendKind {
    Bind,
    Execute,
    GssResponse,
    Parse,
    Password,
    Query,
    SaslInitialResponse,
    SaslResponse,
    Sync,
    Terminate,
}

/// What one recognized tag asks of the conveyor.
#[derive(Clone, Copy, Debug, PartialEq, Eq, Structural)]
pub enum Step<K> {
    /// Decode this kind, surface and forward it, and continue in the state.
    Convey(K, State),
    /// Decode an `Authentication`; the decoded variant picks the next state.
    Auth,
    /// Decode this kind, surface and forward it, and end with success.
    End(K),
    /// The tag is forbidden in this state.
    Unexpected,
}

/// The backend transition table.
pub open spec fn sp_transition_backend(t: TypeByte, st: State) -> Step<BackendKind> {
    match t {
        TypeByte::Authentication => Step::Auth,
        TypeByte::BackendKeyData => match st {
            State::Authenticated => Step::Convey(
                BackendKind::BackendKeyData,
                State::SentAllBackendParams,
            ),
            _ => Step::Unexpected,
        },
        TypeByte::BindComplete => match st {
            State::GotBinding => Step::Convey(BackendKind::BindComplete, State::ReadyForQuery),
            _ => Step::Unexpected,
        },
        TypeByte::CommandComplete => match st {
            State::AnsweringToSimpleQuery | State::CompletedSimpleCommand
                | State::GotSimpleQuery => Step::Convey(
                BackendKind::CommandComplete,
                State::CompletedSimpleCommand,
            ),
            State::AnsweringToExtendedQuery | State::ExecutingExtendedQuery => Step::Convey(
                BackendKind::CommandComplete,
                State::CompletedExtendedQuery,
            ),
            _ => Step::Unexpected,
        },
        TypeByte::DataRow => match st {
            State::AnsweringToSimpleQuery => Step::Convey(
                BackendKind::DataRow,
                State::AnsweringToSimpleQuery,
            ),
            State::AnsweringToExtendedQuery | State::ExecutingExtendedQuery => Step::Convey(
                BackendKind::DataRow,
                State::AnsweringToExtendedQuery,
            ),
            _ => Step::Unexpected,
        },
        TypeByte::EmptyQueryResponse => match st {
            State::ExecutingExtendedQuery => Step::Convey(
                BackendKind::EmptyQueryResponse,
                State::SeenEmptyExtendedQuery,
            ),
            State::GotSimpleQuery => Step::Convey(
                BackendKind::EmptyQueryResponse,
                State::SeenEmptySimpleQuery,
            ),
            _ => Step::Unexpected,
        },
        TypeByte::Execute_or_ErrorResponse => match st {
            State::AbortedSimpleQuery | State::AnsweringToSimpleQuery
                | State::CompletedSimpleCommand | State::GotSimpleQuery
                | State::SeenEmptySimpleQuery => Step::Convey(
                BackendKind::ErrorResponse,
                State::AbortedSimpleQuery,
            ),
            State::GotBinding | State::GotPreparedStatement => Step::Convey(
                BackendKind::ErrorResponse,
                State::AbortedParsingOrBinding,
            ),
            State::AbortedExtendedQuery | State::AnsweringToExtendedQuery
                | State::CompletedExtendedQuery | State::ExecutingExtendedQuery
                | State::SeenEmptyExtendedQuery => Step::Convey(
                BackendKind::ErrorResponse,
                State::AbortedExtendedQuery,
            ),
            _ => Step::End(BackendKind::ErrorResponse),
        },
        TypeByte::NegotiateProtocolVersion => match st {
            State::GotStartup | State::Authenticated => Step::Convey(
                BackendKind::NegotiateProtocolVersion,
                st,
            ),
            _ => Step::Unexpected,
        },
        TypeByte::NoticeResponse => Step::Convey(BackendKind::NoticeResponse, st),
        TypeByte::ParameterStatus_or_Sync => match st {
            State::Authenticated => Step::Convey(
                BackendKind::ParameterStatus,
                State::Authenticated,
            ),
            _ => Step::Unexpected,
        },
        TypeByte::ParseComplete => match st {
            State::GotPreparedStatement => Step::Convey(
                BackendKind::ParseComplete,
                State::ReadyForQuery,
            ),
            _ => Step::Unexpected,
        },
        TypeByte::PortalSuspended => match st {
            State::AnsweringToExtendedQuery => Step::Convey(
                BackendKind::PortalSuspended,
                State::SuspendedExtendedQuery,
            ),
            _ => Step::Unexpected,
        },
        TypeByte::ReadyForQuery => match st {
            State::AbortedParsingOrBinding | State::AbortedSimpleQuery
                | State::CompletedSimpleCommand | State::SentAllBackendParams | State::GotSync
                | State::SeenEmptySimpleQuery => Step::Convey(
                BackendKind::ReadyForQuery,
                State::ReadyForQuery,
            ),
            _ => Step::Unexpected,
        },
        TypeByte::RowDescription => match st {
            State::GotSimpleQuery | State::CompletedSimpleCommand => Step::Convey(
                BackendKind::RowDescription,
                State::AnsweringToSimpleQuery,
            ),
            _ => Step::Unexpected,
        },
        _ => Step::Unexpected,
    }
}

/// The frontend transition table.
pub open spec fn sp_transition_frontend(t: TypeByte, st: State) -> Step<FrontendKind> {
    match t {
        TypeByte::Bind => match st {
            State::ReadyForQuery => Step::Convey(FrontendKind::Bind, State::GotBinding),
            _ => Step::Unexpected,
        },
        TypeByte::Execute_or_ErrorResponse => match st {
            State::ReadyForQuery | State::SuspendedExtendedQuery => Step::Convey(
                FrontendKind::Execute,
                State::ExecutingExtendedQuery,
            ),
            _ => Step::Unexpected,
        },
        TypeByte::GssResponse_or_Password_or_SaslResponses => match st {
            State::AskedCleartextPassword => Step::Convey(
                FrontendKind::Password,
                State::GotCleartextPassword,
            ),
            State::AskedGssResponse => Step::Convey(
                FrontendKind::GssResponse,
                State::GotGssResponse,
            ),
            State::AskedMd5Password => Step::Convey(
                FrontendKind::Password,
                State::GotMd5Password,
            ),
            State::AskedSaslInitialResponse => Step::Convey(
                FrontendKind::SaslInitialResponse,
                State::GotAnySaslResponse,
            ),
            State::AskedSaslResponse => Step::Convey(
                FrontendKind::SaslResponse,
                State::GotAnySaslResponse,
            ),
            _ => Step::Unexpected,
        },
        TypeByte::ParameterStatus_or_Sync => match st {
            State::AbortedExtendedQuery | State::CompletedExtendedQuery
                | State::SeenEmptyExtendedQuery | State::SuspendedExtendedQuery => Step::Convey(
                FrontendKind::Sync,
                State::GotSync,
            ),
            _ => Step::Unexpected,
        },
        TypeByte::Parse => match st {
            State::ReadyForQuery => Step::Convey(
                FrontendKind::Parse,
                State::GotPreparedStatement,
            ),
            _ => Step::Unexpected,
        },
        TypeByte::Query => match st {
            State::ReadyForQuery => Step::Convey(FrontendKind::Query, State::GotSimpleQuery),
            _ => Step::Unexpected,
        },
        TypeByte::Terminate => match st {
            State::ReadyForQuery => Step::End(FrontendKind::Terminate),
            _ => Step::Unexpected,
        },
        _ => Step::Unexpected,
    }
}

/// What follows a decoded authentication message.
#[derive(Clone, Copy, Debug, PartialEq, Eq, Structural)]
pub enum AuthStep {
    /// The exchange moves on.
    Next(State),
    /// A recognized scheme the conveyor refuses to carry.
    Refuse(UnsupportedReason),
    /// The variant is forbidden in this state.
    Unexpected,
}

/// The authentication sub-table: which state follows each authentication
/// variant, given the state the variant arrived in.
pub open spec fn sp_auth_transition(auth: AuthenticationV, st: State) -> AuthStep {
    match auth {
        AuthenticationV::Okay => match st {
            State::FinishedSasl | State::GotCleartextPassword | State::GotGssResponse
                | State::GotMd5Password | State::GotStartup => AuthStep::Next(
                State::Authenticated,
            ),
            _ => AuthStep::Unexpected,
        },
        AuthenticationV::CleartextPassword => match st {
            State::GotStartup => AuthStep::Next(State::AskedCleartextPassword),
            _ => AuthStep::Unexpected,
        },
        AuthenticationV::Md5Password { .. } => match st {
            State::GotStartup => AuthStep::Next(State::AskedMd5Password),
            _ => AuthStep::Unexpected,
        },
        AuthenticationV::Gss | AuthenticationV::Sspi => match st {
            State::GotStartup => AuthStep::Next(State::AskedGssResponse),
            _ => AuthStep::Unexpected,
        },
        AuthenticationV::GssContinue { .. } => match st {
            State::GotGssResponse => AuthStep::Next(State::AskedGssResponse),
            _ => AuthStep::Unexpected,
        },
        AuthenticationV::Sasl { .. } => match st {
            State::GotStartup => AuthStep::Next(State::AskedSaslInitialResponse),
            _ => AuthStep::Unexpected,
        },
        AuthenticationV::SaslContinue { .. } => match st {
            State::GotAnySaslResponse => AuthStep::Next(State::AskedSaslResponse),
            _ => AuthStep::Unexpected,
        },
        AuthenticationV::SaslFinal { .. } => match st {
            State::GotAnySaslResponse => AuthStep::Next(State::FinishedSasl),
            _ => AuthStep::Unexpected,
        },
        AuthenticationV::KerberosV5 => match st {
            State::GotStartup => AuthStep::Refuse(UnsupportedReason::KerberosV5),
            _ => AuthStep::Unexpected,
        },
        AuthenticationV::ScmCredential => match st {
            State::GotStartup => AuthStep::Refuse(UnsupportedReason::ScmCredential),
            _ => AuthStep::Unexpected,
        },
    }
}

/// Runs the backend table.
pub fn transition_backend(t: TypeByte, st: State) -> (r: Step<BackendKind>)
    ensures
        r == sp_transition_backend(t, st),
{
    match t {
        TypeByte::Authentication => Step::Auth,
        TypeByte::BackendKeyData => match st {
            State::Authenticated => Step::Convey(
                BackendKind::BackendKeyData,
                State::SentAllBackendParams,
            ),
            _ => Step::Unexpected,
        },
        TypeByte::BindComplete => match st {
            State::GotBinding => Step::Convey(BackendKind::BindComplete, State::ReadyForQuery),
            _ => Step::Unexpected,
        },
        TypeByte::CommandComplete => match st {
            State::AnsweringToSimpleQuery | State::CompletedSimpleCommand
                | State::GotSimpleQuery => Step::Convey(
                BackendKind::CommandComplete,
                State::CompletedSimpleCommand,
            ),
            State::AnsweringToExtendedQuery | State::ExecutingExtendedQuery => Step::Convey(
                BackendKind::CommandComplete,
                State::CompletedExtendedQuery,
            ),
            _ => Step::Unexpected,
        },
        TypeByte::DataRow => match st {
            State::AnsweringToSimpleQuery => Step::Convey(
                BackendKind::DataRow,
                State::AnsweringToSimpleQuery,
            ),
            State::AnsweringToExtendedQuery | State::ExecutingExtendedQuery => Step::Convey(
                BackendKind::DataRow,
                State::AnsweringToExtendedQuery,
            ),
            _ => Step::Unexpected,
        },
        TypeByte::EmptyQueryResponse => match st {
            State::ExecutingExtendedQuery => Step::Convey(
                BackendKind::EmptyQueryResponse,
                State::SeenEmptyExtendedQuery,
            ),
            State::GotSimpleQuery => Step::Convey(
                BackendKind::EmptyQueryResponse,
                State::SeenEmptySimpleQuery,
            ),
            _ => Step::Unexpected,
        },
        TypeByte::Execute_or_ErrorResponse => match st {
            State::AbortedSimpleQuery | State::AnsweringToSimpleQuery
                | State::CompletedSimpleCommand | State::GotSimpleQuery
                | State::SeenEmptySimpleQuery => Step::Convey(
                BackendKind::ErrorResponse,
                State::AbortedSimpleQuery,
            ),
            State::GotBinding | State::GotPreparedStatement => Step::Convey(
                BackendKind::ErrorResponse,
                State::AbortedParsingOrBinding,
            ),
            State::AbortedExtendedQuery | State::AnsweringToExtendedQuery
                | State::CompletedExtendedQuery | State::ExecutingExtendedQuery
                | State::SeenEmptyExtendedQuery => Step::Convey(
                BackendKind::ErrorResponse,
                State::AbortedExtendedQuery,
            ),
            _ => Step::End(BackendKind::ErrorResponse),
        },
        TypeByte::NegotiateProtocolVersion => match st {
            State::GotStartup | State::Authenticated => Step::Convey(
                BackendKind::NegotiateProtocolVersion,
                st,
            ),
            _ => Step::Unexpected,
        },
        TypeByte::NoticeResponse => Step::Convey(BackendKind::NoticeResponse, st),
        TypeByte::ParameterStatus_or_Sync => match st {
            State::Authenticated => Step::Convey(
                BackendKind::ParameterStatus,
                State::Authenticated,
            ),
            _ => Step::Unexpected,
        },
        TypeByte::ParseComplete => match st {
            State::GotPreparedStatement => Step::Convey(
                BackendKind::ParseComplete,
                State::ReadyForQuery,
            ),
            _ => Step::Unexpected,
        },
        TypeByte::PortalSuspended => match st {
            State::AnsweringToExtendedQuery => Step::Convey(
                BackendKind::PortalSuspended,
                State::SuspendedExtendedQuery,
            ),
            _ => Step::Unexpected,
        },
        TypeByte::ReadyForQuery => match st {
            State::AbortedParsingOrBinding | State::AbortedSimpleQuery
                | State::CompletedSimpleCommand | State::SentAllBackendParams | State::GotSync
                | State::SeenEmptySimpleQuery => Step::Convey(
                BackendKind::ReadyForQuery,
                State::ReadyForQuery,
            ),
            _ => Step::Unexpected,
        },
        TypeByte::RowDescription => match st {
            State::GotSimpleQuery | State::CompletedSimpleCommand => Step::Convey(
                BackendKind::RowDescription,
                State::AnsweringToSimpleQuery,
            ),
            _ => Step::Unexpected,
        },
        _ => Step::Unexpected,
    }
}

/// Runs the frontend table.
pub fn transition_frontend(t: TypeByte, st: State) -> (r: Step<FrontendKind>)
    ensures
        r == sp_transition_frontend(t, st),
{
    match t {
        TypeByte::Bind => match st {
            State::ReadyForQuery => Step::Convey(FrontendKind::Bind, State::GotBinding),
            _ => Step::Unexpected,
        },
        TypeByte::Execute_or_ErrorResponse => match st {
            State::ReadyForQuery | State::SuspendedExtendedQuery => Step::Convey(
                FrontendKind::Execute,
                State::ExecutingExtendedQuery,
            ),
            _ => Step::Unexpected,
        },
        TypeByte::GssResponse_or_Password_or_SaslResponses => match st {
            State::AskedCleartextPassword => Step::Convey(
                FrontendKind::Password,
                State::GotCleartextPassword,
            ),
            State::AskedGssResponse => Step::Convey(
                FrontendKind::GssResponse,
                State::GotGssResponse,
            ),
            State::AskedMd5Password => Step::Convey(
                FrontendKind::Password,
                State::GotMd5Password,
            ),
            State::AskedSaslInitialResponse => Step::Convey(
                FrontendKind::SaslInitialResponse,
                State::GotAnySaslResponse,
            ),
            State::AskedSaslResponse => Step::Convey(
                FrontendKind::SaslResponse,
                State::GotAnySaslResponse,
            ),
            _ => Step::Unexpected,
        },
        TypeByte::ParameterStatus_or_Sync => match st {
            State::AbortedExtendedQuery | State::CompletedExtendedQuery
                | State::SeenEmptyExtendedQuery | State::SuspendedExtendedQuery => Step::Convey(
                FrontendKind::Sync,
                State::GotSync,
            ),
            _ => Step::Unexpected,
        },
        TypeByte::Parse => match st {
            State::ReadyForQuery => Step::Convey(
                FrontendKind::Parse,
                State::GotPreparedStatement,
            ),
            _ => Step::Unexpected,
        },
        TypeByte::Query => match st {
            State::ReadyForQuery => Step::Convey(FrontendKind::Query, State::GotSimpleQuery),
            _ => Step::Unexpected,
        },
        TypeByte::Terminate => match st {
            State::ReadyForQuery => Step::End(FrontendKind::Terminate),
            _ => Step::Unexpected,
        },
        _ => Step::Unexpected,
    }
}

/// Runs the authentication sub-table.
pub fn auth_transition(auth: &Authentication, st: State) -> (r: AuthStep)
    ensures
        r == sp_auth_transition(auth@, st),
{
    match auth {
        Authentication::Okay => match st {
            State::FinishedSasl | State::GotCleartextPassword | State::GotGssResponse
                | State::GotMd5Password | State::GotStartup => AuthStep::Next(
                State::Authenticated,
            ),
            _ => AuthStep::Unexpected,
        },
        Authentication::CleartextPassword => match st {
            State::GotStartup => AuthStep::Next(State::AskedCleartextPassword),
            _ => AuthStep::Unexpected,
        },
        Authentication::Md5Password { .. } => match st {
            State::GotStartup => AuthStep::Next(State::AskedMd5Password),
            _ => AuthStep::Unexpected,
        },
        Authentication::Gss | Authentication::Sspi => match st {
            State::GotStartup => AuthStep::Next(State::AskedGssResponse),
            _ => AuthStep::Unexpected,
        },
        Authentication::GssContinue { .. } => match st {
            State::GotGssResponse => AuthStep::Next(State::AskedGssResponse),
            _ => AuthStep::Unexpected,
        },
        Authentication::Sasl { .. } => match st {
            State::GotStartup => AuthStep::Next(State::AskedSaslInitialResponse),
            _ => AuthStep::Unexpected,
        },
        Authentication::SaslContinue { .. } => match st {
            State::GotAnySaslResponse => AuthStep::Next(State::AskedSaslResponse),
            _ => AuthStep::Unexpected,
        },
        Authentication::SaslFinal { .. } => match st {
            State::GotAnySaslResponse => AuthStep::Next(State::FinishedSasl),
            _ => AuthStep::Unexpected,
        },
        Authentication::KerberosV5 => match st {
            State::GotStartup => AuthStep::Refuse(UnsupportedReason::KerberosV5),
            _ => AuthStep::Unexpected,
        },
        Authentication::ScmCredential => match st {
            State::GotStartup => AuthStep::Refuse(UnsupportedReason::ScmCredential),
            _ => AuthStep::Unexpected,
        },
    }
}

/// How the dispatcher answers one byte.
pub enum Dispatch {
    /// The byte is not a tag at all.
    Unknown,
    /// The tag is forbidden in this state.
    Unexpected(TypeByte),
    /// A backend step to take.
    ActBackend(Step<BackendKind>, TypeByte),
    /// A frontend step to take.
    ActFrontend(Step<FrontendKind>, TypeByte),
}

/// The whole dispatcher, byte in, verdict out.
pub open spec fn sp_dispatch(side: Side, b: u8, st: State) -> Dispatch {
    match sp_type_byte_of(b) {
        None => Dispatch::Unknown,
        Some(t) => match side {
            Side::Backend => match sp_transition_backend(t, st) {
                Step::Unexpected => Dispatch::Unexpected(t),
                step => Dispatch::ActBackend(step, t),
            },
            Side::Frontend => match sp_transition_frontend(t, st) {
                Step::Unexpected => Dispatch::Unexpected(t),
                step => Dispatch::ActFrontend(step, t),
            },
        },
    }
}

/// The dispatcher is total: every `(side, byte, state)` triple yields
/// exactly one verdict — a step with its next state, an unexpected-type
/// verdict, or an unknown-byte verdict — and never anything else. The three
/// cases exclude each other, being distinct constructors of one value.
pub proof fn lemma_dispatch_total(side: Side, b: u8, st: State)
    ensures
        sp_type_byte_of(b) is None <==> sp_dispatch(side, b, st) is Unknown,
        sp_dispatch(side, b, st) is Unknown || sp_dispatch(side, b, st) is Unexpected
            || sp_dispatch(side, b, st) is ActBackend || sp_dispatch(side, b, st) is ActFrontend,
        side is Backend ==> !(sp_dispatch(side, b, st) is ActFrontend),
        side is Frontend ==> !(sp_dispatch(side, b, st) is ActBackend),
{
}

} // verus!
