//! Running a conveyor over in-memory legs: the framed reader, the steady
//! loop, and the contracts that pin down what is surfaced and forwarded.
//!
//! The two legs are byte sequences; the race between them is modelled by an
//! arrival schedule naming, for each steady-state turn, the side whose frame
//! arrived first.

use vstd::prelude::*;
use crate::convey::dispatch::{
    AuthStep, BackendKind, Dispatch, FrontendKind, Step, auth_transition, sp_auth_transition,
    sp_dispatch, transition_backend, transition_frontend,
};
use crate::convey::{
    BackendMsgClone, BackendMsgV, ConveyError, ConveyResult, FrontendMsgClone, FrontendMsgV,
    IoProblem, MessageClone, MessageV, Side, State, TlsError,
};
use crate::decode::{BytesSource, Taken, be32_at, sp_u8, sp_u32};
use crate::encode;
use crate::encode::{lemma_be32_bytes_id, u32_be_bytes};
use crate::msg::body::authentication::{Authentication, AuthenticationV};
use crate::msg::body::backend_key_data::BackendKeyData;
use crate::msg::body::bind::Bind;
use crate::msg::body::bind_complete::BindComplete;
use crate::msg::body::command_complete::CommandComplete;
use crate::msg::body::data_row::DataRow;
use crate::msg::body::empty_query_response::EmptyQueryResponse;
use crate::msg::body::error_and_notice_responses::{ErrorResponse, NoticeResponse};
use crate::msg::body::execute::Execute;
use crate::msg::body::gss_response::GssResponse;
use crate::msg::body::initial::{Initial, InitialV};
use crate::msg::body::negotiate_protocol_version::NegotiateProtocolVersion;
use crate::msg::body::parameter_status::ParameterStatus;
use crate::msg::body::parse::Parse;
use crate::msg::body::parse_complete::ParseComplete;
use crate::msg::body::password::Password;
use crate::msg::body::portal_suspended::PortalSuspended;
use crate::msg::body::query::Query;
use crate::msg::body::ready_for_query::ReadyForQuery;
use crate::msg::body::row_description::RowDescription;
use crate::msg::body::sasl_initial_response::SaslInitialResponse;
use crate::msg::body::sasl_response::SaslResponse;
use crate::msg::body::sync::Sync;
use crate::msg::body::terminate::Terminate;
use crate::msg::parts::vec_view;
use crate::msg::type_byte::TypeByte;

verus! {

/// What reading one frame off a leg yields: the datum and the position just
/// past the frame, or the error that ends the conveyor.
pub enum FrameRead<T> {
    FGot(T, int),
    FErr(ConveyError),
}

/// Reading a frame's length word and body at position `p`: a declared
/// length below four cannot even hold the length word; a body running past
/// the end of the leg is an unexpected end of input.
pub open spec fn sp_frame_body(s: Seq<u8>, p: int) -> FrameRead<Seq<u8>> {
    match sp_u32(s, p) {
        Taken::Short(_) => FrameRead::FErr(ConveyError::IoError(IoProblem::UnexpectedEof)),
        Taken::Got(len32, q) => if len32 < 4 {
            FrameRead::FErr(
                ConveyError::EncodeError(encode::Problem::OutOfSpace((4 - len32) as usize)),
            )
        } else if q + (len32 - 4) <= s.len() {
            FrameRead::FGot(s.subrange(q, q + (len32 - 4)), q + (len32 - 4))
        } else {
            FrameRead::FErr(ConveyError::IoError(IoProblem::UnexpectedEof))
        },
    }
}

/// Decoding one backend body, by kind.
pub open spec fn sp_decode_backend(k: BackendKind, body: Seq<u8>) -> Taken<BackendMsgV> {
    match k {
        BackendKind::Authentication => match Authentication::sp_decode(body, 0) {
            Taken::Got(v, q) => Taken::Got(BackendMsgV::Authentication(v), q),
            Taken::Short(e) => Taken::Short(e),
        },
        BackendKind::BackendKeyData => match BackendKeyData::sp_decode(body, 0) {
            Taken::Got(v, q) => Taken::Got(BackendMsgV::BackendKeyData(v), q),
            Taken::Short(e) => Taken::Short(e),
        },
        BackendKind::BindComplete => match BindComplete::sp_decode(body, 0) {
            Taken::Got(v, q) => Taken::Got(BackendMsgV::BindComplete(v), q),
            Taken::Short(e) => Taken::Short(e),
        },
        BackendKind::CommandComplete => match CommandComplete::sp_decode(body, 0) {
            Taken::Got(v, q) => Taken::Got(BackendMsgV::CommandComplete(v), q),
            Taken::Short(e) => Taken::Short(e),
        },
        BackendKind::DataRow => match DataRow::sp_decode(body, 0) {
            Taken::Got(v, q) => Taken::Got(BackendMsgV::DataRow(v), q),
            Taken::Short(e) => Taken::Short(e),
        },
        BackendKind::EmptyQueryResponse => match EmptyQueryResponse::sp_decode(body, 0) {
            Taken::Got(v, q) => Taken::Got(BackendMsgV::EmptyQueryResponse(v), q),
            Taken::Short(e) => Taken::Short(e),
        },
        BackendKind::ErrorResponse => match ErrorResponse::sp_decode(body, 0) {
            Taken::Got(v, q) => Taken::Got(BackendMsgV::ErrorResponse(v), q),
            Taken::Short(e) => Taken::Short(e),
        },
        BackendKind::NegotiateProtocolVersion => match NegotiateProtocolVersion::sp_decode(
            body,
            0,
        ) {
            Taken::Got(v, q) => Taken::Got(BackendMsgV::NegotiateProtocolVersion(v), q),
            Taken::Short(e) => Taken::Short(e),
        },
        BackendKind::NoticeResponse => match NoticeResponse::sp_decode(body, 0) {
            Taken::Got(v, q) => Taken::Got(BackendMsgV::NoticeResponse(v), q),
            Taken::Short(e) => Taken::Short(e),
        },
        BackendKind::ParameterStatus => match ParameterStatus::sp_decode(body, 0) {
            Taken::Got(v, q) => Taken::Got(BackendMsgV::ParameterStatus(v), q),
            Taken::Short(e) => Taken::Short(e),
        },
        BackendKind::ParseComplete => match ParseComplete::sp_decode(body, 0) {
            Taken::Got(v, q) => Taken::Got(BackendMsgV::ParseComplete(v), q),
            Taken::Short(e) => Taken::Short(e),
        },
        BackendKind::PortalSuspended => match PortalSuspended::sp_decode(body, 0) {
            Taken::Got(v, q) => Taken::Got(BackendMsgV::PortalSuspended(v), q),
            Taken::Short(e) => Taken::Short(e),
        },
        BackendKind::ReadyForQuery => match ReadyForQuery::sp_decode(body, 0) {
            Taken::Got(v, q) => Taken::Got(BackendMsgV::ReadyForQuery(v), q),
            Taken::Short(e) => Taken::Short(e),
        },
        BackendKind::RowDescription => match RowDescription::sp_decode(body, 0) {
            Taken::Got(v, q) => Taken::Got(BackendMsgV::RowDescription(v), q),
            Taken::Short(e) => Taken::Short(e),
        },
    }
}

/// Decoding one frontend body, by kind.
pub open spec fn sp_decode_frontend(k: FrontendKind, body: Seq<u8>) -> Taken<FrontendMsgV> {
    match k {
        FrontendKind::Bind => match Bind::sp_decode(body, 0) {
            Taken::Got(v, q) => Taken::Got(FrontendMsgV::Bind(v), q),
            Taken::Short(e) => Taken::Short(e),
        },
        FrontendKind::Execute => match Execute::sp_decode(body, 0) {
            Taken::Got(v, q) => Taken::Got(FrontendMsgV::Execute(v), q),
            Taken::Short(e) => Taken::Short(e),
        },
        FrontendKind::GssResponse => match GssResponse::sp_decode(body, 0) {
            Taken::Got(v, q) => Taken::Got(FrontendMsgV::GssResponse(v), q),
            Taken::Short(e) => Taken::Short(e),
        },
        FrontendKind::Parse => match Parse::sp_decode(body, 0) {
            Taken::Got(v, q) => Taken::Got(FrontendMsgV::Parse(v), q),
            Taken::Short(e) => Taken::Short(e),
        },
        FrontendKind::Password => match Password::sp_decode(body, 0) {
            Taken::Got(v, q) => Taken::Got(FrontendMsgV::Password(v), q),
            Taken::Short(e) => Taken::Short(e),
        },
        FrontendKind::Query => match Query::sp_decode(body, 0) {
            Taken::Got(v, q) => Taken::Got(FrontendMsgV::Query(v), q),
            Taken::Short(e) => Taken::Short(e),
        },
        FrontendKind::SaslInitialResponse => match SaslInitialResponse::sp_decode(body, 0) {
            Taken::Got(v, q) => Taken::Got(FrontendMsgV::SaslInitialResponse(v), q),
            Taken::Short(e) => Taken::Short(e),
        },
        FrontendKind::SaslResponse => match SaslResponse::sp_decode(body, 0) {
            Taken::Got(v, q) => Taken::Got(FrontendMsgV::SaslResponse(v), q),
            Taken::Short(e) => Taken::Short(e),
        },
        FrontendKind::Sync => match Sync::sp_decode(body, 0) {
            Taken::Got(v, q) => Taken::Got(FrontendMsgV::Sync(v), q),
            Taken::Short(e) => Taken::Short(e),
        },
        FrontendKind::Terminate => match Terminate::sp_decode(body, 0) {
            Taken::Got(v, q) => Taken::Got(FrontendMsgV::Terminate(v), q),
            Taken::Short(e) => Taken::Short(e),
        },
    }
}

/// A decoded body must consume the body exactly; a remainder is an error of
/// its own kind.
pub open spec fn sp_msg_backend(k: BackendKind, body: Seq<u8>) -> Result<BackendMsgV, ConveyError> {
    match sp_decode_backend(k, body) {
        Taken::Got(v, endp) => if endp == body.len() {
            Ok(v)
        } else {
            Err(ConveyError::LeftUndecoded((body.len() - endp) as usize))
        },
        Taken::Short(e) => Err(ConveyError::DecodeError(e)),
    }
}

pub open spec fn sp_msg_frontend(k: FrontendKind, body: Seq<u8>) -> Result<
    FrontendMsgV,
    ConveyError,
> {
    match sp_decode_frontend(k, body) {
        Taken::Got(v, endp) => if endp == body.len() {
            Ok(v)
        } else {
            Err(ConveyError::LeftUndecoded((body.len() - endp) as usize))
        },
        Taken::Short(e) => Err(ConveyError::DecodeError(e)),
    }
}

pub open spec fn sp_msg_auth(body: Seq<u8>) -> Result<AuthenticationV, ConveyError> {
    match Authentication::sp_decode(body, 0) {
        Taken::Got(v, endp) => if endp == body.len() {
            Ok(v)
        } else {
            Err(ConveyError::LeftUndecoded((body.len() - endp) as usize))
        },
        Taken::Short(e) => Err(ConveyError::DecodeError(e)),
    }
}

pub open spec fn sp_msg_initial(body: Seq<u8>) -> Result<InitialV, ConveyError> {
    match Initial::sp_decode(body, 0) {
        Taken::Got(v, endp) => if endp == body.len() {
            Ok(v)
        } else {
            Err(ConveyError::LeftUndecoded((body.len() - endp) as usize))
        },
        Taken::Short(e) => Err(ConveyError::DecodeError(e)),
    }
}

/// Reading a whole backend frame at `p` (its tag already consumed).
pub open spec fn sp_frame_backend(k: BackendKind, s: Seq<u8>, p: int) -> FrameRead<BackendMsgV> {
    match sp_frame_body(s, p) {
        FrameRead::FErr(e) => FrameRead::FErr(e),
        FrameRead::FGot(body, np) => match sp_msg_backend(k, body) {
            Ok(v) => FrameRead::FGot(v, np),
            Err(e) => FrameRead::FErr(e),
        },
    }
}

/// Reading a whole frontend frame at `p` (its tag already consumed).
pub open spec fn sp_frame_frontend(k: FrontendKind, s: Seq<u8>, p: int) -> FrameRead<
    FrontendMsgV,
> {
    match sp_frame_body(s, p) {
        FrameRead::FErr(e) => FrameRead::FErr(e),
        FrameRead::FGot(body, np) => match sp_msg_frontend(k, body) {
            Ok(v) => FrameRead::FGot(v, np),
            Err(e) => FrameRead::FErr(e),
        },
    }
}

/// Reading a whole authentication frame at `p` (its tag already consumed).
pub open spec fn sp_frame_auth(s: Seq<u8>, p: int) -> FrameRead<AuthenticationV> {
    match sp_frame_body(s, p) {
        FrameRead::FErr(e) => FrameRead::FErr(e),
        FrameRead::FGot(body, np) => match sp_msg_auth(body) {
            Ok(v) => FrameRead::FGot(v, np),
            Err(e) => FrameRead::FErr(e),
        },
    }
}

/// Reading a whole initial frame at `p` (initial frames carry no tag).
pub open spec fn sp_frame_initial(s: Seq<u8>, p: int) -> FrameRead<InitialV> {
    match sp_frame_body(s, p) {
        FrameRead::FErr(e) => FrameRead::FErr(e),
        FrameRead::FGot(body, np) => match sp_msg_initial(body) {
            Ok(v) => FrameRead::FGot(v, np),
            Err(e) => FrameRead::FErr(e),
        },
    }
}

/// What one frontend turn of the steady loop does.
pub enum FStepV {
    /// The message conveyed, the new cursor, the next state.
    FNext(FrontendMsgV, int, State),
    /// A `Terminate`: conveyed, then the conveyor ends with success.
    FEnd(FrontendMsgV, int),
    /// The turn fails; nothing was conveyed.
    FFail(ConveyError),
}

/// What one backend turn of the steady loop does.
pub enum BStepV {
    /// The message conveyed, the new cursor, the next state.
    BNext(BackendMsgV, int, State),
    /// An error response before authentication: conveyed, then the conveyor
    /// ends with success.
    BEnd(BackendMsgV, int),
    /// An authentication variant the conveyor refuses or did not expect:
    /// conveyed and forwarded first, then the conveyor fails.
    BFailAfter(BackendMsgV, int, ConveyError),
    /// The turn fails; nothing was conveyed.
    BFail(ConveyError),
}

/// One frontend turn: a tag byte, the dispatch verdict, and the frame.
pub open spec fn sp_step_frontend(front: Seq<u8>, fp: int, st: State) -> FStepV {
    match sp_u8(front, fp) {
        Taken::Short(_) => FStepV::FFail(ConveyError::IoError(IoProblem::UnexpectedEof)),
        Taken::Got(b, fp1) => match sp_dispatch(Side::Frontend, b, st) {
            Dispatch::Unknown => FStepV::FFail(ConveyError::UnknownType(Side::Frontend, b)),
            Dispatch::Unexpected(t) => FStepV::FFail(
                ConveyError::UnexpectedType(st, Side::Frontend, t),
            ),
            Dispatch::ActFrontend(step, t) => match step {
                Step::Convey(k, st2) => match sp_frame_frontend(k, front, fp1) {
                    FrameRead::FGot(v, fp2) => FStepV::FNext(v, fp2, st2),
                    FrameRead::FErr(e) => FStepV::FFail(e),
                },
                Step::End(k) => match sp_frame_frontend(k, front, fp1) {
                    FrameRead::FGot(v, fp2) => FStepV::FEnd(v, fp2),
                    FrameRead::FErr(e) => FStepV::FFail(e),
                },
                _ => FStepV::FFail(ConveyError::UnknownType(Side::Frontend, b)),
            },
            Dispatch::ActBackend(_, _) => FStepV::FFail(ConveyError::UnknownType(Side::Frontend, b)),
        },
    }
}

/// One backend turn: a tag byte, the dispatch verdict, and the frame; an
/// `Authentication` frame picks the next state by its decoded variant.
pub open spec fn sp_step_backend(back: Seq<u8>, bp: int, st: State) -> BStepV {
    match sp_u8(back, bp) {
        Taken::Short(_) => BStepV::BFail(ConveyError::IoError(IoProblem::UnexpectedEof)),
        Taken::Got(b, bp1) => match sp_dispatch(Side::Backend, b, st) {
            Dispatch::Unknown => BStepV::BFail(ConveyError::UnknownType(Side::Backend, b)),
            Dispatch::Unexpected(t) => BStepV::BFail(
                ConveyError::UnexpectedType(st, Side::Backend, t),
            ),
            Dispatch::ActBackend(step, t) => match step {
                Step::Convey(k, st2) => match sp_frame_backend(k, back, bp1) {
                    FrameRead::FGot(v, bp2) => BStepV::BNext(v, bp2, st2),
                    FrameRead::FErr(e) => BStepV::BFail(e),
                },
                Step::End(k) => match sp_frame_backend(k, back, bp1) {
                    FrameRead::FGot(v, bp2) => BStepV::BEnd(v, bp2),
                    FrameRead::FErr(e) => BStepV::BFail(e),
                },
                Step::Auth => match sp_frame_auth(back, bp1) {
                    FrameRead::FGot(av, bp2) => match sp_auth_transition(av, st) {
                        AuthStep::Next(st2) => BStepV::BNext(
                            BackendMsgV::Authentication(av),
                            bp2,
                            st2,
                        ),
                        AuthStep::Refuse(rsn) => BStepV::BFailAfter(
                            BackendMsgV::Authentication(av),
                            bp2,
                            ConveyError::Unsupported(rsn),
                        ),
                        AuthStep::Unexpected => BStepV::BFailAfter(
                            BackendMsgV::Authentication(av),
                            bp2,
                            ConveyError::UnexpectedType(st, Side::Backend, TypeByte::Authentication),
                        ),
                    },
                    FrameRead::FErr(e) => BStepV::BFail(e),
                },
                _ => BStepV::BFail(ConveyError::UnknownType(Side::Backend, b)),
            },
            Dispatch::ActFrontend(_, _) => BStepV::BFail(ConveyError::UnknownType(Side::Backend, b)),
        },
    }
}

/// What a whole conveyor run yields: the messages surfaced in order, the
/// terminal result, and how many bytes were consumed from each leg.
pub struct SpecOutcome {
    pub msgs: Seq<MessageV>,
    pub result: Result<(), ConveyError>,
    pub fpos: int,
    pub bpos: int,
}

/// The steady-state loop from configuration `(fp, bp, st)` on, taking turns
/// as the arrival schedule dictates; an exhausted schedule models both legs
/// reaching their end, which before a terminating state is an error.
pub open spec fn sp_steady(
    front: Seq<u8>,
    back: Seq<u8>,
    fp: int,
    bp: int,
    st: State,
    arr: Seq<Side>,
    i: int,
    msgs: Seq<MessageV>,
) -> SpecOutcome
    decreases arr.len() - i,
{
    if i < 0 || i >= arr.len() {
        SpecOutcome {
            msgs,
            result: Err(ConveyError::IoError(IoProblem::UnexpectedEof)),
            fpos: fp,
            bpos: bp,
        }
    } else if arr[i] is Frontend {
        match sp_step_frontend(front, fp, st) {
            FStepV::FNext(mv, fp2, st2) => sp_steady(
                front,
                back,
                fp2,
                bp,
                st2,
                arr,
                i + 1,
                msgs.push(MessageV::Frontend(mv)),
            ),
            FStepV::FEnd(mv, fp2) => SpecOutcome {
                msgs: msgs.push(MessageV::Frontend(mv)),
                result: Ok(()),
                fpos: fp2,
                bpos: bp,
            },
            FStepV::FFail(e) => SpecOutcome { msgs, result: Err(e), fpos: fp, bpos: bp },
        }
    } else {
        match sp_step_backend(back, bp, st) {
            BStepV::BNext(mv, bp2, st2) => sp_steady(
                front,
                back,
                fp,
                bp2,
                st2,
                arr,
                i + 1,
                msgs.push(MessageV::Backend(mv)),
            ),
            BStepV::BEnd(mv, bp2) => SpecOutcome {
                msgs: msgs.push(MessageV::Backend(mv)),
                result: Ok(()),
                fpos: fp,
                bpos: bp2,
            },
            BStepV::BFailAfter(mv, bp2, e) => SpecOutcome {
                msgs: msgs.push(MessageV::Backend(mv)),
                result: Err(e),
                fpos: fp,
                bpos: bp2,
            },
            BStepV::BFail(e) => SpecOutcome { msgs, result: Err(e), fpos: fp, bpos: bp },
        }
    }
}

/// The conveyor's continuation once a TLS request was answered: the next
/// initial frame from the frontend, which must not ask for TLS again.
pub open spec fn sp_after_tls_answer(
    front: Seq<u8>,
    back: Seq<u8>,
    fp: int,
    bp: int,
    arr: Seq<Side>,
    msgs: Seq<MessageV>,
) -> SpecOutcome {
    match sp_frame_initial(front, fp) {
        FrameRead::FErr(e) => SpecOutcome { msgs, result: Err(e), fpos: fp, bpos: bp },
        FrameRead::FGot(iv, fp2) => {
            let msgs2 = msgs.push(MessageV::Frontend(FrontendMsgV::Initial(iv)));
            match iv {
                InitialV::Cancel(_) => SpecOutcome {
                    msgs: msgs2,
                    result: Ok(()),
                    fpos: fp2,
                    bpos: bp,
                },
                InitialV::Startup(_) => sp_steady(
                    front,
                    back,
                    fp2,
                    bp,
                    State::GotStartup,
                    arr,
                    0,
                    msgs2,
                ),
                InitialV::TLS => SpecOutcome {
                    msgs: msgs2,
                    result: Err(ConveyError::TlsError(TlsError::TlsRequestedInsideTls)),
                    fpos: fp2,
                    bpos: bp,
                },
            }
        },
    }
}

/// The whole conveyor: the initial phase — a first frontend frame, a
/// possible TLS exchange — and then the steady loop.
pub open spec fn sp_convey(front: Seq<u8>, back: Seq<u8>, arr: Seq<Side>) -> SpecOutcome {
    match sp_frame_initial(front, 0) {
        FrameRead::FErr(e) => SpecOutcome {
            msgs: Seq::empty(),
            result: Err(e),
            fpos: 0,
            bpos: 0,
        },
        FrameRead::FGot(iv, fp) => {
            let msgs = seq![MessageV::Frontend(FrontendMsgV::Initial(iv))];
            match iv {
                InitialV::Cancel(_) => SpecOutcome { msgs, result: Ok(()), fpos: fp, bpos: 0 },
                InitialV::Startup(_) => sp_steady(
                    front,
                    back,
                    fp,
                    0,
                    State::GotStartup,
                    arr,
                    0,
                    msgs,
                ),
                InitialV::TLS => match sp_u8(back, 0) {
                    Taken::Short(_) => SpecOutcome {
                        msgs,
                        result: Err(ConveyError::IoError(IoProblem::UnexpectedEof)),
                        fpos: fp,
                        bpos: 0,
                    },
                    Taken::Got(b, bp) => if b == 0x53 || b == 0x4e {
                        sp_after_tls_answer(front, back, fp, bp, arr, msgs)
                    } else if b == 0x45 {
                        match sp_frame_backend(BackendKind::ErrorResponse, back, bp) {
                            FrameRead::FErr(e) => SpecOutcome {
                                msgs,
                                result: Err(e),
                                fpos: fp,
                                bpos: bp,
                            },
                            FrameRead::FGot(v, bp2) => SpecOutcome {
                                msgs: msgs.push(MessageV::Backend(v)),
                                result: Ok(()),
                                fpos: fp,
                                bpos: bp2,
                            },
                        }
                    } else {
                        SpecOutcome {
                            msgs,
                            result: Err(ConveyError::UnknownType(Side::Backend, b)),
                            fpos: fp,
                            bpos: bp,
                        }
                    },
                },
            }
        },
    }
}


/// Reads a frame's length word and body off a leg.
fn read_frame_body(src: &mut BytesSource) -> (r: ConveyResult<(u32, Vec<u8>)>)
    requires
        old(src).wf(),
    ensures
        final(src).wf(),
        final(src).all() == old(src).all(),
        match sp_frame_body(old(src).all(), old(src).at()) {
            FrameRead::FGot(body, np) => r matches Ok(got) && got.1@ == body && got.0 == be32_at(
                old(src).all(),
                old(src).at(),
            ) && final(src).at() == np && np == old(src).at() + 4 + body.len(),
            FrameRead::FErr(e) => r == ConveyResult::<(u32, Vec<u8>)>::Err(e),
        },
{
    let len32 = match src.take_u32() {
        Ok(x) => x,
        Err(_) => {
            return Err(ConveyError::IoError(IoProblem::UnexpectedEof));
        },
    };
    if len32 < 4 {
        return Err(ConveyError::EncodeError(encode::Problem::OutOfSpace((4 - len32) as usize)));
    }
    let body = match src.take_vec((len32 - 4) as usize) {
        Ok(x) => x,
        Err(_) => {
            return Err(ConveyError::IoError(IoProblem::UnexpectedEof));
        },
    };
    Ok((len32, body))
}

/// Decodes one backend body, by kind, insisting that it is consumed whole.
fn decode_backend_msg(k: BackendKind, body: &Vec<u8>) -> (r: ConveyResult<BackendMsgClone>)
    ensures
        match sp_msg_backend(k, body@) {
            Ok(v) => r matches Ok(m) && m@ == v,
            Err(e) => r == ConveyResult::<BackendMsgClone>::Err(e),
        },
{
    let mut src = BytesSource::new(body.as_slice());
    let m = match k {
        BackendKind::Authentication => match Authentication::decode_body(&mut src) {
            Ok(m) => BackendMsgClone::Authentication(m),
            Err(e) => {
                return Err(ConveyError::DecodeError(e));
            },
        },
        BackendKind::BackendKeyData => match BackendKeyData::decode_body(&mut src) {
            Ok(m) => BackendMsgClone::BackendKeyData(m),
            Err(e) => {
                return Err(ConveyError::DecodeError(e));
            },
        },
        BackendKind::BindComplete => match BindComplete::decode_body(&mut src) {
            Ok(m) => BackendMsgClone::BindComplete(m),
            Err(e) => {
                return Err(ConveyError::DecodeError(e));
            },
        },
        BackendKind::CommandComplete => match CommandComplete::decode_body(&mut src) {
            Ok(m) => BackendMsgClone::CommandComplete(m),
            Err(e) => {
                return Err(ConveyError::DecodeError(e));
            },
        },
        BackendKind::DataRow => match DataRow::decode_body(&mut src) {
            Ok(m) => BackendMsgClone::DataRow(m),
            Err(e) => {
                return Err(ConveyError::DecodeError(e));
            },
        },
        BackendKind::EmptyQueryResponse => match EmptyQueryResponse::decode_body(&mut src) {
            Ok(m) => BackendMsgClone::EmptyQueryResponse(m),
            Err(e) => {
                return Err(ConveyError::DecodeError(e));
            },
        },
        BackendKind::ErrorResponse => match ErrorResponse::decode_body(&mut src) {
            Ok(m) => BackendMsgClone::ErrorResponse(m),
            Err(e) => {
                return Err(ConveyError::DecodeError(e));
            },
        },
        BackendKind::NegotiateProtocolVersion => match NegotiateProtocolVersion::decode_body(
            &mut src,
        ) {
            Ok(m) => BackendMsgClone::NegotiateProtocolVersion(m),
            Err(e) => {
                return Err(ConveyError::DecodeError(e));
            },
        },
        BackendKind::NoticeResponse => match NoticeResponse::decode_body(&mut src) {
            Ok(m) => BackendMsgClone::NoticeResponse(m),
            Err(e) => {
                return Err(ConveyError::DecodeError(e));
            },
        },
        BackendKind::ParameterStatus => match ParameterStatus::decode_body(&mut src) {
            Ok(m) => BackendMsgClone::ParameterStatus(m),
            Err(e) => {
                return Err(ConveyError::DecodeError(e));
            },
        },
        BackendKind::ParseComplete => match ParseComplete::decode_body(&mut src) {
            Ok(m) => BackendMsgClone::ParseComplete(m),
            Err(e) => {
                return Err(ConveyError::DecodeError(e));
            },
        },
        BackendKind::PortalSuspended => match PortalSuspended::decode_body(&mut src) {
            Ok(m) => BackendMsgClone::PortalSuspended(m),
            Err(e) => {
                return Err(ConveyError::DecodeError(e));
            },
        },
        BackendKind::ReadyForQuery => match ReadyForQuery::decode_body(&mut src) {
            Ok(m) => BackendMsgClone::ReadyForQuery(m),
            Err(e) => {
                return Err(ConveyError::DecodeError(e));
            },
        },
        BackendKind::RowDescription => match RowDescription::decode_body(&mut src) {
            Ok(m) => BackendMsgClone::RowDescription(m),
            Err(e) => {
                return Err(ConveyError::DecodeError(e));
            },
        },
    };
    let left = src.left();
    if left != 0 {
        return Err(ConveyError::LeftUndecoded(left));
    }
    Ok(m)
}

/// Decodes one frontend body, by kind, insisting that it is consumed whole.
fn decode_frontend_msg(k: FrontendKind, body: &Vec<u8>) -> (r: ConveyResult<FrontendMsgClone>)
    ensures
        match sp_msg_frontend(k, body@) {
            Ok(v) => r matches Ok(m) && m@ == v,
            Err(e) => r == ConveyResult::<FrontendMsgClone>::Err(e),
        },
{
    let mut src = BytesSource::new(body.as_slice());
    let m = match k {
        FrontendKind::Bind => match Bind::decode_body(&mut src) {
            Ok(m) => FrontendMsgClone::Bind(m),
            Err(e) => {
                return Err(ConveyError::DecodeError(e));
            },
        },
        FrontendKind::Execute => match Execute::decode_body(&mut src) {
            Ok(m) => FrontendMsgClone::Execute(m),
            Err(e) => {
                return Err(ConveyError::DecodeError(e));
            },
        },
        FrontendKind::GssResponse => match GssResponse::decode_body(&mut src) {
            Ok(m) => FrontendMsgClone::GssResponse(m),
            Err(e) => {
                return Err(ConveyError::DecodeError(e));
            },
        },
        FrontendKind::Parse => match Parse::decode_body(&mut src) {
            Ok(m) => FrontendMsgClone::Parse(m),
            Err(e) => {
                return Err(ConveyError::DecodeError(e));
            },
        },
        FrontendKind::Password => match Password::decode_body(&mut src) {
            Ok(m) => FrontendMsgClone::Password(m),
            Err(e) => {
                return Err(ConveyError::DecodeError(e));
            },
        },
        FrontendKind::Query => match Query::decode_body(&mut src) {
            Ok(m) => FrontendMsgClone::Query(m),
            Err(e) => {
                return Err(ConveyError::DecodeError(e));
            },
        },
        FrontendKind::SaslInitialResponse => match SaslInitialResponse::decode_body(&mut src) {
            Ok(m) => FrontendMsgClone::SaslInitialResponse(m),
            Err(e) => {
                return Err(ConveyError::DecodeError(e));
            },
        },
        FrontendKind::SaslResponse => match SaslResponse::decode_body(&mut src) {
            Ok(m) => FrontendMsgClone::SaslResponse(m),
            Err(e) => {
                return Err(ConveyError::DecodeError(e));
            },
        },
        FrontendKind::Sync => match Sync::decode_body(&mut src) {
            Ok(m) => FrontendMsgClone::Sync(m),
            Err(e) => {
                return Err(ConveyError::DecodeError(e));
            },
        },
        FrontendKind::Terminate => match Terminate::decode_body(&mut src) {
            Ok(m) => FrontendMsgClone::Terminate(m),
            Err(e) => {
                return Err(ConveyError::DecodeError(e));
            },
        },
    };
    let left = src.left();
    if left != 0 {
        return Err(ConveyError::LeftUndecoded(left));
    }
    Ok(m)
}

/// Decodes an authentication body, insisting that it is consumed whole.
fn decode_auth_msg(body: &Vec<u8>) -> (r: ConveyResult<Authentication>)
    ensures
        match sp_msg_auth(body@) {
            Ok(v) => r matches Ok(m) && m@ == v,
            Err(e) => r == ConveyResult::<Authentication>::Err(e),
        },
{
    let mut src = BytesSource::new(body.as_slice());
    let m = match Authentication::decode_body(&mut src) {
        Ok(m) => m,
        Err(e) => {
            return Err(ConveyError::DecodeError(e));
        },
    };
    let left = src.left();
    if left != 0 {
        return Err(ConveyError::LeftUndecoded(left));
    }
    Ok(m)
}

/// Decodes an initial body, insisting that it is consumed whole.
fn decode_initial_msg(body: &Vec<u8>) -> (r: ConveyResult<Initial>)
    ensures
        match sp_msg_initial(body@) {
            Ok(v) => r matches Ok(m) && m@ == v,
            Err(e) => r == ConveyResult::<Initial>::Err(e),
        },
{
    let mut src = BytesSource::new(body.as_slice());
    let m = match Initial::decode_body(&mut src) {
        Ok(m) => m,
        Err(e) => {
            return Err(ConveyError::DecodeError(e));
        },
    };
    let left = src.left();
    if left != 0 {
        return Err(ConveyError::LeftUndecoded(left));
    }
    Ok(m)
}

/// Appends the rebuilt frame — the tag if any, the length word, the body —
/// to the bytes bound for the opposite leg.
fn emit_frame(out: &mut Vec<u8>, tag: Option<u8>, len32: u32, body: &Vec<u8>)
    ensures
        final(out)@ == old(out)@ + (match tag {
            Some(t) => seq![t],
            None => Seq::<u8>::empty(),
        }) + u32_be_bytes(len32) + body@,
{
    let ghost start = out@;
    match tag {
        Some(t) => {
            out.push(t);
        },
        None => {},
    }
    out.push((len32 >> 24) as u8);
    out.push(((len32 >> 16) & 0xff) as u8);
    out.push(((len32 >> 8) & 0xff) as u8);
    let ghost mid = out@;
    out.push((len32 & 0xff) as u8);
    proof {
        assert(out@ =~= start + (match tag {
            Some(t) => seq![t],
            None => Seq::<u8>::empty(),
        }) + u32_be_bytes(len32));
    }
    let ghost with_header = out@;
    let n = body.len();
    let mut i: usize = 0;
    while i < n
        invariant
            i <= n,
            n == body@.len(),
            out@ == with_header + body@.subrange(0, i as int),
        decreases n - i,
    {
        let b = body[i];
        let ghost prev = out@;
        out.push(b);
        i = i + 1;
        proof {
            assert(out@ =~= with_header + body@.subrange(0, i as int));
        }
    }
    proof {
        assert(body@.subrange(0, n as int) =~= body@);
        assert(out@ =~= start + (match tag {
            Some(t) => seq![t],
            None => Seq::<u8>::empty(),
        }) + u32_be_bytes(len32) + body@);
    }
}

/// Reads, decodes and forwards one backend frame whose tag was already
/// consumed, keeping the forwarded bytes an exact image of the consumed
/// ones.
fn convey_backend_frame(k: BackendKind, tag: u8, src: &mut BytesSource, out: &mut Vec<u8>) -> (r:
    ConveyResult<BackendMsgClone>)
    requires
        old(src).wf(),
        old(src).at() >= 1,
        old(src).all()[old(src).at() - 1] == tag,
        old(out)@ == old(src).all().subrange(0, old(src).at() - 1),
    ensures
        final(src).wf(),
        final(src).all() == old(src).all(),
        match sp_frame_backend(k, old(src).all(), old(src).at()) {
            FrameRead::FGot(v, np) => r matches Ok(m) && m@ == v && final(src).at() == np
                && final(out)@ == old(src).all().subrange(0, np),
            FrameRead::FErr(e) => r == ConveyResult::<BackendMsgClone>::Err(e) && (*final(out) == *old(out)),
        },
{
    let ghost s = old(src).all();
    let ghost p = old(src).at();
    let (len32, body) = match read_frame_body(src) {
        Ok(x) => x,
        Err(e) => {
            return Err(e);
        },
    };
    let m = match decode_backend_msg(k, &body) {
        Ok(m) => m,
        Err(e) => {
            return Err(e);
        },
    };
    emit_frame(out, Some(tag), len32, &body);
    proof {
        lemma_be32_bytes_id(s, p);
        assert(out@ =~= s.subrange(0, src.at()));
    }
    Ok(m)
}

/// Reads, decodes and forwards one frontend frame whose tag was already
/// consumed.
fn convey_frontend_frame(k: FrontendKind, tag: u8, src: &mut BytesSource, out: &mut Vec<u8>) -> (r:
    ConveyResult<FrontendMsgClone>)
    requires
        old(src).wf(),
        old(src).at() >= 1,
        old(src).all()[old(src).at() - 1] == tag,
        old(out)@ == old(src).all().subrange(0, old(src).at() - 1),
    ensures
        final(src).wf(),
        final(src).all() == old(src).all(),
        match sp_frame_frontend(k, old(src).all(), old(src).at()) {
            FrameRead::FGot(v, np) => r matches Ok(m) && m@ == v && final(src).at() == np
                && final(out)@ == old(src).all().subrange(0, np),
            FrameRead::FErr(e) => r == ConveyResult::<FrontendMsgClone>::Err(e) && (*final(out) == *old(out)),
        },
{
    let ghost s = old(src).all();
    let ghost p = old(src).at();
    let (len32, body) = match read_frame_body(src) {
        Ok(x) => x,
        Err(e) => {
            return Err(e);
        },
    };
    let m = match decode_frontend_msg(k, &body) {
        Ok(m) => m,
        Err(e) => {
            return Err(e);
        },
    };
    emit_frame(out, Some(tag), len32, &body);
    proof {
        lemma_be32_bytes_id(s, p);
        assert(out@ =~= s.subrange(0, src.at()));
    }
    Ok(m)
}

/// Reads, decodes and forwards one authentication frame whose tag was
/// already consumed.
fn convey_auth_frame(tag: u8, src: &mut BytesSource, out: &mut Vec<u8>) -> (r: ConveyResult<
    Authentication,
>)
    requires
        old(src).wf(),
        old(src).at() >= 1,
        old(src).all()[old(src).at() - 1] == tag,
        old(out)@ == old(src).all().subrange(0, old(src).at() - 1),
    ensures
        final(src).wf(),
        final(src).all() == old(src).all(),
        match sp_frame_auth(old(src).all(), old(src).at()) {
            FrameRead::FGot(v, np) => r matches Ok(m) && m@ == v && final(src).at() == np
                && final(out)@ == old(src).all().subrange(0, np),
            FrameRead::FErr(e) => r == ConveyResult::<Authentication>::Err(e) && (*final(out) == *old(out)),
        },
{
    let ghost s = old(src).all();
    let ghost p = old(src).at();
    let (len32, body) = match read_frame_body(src) {
        Ok(x) => x,
        Err(e) => {
            return Err(e);
        },
    };
    let m = match decode_auth_msg(&body) {
        Ok(m) => m,
        Err(e) => {
            return Err(e);
        },
    };
    emit_frame(out, Some(tag), len32, &body);
    proof {
        lemma_be32_bytes_id(s, p);
        assert(out@ =~= s.subrange(0, src.at()));
    }
    Ok(m)
}

/// Reads, decodes and forwards one initial frame, which carries no tag.
fn convey_initial_frame(
    src: &mut BytesSource,
    out: &mut Vec<u8>,
) -> (r: ConveyResult<Initial>)
    requires
        old(src).wf(),
        old(out)@ == old(src).all().subrange(0, old(src).at()),
    ensures
        final(src).wf(),
        final(src).all() == old(src).all(),
        match sp_frame_initial(old(src).all(), old(src).at()) {
            FrameRead::FGot(v, np) => r matches Ok(m) && m@ == v && final(src).at() == np
                && final(out)@ == old(src).all().subrange(0, np),
            FrameRead::FErr(e) => r == ConveyResult::<Initial>::Err(e) && (*final(out) == *old(out)),
        },
{
    let ghost s = old(src).all();
    let ghost p = old(src).at();
    let (len32, body) = match read_frame_body(src) {
        Ok(x) => x,
        Err(e) => {
            return Err(e);
        },
    };
    let m = match decode_initial_msg(&body) {
        Ok(m) => m,
        Err(e) => {
            return Err(e);
        },
    };
    emit_frame(out, None, len32, &body);
    proof {
        lemma_be32_bytes_id(s, p);
        assert(out@ =~= s.subrange(0, src.at()));
    }
    Ok(m)
}


/// How one backend turn ends when its frame was read and forwarded.
pub enum BackendTurn {
    /// The loop goes on in this state.
    BContinue(BackendMsgClone, State),
    /// An error response before authentication: the conveyor ends well.
    BDone(BackendMsgClone),
    /// The message was conveyed, but what it holds ends the conveyor.
    BAbort(BackendMsgClone, ConveyError),
}

/// One frontend turn: tag byte, dispatch, frame; `None` as the state means a
/// clean termination.
fn step_frontend(src: &mut BytesSource, out: &mut Vec<u8>, st: State) -> (r: ConveyResult<(
    FrontendMsgClone,
    Option<State>,
)>)
    requires
        old(src).wf(),
        old(out)@ == old(src).all().subrange(0, old(src).at()),
    ensures
        final(src).wf(),
        final(src).all() == old(src).all(),
        match sp_step_frontend(old(src).all(), old(src).at(), st) {
            FStepV::FNext(mv, fp2, st2) => (r matches Ok(got) && got.0@ == mv && got.1 == Some(
                st2,
            )) && final(src).at() == fp2 && final(out)@ == old(src).all().subrange(0, fp2),
            FStepV::FEnd(mv, fp2) => (r matches Ok(got) && got.0@ == mv && got.1 is None)
                && final(src).at() == fp2 && final(out)@ == old(src).all().subrange(0, fp2),
            FStepV::FFail(e) => r == ConveyResult::<(FrontendMsgClone, Option<State>)>::Err(e) && (
            *final(out) == *old(out)),
        },
{
    let tag = match src.take_u8() {
        Ok(x) => x,
        Err(_) => {
            return Err(ConveyError::IoError(IoProblem::UnexpectedEof));
        },
    };
    let t = match TypeByte::of_byte(tag) {
        Some(t) => t,
        None => {
            return Err(ConveyError::UnknownType(Side::Frontend, tag));
        },
    };
    match transition_frontend(t, st) {
        Step::Convey(k, st2) => match convey_frontend_frame(k, tag, src, out) {
            Ok(m) => Ok((m, Some(st2))),
            Err(e) => Err(e),
        },
        Step::End(k) => match convey_frontend_frame(k, tag, src, out) {
            Ok(m) => Ok((m, None)),
            Err(e) => Err(e),
        },
        Step::Auth => Err(ConveyError::UnknownType(Side::Frontend, tag)),
        Step::Unexpected => Err(ConveyError::UnexpectedType(st, Side::Frontend, t)),
    }
}

/// One backend turn: tag byte, dispatch, frame; an authentication frame
/// picks the next state — or the conveyor's refusal — by its variant.
fn step_backend(src: &mut BytesSource, out: &mut Vec<u8>, st: State) -> (r: ConveyResult<
    BackendTurn,
>)
    requires
        old(src).wf(),
        old(out)@ == old(src).all().subrange(0, old(src).at()),
    ensures
        final(src).wf(),
        final(src).all() == old(src).all(),
        match sp_step_backend(old(src).all(), old(src).at(), st) {
            BStepV::BNext(mv, bp2, st2) => (r matches Ok(BackendTurn::BContinue(m, s2)) && m@ == mv
                && s2 == st2) && final(src).at() == bp2 && final(out)@ == old(src).all().subrange(
                0,
                bp2,
            ),
            BStepV::BEnd(mv, bp2) => (r matches Ok(BackendTurn::BDone(m)) && m@ == mv)
                && final(src).at() == bp2 && final(out)@ == old(src).all().subrange(0, bp2),
            BStepV::BFailAfter(mv, bp2, e) => (r matches Ok(BackendTurn::BAbort(m, e2)) && m@ == mv
                && e2 == e) && final(src).at() == bp2 && final(out)@ == old(src).all().subrange(
                0,
                bp2,
            ),
            BStepV::BFail(e) => r == ConveyResult::<BackendTurn>::Err(e) && (*final(out) == *old(out)),
        },
{
    let tag = match src.take_u8() {
        Ok(x) => x,
        Err(_) => {
            return Err(ConveyError::IoError(IoProblem::UnexpectedEof));
        },
    };
    let t = match TypeByte::of_byte(tag) {
        Some(t) => t,
        None => {
            return Err(ConveyError::UnknownType(Side::Backend, tag));
        },
    };
    match transition_backend(t, st) {
        Step::Convey(k, st2) => match convey_backend_frame(k, tag, src, out) {
            Ok(m) => Ok(BackendTurn::BContinue(m, st2)),
            Err(e) => Err(e),
        },
        Step::End(k) => match convey_backend_frame(k, tag, src, out) {
            Ok(m) => Ok(BackendTurn::BDone(m)),
            Err(e) => Err(e),
        },
        Step::Auth => match convey_auth_frame(tag, src, out) {
            Ok(a) => {
                let next = auth_transition(&a, st);
                let m = BackendMsgClone::Authentication(a);
                match next {
                    AuthStep::Next(st2) => Ok(BackendTurn::BContinue(m, st2)),
                    AuthStep::Refuse(rsn) => Ok(
                        BackendTurn::BAbort(m, ConveyError::Unsupported(rsn)),
                    ),
                    AuthStep::Unexpected => Ok(
                        BackendTurn::BAbort(
                            m,
                            ConveyError::UnexpectedType(
                                st,
                                Side::Backend,
                                TypeByte::Authentication,
                            ),
                        ),
                    ),
                }
            },
            Err(e) => Err(e),
        },
        Step::Unexpected => Err(ConveyError::UnexpectedType(st, Side::Backend, t)),
    }
}

/// Everything one conveyor run produced: the messages surfaced to the
/// observer in order, the bytes bound for each leg, and the terminal result.
pub struct ConveyOutcome {
    pub messages: Vec<MessageClone>,
    pub to_backend: Vec<u8>,
    pub to_frontend: Vec<u8>,
    pub result: Result<(), ConveyError>,
}

/// Runs a whole conveyor over two in-memory legs, with `arrivals` saying
/// which side wins the race at each steady-state turn.
///
/// The contract pins the run to its mathematical mirror `sp_convey`: the
/// observer sees exactly the well-framed messages in arrival order, and on a
/// clean end the bytes bound for one leg are exactly the bytes consumed from
/// the other — the conveyor is transparent. Whatever happens, it never
/// forwards bytes it did not read.
pub fn run_conveyor(frontend: &[u8], backend: &[u8], arrivals: &[Side]) -> (r: ConveyOutcome)
    ensures
        ({
            let se = sp_convey(frontend@, backend@, arrivals@);
            &&& vec_view(r.messages) == se.msgs
            &&& r.result == se.result
            &&& se.result is Ok ==> r.to_backend@ == frontend@.subrange(0, se.fpos)
                && r.to_frontend@ == backend@.subrange(0, se.bpos)
            &&& r.to_backend@.is_prefix_of(frontend@)
            &&& r.to_frontend@.is_prefix_of(backend@)
        }),
{
    let ghost fseq = frontend@;
    let ghost bseq = backend@;
    let ghost arr = arrivals@;
    let ghost se = sp_convey(fseq, bseq, arr);
    let mut fsrc = BytesSource::new(frontend);
    let mut bsrc = BytesSource::new(backend);
    let mut to_backend: Vec<u8> = Vec::new();
    let mut to_frontend: Vec<u8> = Vec::new();
    let mut messages: Vec<MessageClone> = Vec::new();
    proof {
        assert(to_backend@ =~= fseq.subrange(0, 0));
        assert(to_frontend@ =~= bseq.subrange(0, 0));
    }
    let first = match convey_initial_frame(&mut fsrc, &mut to_backend) {
        Ok(m) => m,
        Err(e) => {
            proof {
                assert(to_backend@.is_prefix_of(fseq));
                assert(to_frontend@.is_prefix_of(bseq));
            }
            return ConveyOutcome { messages, to_backend, to_frontend, result: Err(e) };
        },
    };
    let first_kind: u8 = match &first {
        Initial::Cancel(_) => 0,
        Initial::TLS => 1,
        Initial::Startup(_) => 2,
    };
    let ghost first_v = first@;
    messages.push(MessageClone::Frontend(FrontendMsgClone::Initial(first)));
    proof {
        assert(vec_view(messages) =~= seq![MessageV::Frontend(FrontendMsgV::Initial(first_v))]);
        assert(to_backend@.is_prefix_of(fseq)) by {
            assert(to_backend@ =~= fseq.subrange(0, to_backend@.len() as int));
        }
        assert(to_frontend@.is_prefix_of(bseq));
    }
    if first_kind == 0 {
        return ConveyOutcome { messages, to_backend, to_frontend, result: Ok(()) };
    }
    let mut state = State::GotStartup;
    if first_kind == 1 {
        let b = match bsrc.take_u8() {
            Ok(x) => x,
            Err(_) => {
                return ConveyOutcome {
                    messages,
                    to_backend,
                    to_frontend,
                    result: Err(ConveyError::IoError(IoProblem::UnexpectedEof)),
                };
            },
        };
        if b == 0x53 || b == 0x4e {
            to_frontend.push(b);
            proof {
                assert(to_frontend@ =~= bseq.subrange(0, bsrc.at()));
                assert(to_frontend@.is_prefix_of(bseq)) by {
                    assert(to_frontend@ =~= bseq.subrange(0, to_frontend@.len() as int));
                }
            }
            let second = match convey_initial_frame(&mut fsrc, &mut to_backend) {
                Ok(m) => m,
                Err(e) => {
                    proof {
                        assert(to_backend@.is_prefix_of(fseq));
                    }
                    return ConveyOutcome { messages, to_backend, to_frontend, result: Err(e) };
                },
            };
            let second_kind: u8 = match &second {
                Initial::Cancel(_) => 0,
                Initial::TLS => 1,
                Initial::Startup(_) => 2,
            };
            let ghost second_v = second@;
            let ghost msgs_before = vec_view(messages);
            messages.push(MessageClone::Frontend(FrontendMsgClone::Initial(second)));
            proof {
                assert(vec_view(messages) =~= msgs_before.push(
                    MessageV::Frontend(FrontendMsgV::Initial(second_v)),
                ));
                assert(to_backend@.is_prefix_of(fseq)) by {
                    assert(to_backend@ =~= fseq.subrange(0, to_backend@.len() as int));
                }
            }
            if second_kind == 0 {
                return ConveyOutcome { messages, to_backend, to_frontend, result: Ok(()) };
            }
            if second_kind == 1 {
                return ConveyOutcome {
                    messages,
                    to_backend,
                    to_frontend,
                    result: Err(ConveyError::TlsError(TlsError::TlsRequestedInsideTls)),
                };
            }
        } else if b == 0x45 {
            let m = match convey_backend_frame(
                BackendKind::ErrorResponse,
                b,
                &mut bsrc,
                &mut to_frontend,
            ) {
                Ok(m) => m,
                Err(e) => {
                    return ConveyOutcome { messages, to_backend, to_frontend, result: Err(e) };
                },
            };
            let ghost msgs_before = vec_view(messages);
            let ghost mv = m@;
            messages.push(MessageClone::Backend(m));
            proof {
                assert(vec_view(messages) =~= msgs_before.push(MessageV::Backend(mv)));
                assert(to_frontend@.is_prefix_of(bseq)) by {
                    assert(to_frontend@ =~= bseq.subrange(0, to_frontend@.len() as int));
                }
            }
            return ConveyOutcome { messages, to_backend, to_frontend, result: Ok(()) };
        } else {
            return ConveyOutcome {
                messages,
                to_backend,
                to_frontend,
                result: Err(ConveyError::UnknownType(Side::Backend, b)),
            };
        }
    }
    proof {
        assert(sp_steady(fseq, bseq, fsrc.at(), bsrc.at(), state, arr, 0, vec_view(messages))
            == se);
    }
    let mut i: usize = 0;
    while i < arrivals.len()
        invariant
            fseq == frontend@,
            bseq == backend@,
            arr == arrivals@,
            se == sp_convey(fseq, bseq, arr),
            i <= arrivals.len(),
            fsrc.wf(),
            bsrc.wf(),
            fsrc.all() == fseq,
            bsrc.all() == bseq,
            to_backend@ == fseq.subrange(0, fsrc.at()),
            to_frontend@ == bseq.subrange(0, bsrc.at()),
            sp_steady(fseq, bseq, fsrc.at(), bsrc.at(), state, arr, i as int, vec_view(messages))
                == se,
        decreases arrivals.len() - i,
    {
        let ghost fp_here = fsrc.at();
        let ghost bp_here = bsrc.at();
        let ghost msgs_here = vec_view(messages);
        let side = arrivals[i];
        match side {
            Side::Frontend => {
                match step_frontend(&mut fsrc, &mut to_backend, state) {
                    Ok((m, Some(st2))) => {
                        let ghost mv = m@;
                        messages.push(MessageClone::Frontend(m));
                        state = st2;
                        i = i + 1;
                        proof {
                            assert(vec_view(messages) =~= msgs_here.push(MessageV::Frontend(mv)));
                        }
                    },
                    Ok((m, None)) => {
                        let ghost mv = m@;
                        messages.push(MessageClone::Frontend(m));
                        proof {
                            assert(vec_view(messages) =~= msgs_here.push(MessageV::Frontend(mv)));
                            assert(to_backend@.is_prefix_of(fseq)) by {
                                assert(to_backend@ =~= fseq.subrange(
                                    0,
                                    to_backend@.len() as int,
                                ));
                            }
                            assert(to_frontend@.is_prefix_of(bseq)) by {
                                assert(to_frontend@ =~= bseq.subrange(
                                    0,
                                    to_frontend@.len() as int,
                                ));
                            }
                        }
                        return ConveyOutcome { messages, to_backend, to_frontend, result: Ok(()) };
                    },
                    Err(e) => {
                        proof {
                            assert(to_backend@.is_prefix_of(fseq)) by {
                                assert(to_backend@ =~= fseq.subrange(
                                    0,
                                    to_backend@.len() as int,
                                ));
                            }
                            assert(to_frontend@.is_prefix_of(bseq)) by {
                                assert(to_frontend@ =~= bseq.subrange(
                                    0,
                                    to_frontend@.len() as int,
                                ));
                            }
                        }
                        return ConveyOutcome {
                            messages,
                            to_backend,
                            to_frontend,
                            result: Err(e),
                        };
                    },
                }
            },
            Side::Backend => {
                match step_backend(&mut bsrc, &mut to_frontend, state) {
                    Ok(BackendTurn::BContinue(m, st2)) => {
                        let ghost mv = m@;
                        messages.push(MessageClone::Backend(m));
                        state = st2;
                        i = i + 1;
                        proof {
                            assert(vec_view(messages) =~= msgs_here.push(MessageV::Backend(mv)));
                        }
                    },
                    Ok(BackendTurn::BDone(m)) => {
                        let ghost mv = m@;
                        messages.push(MessageClone::Backend(m));
                        proof {
                            assert(vec_view(messages) =~= msgs_here.push(MessageV::Backend(mv)));
                            assert(to_backend@.is_prefix_of(fseq)) by {
                                assert(to_backend@ =~= fseq.subrange(
                                    0,
                                    to_backend@.len() as int,
                                ));
                            }
                            assert(to_frontend@.is_prefix_of(bseq)) by {
                                assert(to_frontend@ =~= bseq.subrange(
                                    0,
                                    to_frontend@.len() as int,
                                ));
                            }
                        }
                        return ConveyOutcome { messages, to_backend, to_frontend, result: Ok(()) };
                    },
                    Ok(BackendTurn::BAbort(m, e)) => {
                        let ghost mv = m@;
                        messages.push(MessageClone::Backend(m));
                        proof {
                            assert(vec_view(messages) =~= msgs_here.push(MessageV::Backend(mv)));
                            assert(to_backend@.is_prefix_of(fseq)) by {
                                assert(to_backend@ =~= fseq.subrange(
                                    0,
                                    to_backend@.len() as int,
                                ));
                            }
                            assert(to_frontend@.is_prefix_of(bseq)) by {
                                assert(to_frontend@ =~= bseq.subrange(
                                    0,
                                    to_frontend@.len() as int,
                                ));
                            }
                        }
                        return ConveyOutcome {
                            messages,
                            to_backend,
                            to_frontend,
                            result: Err(e),
                        };
                    },
                    Err(e) => {
                        proof {
                            assert(to_backend@.is_prefix_of(fseq)) by {
                                assert(to_backend@ =~= fseq.subrange(
                                    0,
                                    to_backend@.len() as int,
                                ));
                            }
                            assert(to_frontend@.is_prefix_of(bseq)) by {
                                assert(to_frontend@ =~= bseq.subrange(
                                    0,
                                    to_frontend@.len() as int,
                                ));
                            }
                        }
                        return ConveyOutcome {
                            messages,
                            to_backend,
                            to_frontend,
                            result: Err(e),
                        };
                    },
                }
            },
        }
    }
    proof {
        assert(to_backend@.is_prefix_of(fseq)) by {
            assert(to_backend@ =~= fseq.subrange(0, to_backend@.len() as int));
        }
        assert(to_frontend@.is_prefix_of(bseq)) by {
            assert(to_frontend@ =~= bseq.subrange(0, to_frontend@.len() as int));
        }
    }
    ConveyOutcome {
        messages,
        to_backend,
        to_frontend,
        result: Err(ConveyError::IoError(IoProblem::UnexpectedEof)),
    }
}

} // verus!
