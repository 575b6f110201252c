//! Whole-conveyor runs over in-memory legs: the observer must see exactly
//! the pushed messages, in order, and the conveyor must end as the trace
//! demands.

use postgread::convey::run::run_conveyor;
use postgread::convey::{
    BackendMsgClone, ConveyError, ConveyResult, FrontendMsgClone, MessageClone, Side,
};
use postgread::msg::body::authentication::Authentication;
use postgread::msg::body::backend_key_data::BackendKeyData;
use postgread::msg::body::bind::Bind;
use postgread::msg::body::bind_complete::BindComplete;
use postgread::msg::body::command_complete::CommandComplete;
use postgread::msg::body::data_row::DataRow;
use postgread::msg::body::empty_query_response::EmptyQueryResponse;
use postgread::msg::body::error_and_notice_responses::{
    ErrorOrNoticeFields, ErrorResponse, NoticeResponse,
};
use postgread::msg::body::execute::Execute;
use postgread::msg::body::initial::{Cancel, Initial, Startup, StartupParam, Version};
use postgread::msg::body::negotiate_protocol_version::NegotiateProtocolVersion;
use postgread::msg::body::parameter_status::ParameterStatus;
use postgread::msg::body::parse::Parse;
use postgread::msg::body::parse_complete::ParseComplete;
use postgread::msg::body::password::Password;
use postgread::msg::body::portal_suspended::PortalSuspended;
use postgread::msg::body::query::Query;
use postgread::msg::body::ready_for_query::{ReadyForQuery, Status};
use postgread::msg::body::row_description::{Field, RowDescription};
use postgread::msg::body::sync::Sync;
use postgread::msg::body::terminate::Terminate;
use postgread::msg::frame_bytes;
use postgread::msg::parts::{Bytes, Format, Text, Value};

struct TwoFakeStreams {
    front: Vec<u8>,
    back: Vec<u8>,
    arrivals: Vec<Side>,
    steady: bool,
}

impl TwoFakeStreams {
    fn new() -> Self {
        Self { front: vec![], back: vec![], arrivals: vec![], steady: false }
    }

    fn backend_accepts_tls(&mut self) {
        self.back.push(b'S');
    }

    fn backend_rejects_tls(&mut self) {
        self.back.push(b'N');
    }
}

fn backend_tag_body(m: &BackendMsgClone) -> (u8, Vec<u8>) {
    match m {
        BackendMsgClone::Authentication(x) => (0x52, x.encode_body()),
        BackendMsgClone::BackendKeyData(x) => (0x4b, x.encode_body()),
        BackendMsgClone::BindComplete(x) => (0x32, x.encode_body()),
        BackendMsgClone::CommandComplete(x) => (0x43, x.encode_body()),
        BackendMsgClone::DataRow(x) => (0x44, x.encode_body()),
        BackendMsgClone::EmptyQueryResponse(x) => (0x49, x.encode_body()),
        BackendMsgClone::ErrorResponse(x) => (0x45, x.encode_body()),
        BackendMsgClone::NegotiateProtocolVersion(x) => (0x76, x.encode_body()),
        BackendMsgClone::NoticeResponse(x) => (0x4e, x.encode_body()),
        BackendMsgClone::ParameterStatus(x) => (0x53, x.encode_body()),
        BackendMsgClone::ParseComplete(x) => (0x31, x.encode_body()),
        BackendMsgClone::PortalSuspended(x) => (0x73, x.encode_body()),
        BackendMsgClone::ReadyForQuery(x) => (0x5a, x.encode_body()),
        BackendMsgClone::RowDescription(x) => (0x54, x.encode_body()),
    }
}

fn frontend_tag_body(m: &FrontendMsgClone) -> (Option<u8>, Vec<u8>) {
    match m {
        FrontendMsgClone::Bind(x) => (Some(0x42), x.encode_body()),
        FrontendMsgClone::Execute(x) => (Some(0x45), x.encode_body()),
        FrontendMsgClone::GssResponse(x) => (Some(0x70), x.encode_body()),
        FrontendMsgClone::Initial(x) => (None, x.encode_body()),
        FrontendMsgClone::Parse(x) => (Some(0x50), x.encode_body()),
        FrontendMsgClone::Password(x) => (Some(0x70), x.encode_body()),
        FrontendMsgClone::Query(x) => (Some(0x51), x.encode_body()),
        FrontendMsgClone::SaslInitialResponse(x) => (Some(0x70), x.encode_body()),
        FrontendMsgClone::SaslResponse(x) => (Some(0x70), x.encode_body()),
        FrontendMsgClone::Sync(x) => (Some(0x53), x.encode_body()),
        FrontendMsgClone::Terminate(x) => (Some(0x58), x.encode_body()),
    }
}

fn backend(streams: &mut TwoFakeStreams, conveyed: &mut Vec<MessageClone>, m: BackendMsgClone) {
    let (tag, body) = backend_tag_body(&m);
    streams.back.extend(frame_bytes(Some(tag), &body));
    if streams.steady {
        streams.arrivals.push(Side::Backend);
    }
    conveyed.push(MessageClone::Backend(m));
}

fn frontend(streams: &mut TwoFakeStreams, conveyed: &mut Vec<MessageClone>, m: FrontendMsgClone) {
    let (tag, body) = frontend_tag_body(&m);
    streams.front.extend(frame_bytes(tag, &body));
    if streams.steady && tag.is_some() {
        streams.arrivals.push(Side::Frontend);
    }
    if let FrontendMsgClone::Initial(Initial::Startup(_)) = &m {
        streams.steady = true;
    }
    conveyed.push(MessageClone::Frontend(m));
}

fn test_convey(
    expected_conveyed: Vec<MessageClone>,
    streams: TwoFakeStreams,
) -> ConveyResult<()> {
    let outcome = run_conveyor(&streams.front, &streams.back, &streams.arrivals);
    assert_eq!(expected_conveyed, outcome.messages);
    if outcome.result.is_ok() {
        // transparency: what went out is exactly what came in, and the
        // whole trace was consumed
        assert_eq!(streams.front, outcome.to_backend);
        assert_eq!(streams.back, outcome.to_frontend);
    }
    outcome.result
}

fn startup(major: u16, minor: u16, params: &[(&str, &str)]) -> FrontendMsgClone {
    FrontendMsgClone::Initial(Initial::Startup(Startup {
        version: Version { major, minor },
        params: params
            .iter()
            .map(|(n, v)| StartupParam::new(n.as_bytes().to_vec(), v.as_bytes().to_vec()))
            .collect(),
    }))
}

fn cancel(process_id: u32, secret_key: u32) -> FrontendMsgClone {
    FrontendMsgClone::Initial(Initial::Cancel(Cancel { process_id, secret_key }))
}

fn tls_request() -> FrontendMsgClone {
    FrontendMsgClone::Initial(Initial::TLS)
}

fn auth(a: Authentication) -> BackendMsgClone {
    BackendMsgClone::Authentication(a)
}

fn error_response(message: &str) -> BackendMsgClone {
    BackendMsgClone::ErrorResponse(ErrorResponse(ErrorOrNoticeFields {
        severity: Some(b"ERROR".to_vec()),
        message: Some(message.as_bytes().to_vec()),
        ..Default::default()
    }))
}

fn notice_response(message: &str) -> BackendMsgClone {
    BackendMsgClone::NoticeResponse(NoticeResponse(ErrorOrNoticeFields {
        severity: Some(b"NOTICE".to_vec()),
        message: Some(message.as_bytes().to_vec()),
        ..Default::default()
    }))
}

fn negotiate(newest_backend_minor: u32, options: &[&str]) -> BackendMsgClone {
    BackendMsgClone::NegotiateProtocolVersion(NegotiateProtocolVersion {
        newest_backend_minor,
        unrecognized_options: options.iter().map(|s| Text(s.as_bytes().to_vec())).collect(),
    })
}

fn parameter_status(name: &str, value: &str) -> BackendMsgClone {
    BackendMsgClone::ParameterStatus(ParameterStatus::new(
        name.as_bytes().to_vec(),
        value.as_bytes().to_vec(),
    ))
}

fn backend_key_data(process_id: u32, secret_key: u32) -> BackendMsgClone {
    BackendMsgClone::BackendKeyData(BackendKeyData { process_id, secret_key })
}

fn ready_idle() -> BackendMsgClone {
    BackendMsgClone::ReadyForQuery(ReadyForQuery { status: Status::Idle })
}

fn password(p: &str) -> FrontendMsgClone {
    FrontendMsgClone::Password(Password(p.as_bytes().to_vec()))
}

fn query(sql: &str) -> FrontendMsgClone {
    FrontendMsgClone::Query(Query(sql.as_bytes().to_vec()))
}

fn terminate() -> FrontendMsgClone {
    FrontendMsgClone::Terminate(Terminate {})
}

fn row_description(names: &[&str]) -> BackendMsgClone {
    let fields = names
        .iter()
        .enumerate()
        .map(|(i, name)| Field {
            name: name.as_bytes().to_vec(),
            column_attr_num: i as u16,
            type_size: 10 * i as i16,
            column_oid: 100 * i as u32,
            type_oid: 1000 * i as u32,
            type_modifier: 10000 * i as i32,
            format: Format::Text,
        })
        .collect();
    BackendMsgClone::RowDescription(RowDescription { fields })
}

fn data_row(values: &[Option<&str>]) -> BackendMsgClone {
    let columns = values
        .iter()
        .map(|opt| match opt {
            Some(s) => Value::Bytes(Bytes(s.as_bytes().to_vec())),
            None => Value::Null,
        })
        .collect();
    BackendMsgClone::DataRow(DataRow { columns })
}

fn command_complete(tag: &str) -> BackendMsgClone {
    BackendMsgClone::CommandComplete(CommandComplete { tag: tag.as_bytes().to_vec() })
}

fn empty_query_response() -> BackendMsgClone {
    BackendMsgClone::EmptyQueryResponse(EmptyQueryResponse {})
}

fn parse_statement() -> FrontendMsgClone {
    FrontendMsgClone::Parse(Parse {
        prepared_statement_name: Text(vec![]),
        query: Text(vec![]),
        parameters_types: vec![],
    })
}

fn parse_complete() -> BackendMsgClone {
    BackendMsgClone::ParseComplete(ParseComplete())
}

fn bind_portal() -> FrontendMsgClone {
    FrontendMsgClone::Bind(Bind {
        prepared_statement_name: Text(vec![]),
        portal_name: Text(vec![]),
        parameters_formats: vec![],
        parameters_values: vec![],
        results_formats: vec![],
    })
}

fn bind_complete() -> BackendMsgClone {
    BackendMsgClone::BindComplete(BindComplete())
}

fn execute(rows_limit: u32) -> FrontendMsgClone {
    FrontendMsgClone::Execute(Execute { portal_name: Text(vec![]), rows_limit })
}

fn portal_suspended() -> BackendMsgClone {
    BackendMsgClone::PortalSuspended(PortalSuspended())
}

fn sync() -> FrontendMsgClone {
    FrontendMsgClone::Sync(Sync())
}

#[test]
fn protocol_cancel() {
    let mut streams = TwoFakeStreams::new();
    let mut conveyed = vec![];
    frontend(&mut streams, &mut conveyed, cancel(11, 12));
    assert_eq!(Ok(()), test_convey(conveyed, streams));
}

#[test]
fn cancel_when_backend_accepts_tls() {
    let mut streams = TwoFakeStreams::new();
    let mut conveyed = vec![];
    frontend(&mut streams, &mut conveyed, tls_request());
    streams.backend_accepts_tls();
    frontend(&mut streams, &mut conveyed, cancel(11, 12));
    assert_eq!(Ok(()), test_convey(conveyed, streams));
}

#[test]
fn cancel_when_backend_rejects_tls() {
    let mut streams = TwoFakeStreams::new();
    let mut conveyed = vec![];
    frontend(&mut streams, &mut conveyed, tls_request());
    streams.backend_rejects_tls();
    frontend(&mut streams, &mut conveyed, cancel(11, 12));
    assert_eq!(Ok(()), test_convey(conveyed, streams));
}

#[test]
fn backend_does_not_know_tls() {
    let mut streams = TwoFakeStreams::new();
    let mut conveyed = vec![];
    frontend(&mut streams, &mut conveyed, tls_request());
    backend(&mut streams, &mut conveyed, error_response("too old backend"));
    assert_eq!(Ok(()), test_convey(conveyed, streams));
}

#[test]
fn error_after_startup() {
    let mut streams = TwoFakeStreams::new();
    let mut conveyed = vec![];
    frontend(&mut streams, &mut conveyed, startup(11, 12, &[]));
    backend(&mut streams, &mut conveyed, error_response("something goes wrong"));
    assert_eq!(Ok(()), test_convey(conveyed, streams));
}

#[test]
fn negotiate_and_error_after_startup() {
    let mut streams = TwoFakeStreams::new();
    let mut conveyed = vec![];
    frontend(&mut streams, &mut conveyed, startup(11, 12, &[]));
    backend(&mut streams, &mut conveyed, negotiate(21, &["_pq_x", "_pq_y"]));
    backend(&mut streams, &mut conveyed, error_response("something goes wrong"));
    assert_eq!(Ok(()), test_convey(conveyed, streams));
}

#[test]
fn error_after_startup_when_backend_accepts_tls() {
    let mut streams = TwoFakeStreams::new();
    let mut conveyed = vec![];
    frontend(&mut streams, &mut conveyed, tls_request());
    streams.backend_accepts_tls();
    frontend(&mut streams, &mut conveyed, startup(11, 12, &[]));
    backend(&mut streams, &mut conveyed, error_response("something goes wrong"));
    assert_eq!(Ok(()), test_convey(conveyed, streams));
}

#[test]
fn error_after_startup_when_backend_rejects_tls() {
    let mut streams = TwoFakeStreams::new();
    let mut conveyed = vec![];
    frontend(&mut streams, &mut conveyed, tls_request());
    streams.backend_rejects_tls();
    frontend(&mut streams, &mut conveyed, startup(11, 12, &[]));
    backend(&mut streams, &mut conveyed, error_response("something goes wrong"));
    assert_eq!(Ok(()), test_convey(conveyed, streams));
}

#[test]
fn auth_ok_and_error() {
    let mut streams = TwoFakeStreams::new();
    let mut conveyed = vec![];
    frontend(&mut streams, &mut conveyed, startup(11, 12, &[]));
    backend(&mut streams, &mut conveyed, auth(Authentication::Okay));
    backend(&mut streams, &mut conveyed, error_response("something goes wrong"));
    assert_eq!(Ok(()), test_convey(conveyed, streams));
}

#[test]
fn auth_cleartext_with_correct_password() {
    let mut streams = TwoFakeStreams::new();
    let mut conveyed = vec![];
    frontend(&mut streams, &mut conveyed, startup(11, 12, &[]));
    backend(&mut streams, &mut conveyed, auth(Authentication::CleartextPassword));
    frontend(&mut streams, &mut conveyed, password("correct"));
    backend(&mut streams, &mut conveyed, auth(Authentication::Okay));
    backend(&mut streams, &mut conveyed, error_response("shorten test"));
    assert_eq!(Ok(()), test_convey(conveyed, streams));
}

#[test]
fn auth_cleartext_with_wrong_password() {
    let mut streams = TwoFakeStreams::new();
    let mut conveyed = vec![];
    frontend(&mut streams, &mut conveyed, startup(11, 12, &[]));
    backend(&mut streams, &mut conveyed, auth(Authentication::CleartextPassword));
    frontend(&mut streams, &mut conveyed, password("wrong"));
    backend(&mut streams, &mut conveyed, error_response("wrong password"));
    assert_eq!(Ok(()), test_convey(conveyed, streams));
}

#[test]
fn auth_md5_with_correct_password() {
    let mut streams = TwoFakeStreams::new();
    let mut conveyed = vec![];
    frontend(&mut streams, &mut conveyed, startup(11, 12, &[]));
    backend(&mut streams, &mut conveyed, auth(Authentication::Md5Password { salt: *b"salt" }));
    frontend(&mut streams, &mut conveyed, password("md5correct"));
    backend(&mut streams, &mut conveyed, auth(Authentication::Okay));
    backend(&mut streams, &mut conveyed, error_response("shorten test"));
    assert_eq!(Ok(()), test_convey(conveyed, streams));
}

#[test]
fn auth_md5_with_wrong_password() {
    let mut streams = TwoFakeStreams::new();
    let mut conveyed = vec![];
    frontend(&mut streams, &mut conveyed, startup(11, 12, &[]));
    backend(&mut streams, &mut conveyed, auth(Authentication::Md5Password { salt: *b"salt" }));
    frontend(&mut streams, &mut conveyed, password("md5wrong"));
    backend(&mut streams, &mut conveyed, error_response("wrong password"));
    assert_eq!(Ok(()), test_convey(conveyed, streams));
}

#[test]
fn auth_kerberos_unsupported() {
    let mut streams = TwoFakeStreams::new();
    let mut conveyed = vec![];
    frontend(&mut streams, &mut conveyed, startup(11, 12, &[]));
    backend(&mut streams, &mut conveyed, auth(Authentication::KerberosV5));
    assert!(matches!(test_convey(conveyed, streams), Err(ConveyError::Unsupported(_))));
}

#[test]
fn auth_scm_credential_unsupported() {
    let mut streams = TwoFakeStreams::new();
    let mut conveyed = vec![];
    frontend(&mut streams, &mut conveyed, startup(11, 12, &[]));
    backend(&mut streams, &mut conveyed, auth(Authentication::ScmCredential));
    assert!(matches!(test_convey(conveyed, streams), Err(ConveyError::Unsupported(_))));
}

#[test]
fn negotiate_and_error_after_auth_ok() {
    let mut streams = TwoFakeStreams::new();
    let mut conveyed = vec![];
    frontend(&mut streams, &mut conveyed, startup(11, 12, &[]));
    backend(&mut streams, &mut conveyed, auth(Authentication::Okay));
    backend(&mut streams, &mut conveyed, negotiate(21, &["_pq_x", "_pq_y"]));
    backend(&mut streams, &mut conveyed, error_response("something goes wrong"));
    assert_eq!(Ok(()), test_convey(conveyed, streams));
}

#[test]
fn negotiate_before_and_after_auth_ok() {
    let mut streams = TwoFakeStreams::new();
    let mut conveyed = vec![];
    frontend(&mut streams, &mut conveyed, startup(11, 12, &[]));
    backend(&mut streams, &mut conveyed, negotiate(21, &["_pq_x", "_pq_y"]));
    backend(&mut streams, &mut conveyed, auth(Authentication::Okay));
    backend(&mut streams, &mut conveyed, negotiate(22, &["_pq_z", "_pq_t"]));
    backend(&mut streams, &mut conveyed, error_response("something goes wrong"));
    assert_eq!(Ok(()), test_convey(conveyed, streams));
}

#[test]
fn error_after_param_status() {
    let mut streams = TwoFakeStreams::new();
    let mut conveyed = vec![];
    frontend(&mut streams, &mut conveyed, startup(11, 12, &[]));
    backend(&mut streams, &mut conveyed, auth(Authentication::Okay));
    backend(&mut streams, &mut conveyed, parameter_status("param1", "value A"));
    backend(&mut streams, &mut conveyed, parameter_status("param2", "value B"));
    backend(&mut streams, &mut conveyed, error_response("something goes wrong"));
    assert_eq!(Ok(()), test_convey(conveyed, streams));
}

#[test]
fn error_after_backend_key() {
    let mut streams = TwoFakeStreams::new();
    let mut conveyed = vec![];
    frontend(&mut streams, &mut conveyed, startup(11, 12, &[]));
    backend(&mut streams, &mut conveyed, auth(Authentication::Okay));
    backend(&mut streams, &mut conveyed, parameter_status("param1", "value A"));
    backend(&mut streams, &mut conveyed, parameter_status("param2", "value B"));
    backend(&mut streams, &mut conveyed, backend_key_data(21, 22));
    backend(&mut streams, &mut conveyed, error_response("something goes wrong"));
    assert_eq!(Ok(()), test_convey(conveyed, streams));
}

#[test]
fn error_after_ready() {
    let mut streams = TwoFakeStreams::new();
    let mut conveyed = vec![];
    frontend(&mut streams, &mut conveyed, startup(11, 12, &[]));
    backend(&mut streams, &mut conveyed, auth(Authentication::Okay));
    backend(&mut streams, &mut conveyed, parameter_status("param1", "value A"));
    backend(&mut streams, &mut conveyed, parameter_status("param2", "value B"));
    backend(&mut streams, &mut conveyed, backend_key_data(21, 22));
    backend(&mut streams, &mut conveyed, ready_idle());
    backend(&mut streams, &mut conveyed, error_response("something goes wrong"));
    assert_eq!(Ok(()), test_convey(conveyed, streams));
}

#[test]
fn ready_and_terminate() {
    let mut streams = TwoFakeStreams::new();
    let mut conveyed = vec![];
    frontend(&mut streams, &mut conveyed, startup(11, 12, &[]));
    backend(&mut streams, &mut conveyed, auth(Authentication::Okay));
    backend(&mut streams, &mut conveyed, parameter_status("param1", "value A"));
    backend(&mut streams, &mut conveyed, parameter_status("param2", "value B"));
    backend(&mut streams, &mut conveyed, backend_key_data(21, 22));
    backend(&mut streams, &mut conveyed, ready_idle());
    frontend(&mut streams, &mut conveyed, terminate());
    assert_eq!(Ok(()), test_convey(conveyed, streams));
}

#[test]
fn ready_and_terminate_with_notices() {
    let mut streams = TwoFakeStreams::new();
    let mut conveyed = vec![];
    frontend(&mut streams, &mut conveyed, startup(11, 12, &[]));
    backend(&mut streams, &mut conveyed, auth(Authentication::Okay));
    backend(&mut streams, &mut conveyed, notice_response("first"));
    backend(&mut streams, &mut conveyed, parameter_status("param1", "value A"));
    backend(&mut streams, &mut conveyed, notice_response("second"));
    backend(&mut streams, &mut conveyed, parameter_status("param2", "value B"));
    backend(&mut streams, &mut conveyed, notice_response("third"));
    backend(&mut streams, &mut conveyed, backend_key_data(21, 22));
    backend(&mut streams, &mut conveyed, notice_response("forth"));
    backend(&mut streams, &mut conveyed, ready_idle());
    backend(&mut streams, &mut conveyed, notice_response("fifth"));
    frontend(&mut streams, &mut conveyed, terminate());
    assert_eq!(Ok(()), test_convey(conveyed, streams));
}

#[test]
fn empty_query() {
    let mut streams = TwoFakeStreams::new();
    let mut conveyed = vec![];
    frontend(&mut streams, &mut conveyed, startup(11, 12, &[]));
    backend(&mut streams, &mut conveyed, auth(Authentication::Okay));
    backend(&mut streams, &mut conveyed, backend_key_data(21, 22));
    backend(&mut streams, &mut conveyed, ready_idle());
    frontend(&mut streams, &mut conveyed, query(""));
    backend(&mut streams, &mut conveyed, empty_query_response());
    backend(&mut streams, &mut conveyed, ready_idle());
    frontend(&mut streams, &mut conveyed, terminate());
    assert_eq!(Ok(()), test_convey(conveyed, streams));
}

#[test]
fn simple_select_query() {
    let mut streams = TwoFakeStreams::new();
    let mut conveyed = vec![];
    frontend(&mut streams, &mut conveyed, startup(11, 12, &[]));
    backend(&mut streams, &mut conveyed, auth(Authentication::Okay));
    backend(&mut streams, &mut conveyed, backend_key_data(21, 22));
    backend(&mut streams, &mut conveyed, ready_idle());
    frontend(&mut streams, &mut conveyed, query("select 2+3 as sum, null as nil"));
    backend(&mut streams, &mut conveyed, notice_response("first"));
    backend(&mut streams, &mut conveyed, row_description(&["sum", "nil"]));
    backend(&mut streams, &mut conveyed, notice_response("second"));
    backend(&mut streams, &mut conveyed, data_row(&[Some("5"), None]));
    backend(&mut streams, &mut conveyed, notice_response("third"));
    backend(&mut streams, &mut conveyed, command_complete("SELECT 1"));
    backend(&mut streams, &mut conveyed, notice_response("forth"));
    backend(&mut streams, &mut conveyed, ready_idle());
    backend(&mut streams, &mut conveyed, notice_response("fifth"));
    frontend(&mut streams, &mut conveyed, terminate());
    assert_eq!(Ok(()), test_convey(conveyed, streams));
}

#[test]
fn simple_select_query_with_notices() {
    let mut streams = TwoFakeStreams::new();
    let mut conveyed = vec![];
    frontend(&mut streams, &mut conveyed, startup(11, 12, &[]));
    backend(&mut streams, &mut conveyed, auth(Authentication::Okay));
    backend(&mut streams, &mut conveyed, backend_key_data(21, 22));
    backend(&mut streams, &mut conveyed, ready_idle());
    frontend(&mut streams, &mut conveyed, query("select 2+3 as sum, null as nil"));
    backend(&mut streams, &mut conveyed, row_description(&["sum", "nil"]));
    backend(&mut streams, &mut conveyed, data_row(&[Some("5"), None]));
    backend(&mut streams, &mut conveyed, command_complete("SELECT 1"));
    backend(&mut streams, &mut conveyed, ready_idle());
    frontend(&mut streams, &mut conveyed, terminate());
    assert_eq!(Ok(()), test_convey(conveyed, streams));
}

#[test]
fn single_changing_query() {
    let mut streams = TwoFakeStreams::new();
    let mut conveyed = vec![];
    frontend(&mut streams, &mut conveyed, startup(11, 12, &[]));
    backend(&mut streams, &mut conveyed, auth(Authentication::Okay));
    backend(&mut streams, &mut conveyed, backend_key_data(21, 22));
    backend(&mut streams, &mut conveyed, ready_idle());
    frontend(&mut streams, &mut conveyed, query("insert values('new') into t1"));
    backend(&mut streams, &mut conveyed, command_complete("INSERT 1"));
    backend(&mut streams, &mut conveyed, ready_idle());
    frontend(&mut streams, &mut conveyed, terminate());
    assert_eq!(Ok(()), test_convey(conveyed, streams));
}

#[test]
fn multiple_statements_in_query() {
    let mut streams = TwoFakeStreams::new();
    let mut conveyed = vec![];
    frontend(&mut streams, &mut conveyed, startup(11, 12, &[]));
    backend(&mut streams, &mut conveyed, auth(Authentication::Okay));
    backend(&mut streams, &mut conveyed, backend_key_data(21, 22));
    backend(&mut streams, &mut conveyed, ready_idle());
    frontend(
        &mut streams,
        &mut conveyed,
        query("select 2+3 as sum; update t1 set key=0; delete from t1; select null as nil"),
    );
    backend(&mut streams, &mut conveyed, row_description(&["sum"]));
    backend(&mut streams, &mut conveyed, data_row(&[Some("5"), None]));
    backend(&mut streams, &mut conveyed, command_complete("SELECT 1"));
    backend(&mut streams, &mut conveyed, command_complete("UPDATE 9000"));
    backend(&mut streams, &mut conveyed, command_complete("DELETE 9000"));
    backend(&mut streams, &mut conveyed, row_description(&["nil"]));
    backend(&mut streams, &mut conveyed, data_row(&[Some("null"), None]));
    backend(&mut streams, &mut conveyed, command_complete("SELECT 1"));
    backend(&mut streams, &mut conveyed, ready_idle());
    frontend(&mut streams, &mut conveyed, terminate());
    assert_eq!(Ok(()), test_convey(conveyed, streams));
}

#[test]
fn multiple_statements_in_query_with_error_between() {
    let mut streams = TwoFakeStreams::new();
    let mut conveyed = vec![];
    frontend(&mut streams, &mut conveyed, startup(11, 12, &[]));
    backend(&mut streams, &mut conveyed, auth(Authentication::Okay));
    backend(&mut streams, &mut conveyed, backend_key_data(21, 22));
    backend(&mut streams, &mut conveyed, ready_idle());
    frontend(
        &mut streams,
        &mut conveyed,
        query("select 2+3 as sum; update t1 set key=0; delete from t1; select null as nil"),
    );
    backend(&mut streams, &mut conveyed, row_description(&["sum"]));
    backend(&mut streams, &mut conveyed, data_row(&[Some("5"), None]));
    backend(&mut streams, &mut conveyed, command_complete("SELECT 1"));
    backend(&mut streams, &mut conveyed, error_response("relation \"t1\" does not exist"));
    backend(&mut streams, &mut conveyed, ready_idle());
    frontend(&mut streams, &mut conveyed, terminate());
    assert_eq!(Ok(()), test_convey(conveyed, streams));
}

#[test]
fn multiple_queries_with_error_between() {
    let mut streams = TwoFakeStreams::new();
    let mut conveyed = vec![];
    frontend(&mut streams, &mut conveyed, startup(11, 12, &[]));
    backend(&mut streams, &mut conveyed, auth(Authentication::Okay));
    backend(&mut streams, &mut conveyed, backend_key_data(21, 22));
    backend(&mut streams, &mut conveyed, ready_idle());
    frontend(&mut streams, &mut conveyed, query("update t1 set key=0"));
    backend(&mut streams, &mut conveyed, error_response("relation \"t1\" does not exist"));
    backend(&mut streams, &mut conveyed, ready_idle());
    frontend(&mut streams, &mut conveyed, query("select 2+3 as sum"));
    backend(&mut streams, &mut conveyed, row_description(&["sum"]));
    backend(&mut streams, &mut conveyed, data_row(&[Some("5")]));
    backend(&mut streams, &mut conveyed, command_complete("SELECT 1"));
    backend(&mut streams, &mut conveyed, ready_idle());
    frontend(&mut streams, &mut conveyed, terminate());
    assert_eq!(Ok(()), test_convey(conveyed, streams));
}

#[test]
fn plain_simple_query_trace() {
    let mut streams = TwoFakeStreams::new();
    let mut conveyed = vec![];
    frontend(
        &mut streams,
        &mut conveyed,
        startup(3, 0, &[("user", "postgres"), ("database", "postgres")]),
    );
    backend(&mut streams, &mut conveyed, auth(Authentication::Okay));
    backend(&mut streams, &mut conveyed, parameter_status("server_version", "12.6"));
    backend(&mut streams, &mut conveyed, backend_key_data(21, 22));
    backend(&mut streams, &mut conveyed, ready_idle());
    frontend(&mut streams, &mut conveyed, query("select 2+3 as sum"));
    backend(&mut streams, &mut conveyed, row_description(&["sum"]));
    backend(&mut streams, &mut conveyed, data_row(&[Some("5")]));
    backend(&mut streams, &mut conveyed, command_complete("SELECT 1"));
    backend(&mut streams, &mut conveyed, ready_idle());
    frontend(&mut streams, &mut conveyed, terminate());
    assert_eq!(Ok(()), test_convey(conveyed, streams));
}

#[test]
fn tls_accepted_and_empty_query() {
    let mut streams = TwoFakeStreams::new();
    let mut conveyed = vec![];
    frontend(&mut streams, &mut conveyed, tls_request());
    streams.backend_accepts_tls();
    frontend(&mut streams, &mut conveyed, startup(3, 0, &[("user", "postgres")]));
    backend(&mut streams, &mut conveyed, auth(Authentication::Okay));
    backend(&mut streams, &mut conveyed, backend_key_data(21, 22));
    backend(&mut streams, &mut conveyed, ready_idle());
    frontend(&mut streams, &mut conveyed, query(""));
    backend(&mut streams, &mut conveyed, empty_query_response());
    backend(&mut streams, &mut conveyed, ready_idle());
    frontend(&mut streams, &mut conveyed, terminate());
    assert_eq!(Ok(()), test_convey(conveyed, streams));
}

#[test]
fn tls_rejected() {
    let mut streams = TwoFakeStreams::new();
    let mut conveyed = vec![];
    frontend(&mut streams, &mut conveyed, tls_request());
    streams.backend_rejects_tls();
    frontend(&mut streams, &mut conveyed, startup(3, 0, &[("user", "postgres")]));
    backend(&mut streams, &mut conveyed, auth(Authentication::Okay));
    backend(&mut streams, &mut conveyed, error_response("off you go"));
    assert_eq!(Ok(()), test_convey(conveyed, streams));
}

#[test]
fn extended_query_with_suspend() {
    let mut streams = TwoFakeStreams::new();
    let mut conveyed = vec![];
    frontend(&mut streams, &mut conveyed, startup(3, 0, &[]));
    backend(&mut streams, &mut conveyed, auth(Authentication::Okay));
    backend(&mut streams, &mut conveyed, backend_key_data(21, 22));
    backend(&mut streams, &mut conveyed, ready_idle());
    frontend(&mut streams, &mut conveyed, parse_statement());
    backend(&mut streams, &mut conveyed, parse_complete());
    frontend(&mut streams, &mut conveyed, bind_portal());
    backend(&mut streams, &mut conveyed, bind_complete());
    frontend(&mut streams, &mut conveyed, execute(1));
    backend(&mut streams, &mut conveyed, data_row(&[Some("5")]));
    backend(&mut streams, &mut conveyed, portal_suspended());
    frontend(&mut streams, &mut conveyed, execute(0));
    backend(&mut streams, &mut conveyed, data_row(&[Some("6")]));
    backend(&mut streams, &mut conveyed, command_complete("SELECT 2"));
    frontend(&mut streams, &mut conveyed, sync());
    backend(&mut streams, &mut conveyed, ready_idle());
    frontend(&mut streams, &mut conveyed, terminate());
    assert_eq!(Ok(()), test_convey(conveyed, streams));
}

#[test]
fn duplicate_tls_request_refused() {
    let mut streams = TwoFakeStreams::new();
    let mut conveyed = vec![];
    frontend(&mut streams, &mut conveyed, tls_request());
    streams.backend_accepts_tls();
    frontend(&mut streams, &mut conveyed, tls_request());
    assert_eq!(
        Err(ConveyError::TlsError(postgread::convey::TlsError::TlsRequestedInsideTls)),
        test_convey(conveyed, streams)
    );
}
