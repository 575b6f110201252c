//! The per-message body codecs, each fed raw body bytes.

use postgread::decode::{BytesSource, DecodeResult, Problem, Unrecognized};
use postgread::msg::body::authentication::Authentication;
use postgread::msg::body::backend_key_data::BackendKeyData;
use postgread::msg::body::bind::Bind;
use postgread::msg::body::bind_complete::BindComplete;
use postgread::msg::body::command_complete::CommandComplete;
use postgread::msg::body::data_row::DataRow;
use postgread::msg::body::empty_query_response::EmptyQueryResponse;
use postgread::msg::body::error_and_notice_responses::{
    ErrorOrNoticeFields, ErrorResponse, NoticeResponse,
};
use postgread::msg::body::execute::Execute;
use postgread::msg::body::gss_response::GssResponse;
use postgread::msg::body::initial::{Cancel, Initial, Startup, StartupParam, Version};
use postgread::msg::body::negotiate_protocol_version::NegotiateProtocolVersion;
use postgread::msg::body::parameter_status::ParameterStatus;
use postgread::msg::body::parse::Parse;
use postgread::msg::body::parse_complete::ParseComplete;
use postgread::msg::body::password::Password;
use postgread::msg::body::portal_suspended::PortalSuspended;
use postgread::msg::body::query::Query;
use postgread::msg::body::ready_for_query::{ReadyForQuery, Status};
use postgread::msg::body::row_description::{Field, RowDescription};
use postgread::msg::body::sasl_initial_response::SaslInitialResponse;
use postgread::msg::body::sasl_response::SaslResponse;
use postgread::msg::body::sync::Sync;
use postgread::msg::body::terminate::Terminate;
use postgread::msg::parts::{Bytes, Format, Text, Value};

pub fn assert_decode_ok<Msg: std::fmt::Debug + PartialEq>(
    expected: Msg,
    bytes: &[u8],
    decode: for<'a, 'b> fn(&'a mut BytesSource<'b>) -> DecodeResult<Msg>,
) {
    assert_decode(Ok(expected), bytes, decode)
}

pub fn assert_decode_err<Msg: std::fmt::Debug + PartialEq>(
    expected: Problem,
    bytes: &[u8],
    decode: for<'a, 'b> fn(&'a mut BytesSource<'b>) -> DecodeResult<Msg>,
) {
    assert_decode(Err(expected), bytes, decode)
}

fn assert_decode<Msg: std::fmt::Debug + PartialEq>(
    expected: DecodeResult<Msg>,
    bytes: &[u8],
    decode: for<'a, 'b> fn(&'a mut BytesSource<'b>) -> DecodeResult<Msg>,
) {
    let mut bytes_source = BytesSource::new(bytes);
    assert_eq!(expected, decode(&mut bytes_source));
    assert_eq!(0, bytes_source.left());
}

fn text(s: &str) -> Text {
    Text(s.as_bytes().to_vec())
}

#[test]
fn cleartext_password() {
    let bytes: &[u8] = &[0, 0, 0, 3];
    assert_decode_ok(Authentication::CleartextPassword, bytes, Authentication::decode_body);
}

#[test]
fn gss() {
    let bytes: &[u8] = &[0, 0, 0, 7];
    assert_decode_ok(Authentication::Gss, bytes, Authentication::decode_body);
}

#[test]
fn gss_continue() {
    let bytes: &[u8] = &[0, 0, 0, 8, b'G', b'S', b'S'];
    assert_decode_ok(
        Authentication::GssContinue { auth_data: Vec::from("GSS") },
        bytes,
        Authentication::decode_body,
    );
}

#[test]
fn kerberos_v5() {
    let bytes: &[u8] = &[0, 0, 0, 2];
    assert_decode_ok(Authentication::KerberosV5, bytes, Authentication::decode_body);
}

#[test]
fn md5_password() {
    let bytes: &[u8] = &[0, 0, 0, 5, 1, 2, 3, 4];
    assert_decode_ok(
        Authentication::Md5Password { salt: [1, 2, 3, 4] },
        bytes,
        Authentication::decode_body,
    );
}

#[test]
fn ok() {
    let bytes: &[u8] = &[0, 0, 0, 0];
    assert_decode_ok(Authentication::Okay, bytes, Authentication::decode_body);
}

#[test]
fn sasl() {
    let bytes: &[u8] = &[
        0, 0, 0, 10, // contains a list of SASL authentication mechanisms
        b'O', b'T', b'P', 0, // first
        b'S', b'K', b'E', b'Y', 0, // second
        0, // list terminator
    ];
    assert_decode_ok(
        Authentication::Sasl { auth_mechanisms: vec![Vec::from("OTP"), Vec::from("SKEY")] },
        bytes,
        Authentication::decode_body,
    );
}

#[test]
fn sasl_continue() {
    let mut bytes = vec![0, 0, 0, 11];
    bytes.extend_from_slice(b"SASL CONT");
    assert_decode_ok(
        Authentication::SaslContinue { challenge_data: Vec::from("SASL CONT") },
        &bytes,
        Authentication::decode_body,
    );
}

#[test]
fn sasl_final() {
    let mut bytes = vec![0, 0, 0, 12];
    bytes.extend_from_slice(b"SASL FIN");
    assert_decode_ok(
        Authentication::SaslFinal { additional_data: Vec::from("SASL FIN") },
        &bytes,
        Authentication::decode_body,
    );
}

#[test]
fn scm_credential() {
    let bytes: &[u8] = &[0, 0, 0, 6];
    assert_decode_ok(Authentication::ScmCredential, bytes, Authentication::decode_body);
}

#[test]
fn sspi() {
    let bytes: &[u8] = &[0, 0, 0, 9];
    assert_decode_ok(Authentication::Sspi, bytes, Authentication::decode_body);
}

#[test]
fn backend_key_data_simple() {
    let bytes: &[u8] = &[0x1, 0x2, 0x3, 0x4, 0x5, 0x6, 0x7, 0x8];
    assert_decode_ok(
        BackendKeyData { process_id: 0x01020304, secret_key: 0x05060708 },
        bytes,
        BackendKeyData::decode_body,
    );
}

#[test]
fn empty() {
    let bytes: &[u8] = &[
        0, // unnamed prepared statement
        0, // unnamed portal
        0, 0, // no parameters formats
        0, 0, // no parameters values
        0, 0, // no results formats
    ];
    assert_decode_ok(
        Bind {
            prepared_statement_name: text(""),
            portal_name: text(""),
            parameters_formats: vec![],
            parameters_values: vec![],
            results_formats: vec![],
        },
        bytes,
        Bind::decode_body,
    );
}

#[test]
fn named_prep_stat() {
    let bytes: &[u8] = &[b'p', b'r', b' ', b's', b't', 0, 0, 0, 0, 0, 0, 0, 0];
    assert_decode_ok(
        Bind {
            prepared_statement_name: text("pr st"),
            portal_name: text(""),
            parameters_formats: vec![],
            parameters_values: vec![],
            results_formats: vec![],
        },
        bytes,
        Bind::decode_body,
    );
}

#[test]
fn named_portal() {
    let bytes: &[u8] = &[0, b'p', b'o', b'r', b't', b'a', b'l', 0, 0, 0, 0, 0, 0, 0];
    assert_decode_ok(
        Bind {
            prepared_statement_name: text(""),
            portal_name: text("portal"),
            parameters_formats: vec![],
            parameters_values: vec![],
            results_formats: vec![],
        },
        bytes,
        Bind::decode_body,
    );
}

#[test]
fn parameters_formats() {
    let bytes: &[u8] = &[0, 0, 0, 3, 0, 0, 0, 1, 0, 0, 0, 0, 0, 0];
    assert_decode_ok(
        Bind {
            prepared_statement_name: text(""),
            portal_name: text(""),
            parameters_formats: vec![Format::Text, Format::Binary, Format::Text],
            parameters_values: vec![],
            results_formats: vec![],
        },
        bytes,
        Bind::decode_body,
    );
}

#[test]
fn parameters_values() {
    let bytes: &[u8] = &[
        0, // unnamed prepared statement
        0, // unnamed portal
        0, 0, // no parameters formats
        0, 3, // 3 parameters values
        0, 0, 0, 5, // first is 5 bytes long
        34, 55, 89, 144, 233, // just different numbers
        0, 0, 0, 0, // second is 0 bytes long
        0xff, 0xff, 0xff, 0xff, // third is -1 which means NULL
        0, 0, // no results formats
    ];
    assert_decode_ok(
        Bind {
            prepared_statement_name: text(""),
            portal_name: text(""),
            parameters_formats: vec![],
            parameters_values: vec![
                Value::Bytes(Bytes(vec![34, 55, 89, 144, 233])),
                Value::Bytes(Bytes(vec![])),
                Value::Null,
            ],
            results_formats: vec![],
        },
        bytes,
        Bind::decode_body,
    );
}

#[test]
fn results_formats() {
    let bytes: &[u8] = &[0, 0, 0, 0, 0, 0, 0, 3, 0, 1, 0, 0, 0, 1];
    assert_decode_ok(
        Bind {
            prepared_statement_name: text(""),
            portal_name: text(""),
            parameters_formats: vec![],
            parameters_values: vec![],
            results_formats: vec![Format::Binary, Format::Text, Format::Binary],
        },
        bytes,
        Bind::decode_body,
    );
}

#[test]
fn all() {
    let bytes: &[u8] = &[
        b'P', b'r', b'e', b'P', 0, // named prepared statement
        b'P', b'o', b'r', b't', b'a', b'L', 0, // named portal
        0, 2, // 2 parameters formats
        0, 1, 0, 0, //
        0, 3, // 3 parameters values
        0xff, 0xff, 0xff, 0xff, // first is -1 which means NULL
        0, 0, 0, 5, // second is 5 bytes long
        34, 55, 89, 144, 233, // just different numbers
        0, 0, 0, 0, // third is 0 bytes long
        0, 4, // 4 results formats
        0, 0, 0, 1, 0, 1, 0, 0,
    ];
    assert_decode_ok(
        Bind {
            prepared_statement_name: text("PreP"),
            portal_name: text("PortaL"),
            parameters_formats: vec![Format::Binary, Format::Text],
            parameters_values: vec![
                Value::Null,
                Value::Bytes(Bytes(vec![34, 55, 89, 144, 233])),
                Value::Bytes(Bytes(vec![])),
            ],
            results_formats: vec![Format::Text, Format::Binary, Format::Binary, Format::Text],
        },
        bytes,
        Bind::decode_body,
    );
}

#[test]
fn bind_complete_simple() {
    let bytes: &[u8] = &[];
    assert_decode_ok(BindComplete(), bytes, BindComplete::decode_body);
}

#[test]
fn command_complete_simple() {
    let bytes = b"UPDATE 9000\0";
    assert_decode_ok(
        CommandComplete { tag: Vec::from(&b"UPDATE 9000"[..]) },
        bytes,
        CommandComplete::decode_body,
    );
}

#[test]
fn no_columns() {
    let bytes: &[u8] = &[0, 0];
    assert_decode_ok(DataRow { columns: vec![] }, bytes, DataRow::decode_body);
}

#[test]
fn many_columns() {
    let bytes: &[u8] = &[
        0, 3, // columns count
        0xff, 0xff, 0xff, 0xff, // value len=-1
        0, 0, 0, 0, // value len
        0, 0, 0, 3, // value len
        12, 34, 56, // value
    ];
    assert_decode_ok(
        DataRow {
            columns: vec![
                Value::Null,
                Value::Bytes(Bytes(vec![])),
                Value::Bytes(Bytes(vec![12, 34, 56])),
            ],
        },
        bytes,
        DataRow::decode_body,
    );
}

#[test]
fn empty_query_response_simple() {
    let bytes = b"";
    assert_decode_ok(EmptyQueryResponse {}, bytes, EmptyQueryResponse::decode_body);
}

fn all_error_fields() -> ErrorOrNoticeFields {
    ErrorOrNoticeFields {
        localized_severity: Some(Vec::from("\u{44d}\u{439}".as_bytes())),
        severity: Some(Vec::from("ab")),
        code: Some(Vec::from("12")),
        message: Some(Vec::from("cd")),
        detail: Some(Vec::from("ef")),
        hint: Some(Vec::from("gh")),
        position: Some(Vec::from("34")),
        internal_position: Some(Vec::from("56")),
        internal_query: Some(Vec::from("ij")),
        where_: Some(Vec::from("kl")),
        schema: Some(Vec::from("mn")),
        table: Some(Vec::from("op")),
        column: Some(Vec::from("qr")),
        data_type: Some(Vec::from("st")),
        constraint: Some(Vec::from("uv")),
        file: Some(Vec::from("wx")),
        line: Some(Vec::from("78")),
        routine: Some(Vec::from("yz")),
    }
}

fn all_error_fields_bytes() -> Vec<u8> {
    let mut bytes = vec![];
    bytes.extend_from_slice(b"S\xd1\x8d\xd0\xb9\0");
    bytes.extend_from_slice(b"Vab\0");
    bytes.extend_from_slice(b"C12\0");
    bytes.extend_from_slice(b"Mcd\0");
    bytes.extend_from_slice(b"Def\0");
    bytes.extend_from_slice(b"Hgh\0");
    bytes.extend_from_slice(b"P34\0");
    bytes.extend_from_slice(b"p56\0");
    bytes.extend_from_slice(b"qij\0");
    bytes.extend_from_slice(b"Wkl\0");
    bytes.extend_from_slice(b"smn\0");
    bytes.extend_from_slice(b"top\0");
    bytes.extend_from_slice(b"cqr\0");
    bytes.extend_from_slice(b"dst\0");
    bytes.extend_from_slice(b"nuv\0");
    bytes.extend_from_slice(b"Fwx\0");
    bytes.extend_from_slice(b"L78\0");
    bytes.extend_from_slice(b"Ryz\0");
    bytes.extend_from_slice(&[0]);
    bytes
}

#[test]
fn error_and_notice_responses_no_fields() {
    let bytes: &[u8] = &[0];
    assert_decode_ok(
        ErrorResponse(ErrorOrNoticeFields::default()),
        bytes,
        ErrorResponse::decode_body,
    );
    assert_decode_ok(
        NoticeResponse(ErrorOrNoticeFields::default()),
        bytes,
        NoticeResponse::decode_body,
    );
}

#[test]
fn error_and_notice_responses_all_fields() {
    let bytes = all_error_fields_bytes();
    assert_decode_ok(ErrorResponse(all_error_fields()), &bytes, ErrorResponse::decode_body);
    assert_decode_ok(NoticeResponse(all_error_fields()), &bytes, NoticeResponse::decode_body);
}

#[test]
fn error_response_no_fields() {
    let bytes: &[u8] = &[0];
    assert_decode_ok(
        ErrorResponse(ErrorOrNoticeFields::default()),
        bytes,
        ErrorResponse::decode_body,
    );
}

#[test]
fn error_response_all_fields() {
    let bytes = all_error_fields_bytes();
    assert_decode_ok(ErrorResponse(all_error_fields()), &bytes, ErrorResponse::decode_body);
}

#[test]
fn unnamed_limited() {
    let bytes: &[u8] = &[0, 0x12, 0x34, 0x56, 0x78];
    assert_decode_ok(
        Execute { portal_name: text(""), rows_limit: 0x12345678 },
        bytes,
        Execute::decode_body,
    );
}

#[test]
fn named_unlimited() {
    let bytes: &[u8] = &[b'P', b'o', b'r', b't', b'a', b'L', 0, 0, 0, 0, 0];
    assert_decode_ok(
        Execute { portal_name: text("PortaL"), rows_limit: 0 },
        bytes,
        Execute::decode_body,
    );
}

#[test]
fn named_limited() {
    let bytes: &[u8] = &[b'p', b'o', b'R', b't', b'a', b'L', 0, 0x23, 0x45, 0x67, 0x89];
    assert_decode_ok(
        Execute { portal_name: text("poRtaL"), rows_limit: 0x23456789 },
        bytes,
        Execute::decode_body,
    );
}

#[test]
fn gss_response_simple() {
    let bytes: &[u8] = &[0x12, 0x34, 0x56, 0x78, 0x9a, 0xbc];
    assert_decode_ok(
        GssResponse(vec![0x12, 0x34, 0x56, 0x78, 0x9a, 0xbc]),
        bytes,
        GssResponse::decode_body,
    );
}

#[test]
fn initial_cancel() {
    let bytes: &[u8] = &[
        4, 210, 22, 46, // 1234 and 5678: these words instead of a version mean "cancel"
        0x1, 0x2, 0x3, 0x4, // process ID
        0x5, 0x6, 0x7, 0x8, // secret key
    ];
    assert_decode_ok(
        Initial::Cancel(Cancel { process_id: 0x01020304, secret_key: 0x05060708 }),
        bytes,
        Initial::decode_body,
    );
}

#[test]
fn ssl() {
    let bytes: &[u8] = &[
        4, 210, 22, 47, // 1234 and 5679: these words instead of a version mean "TLS"
    ];
    assert_decode_ok(Initial::TLS, bytes, Initial::decode_body);
}

#[test]
fn startup_without_params() {
    let bytes: &[u8] = &[0, 3, 0, 1, 0];
    assert_decode_ok(
        Initial::Startup(Startup { version: Version { major: 3, minor: 1 }, params: vec![] }),
        bytes,
        Initial::decode_body,
    );
}

#[test]
fn startup_with_params() {
    let mut bytes = vec![0, 3, 1, 0];
    bytes.extend_from_slice(b"user\0root\0database\0postgres\0\0");
    assert_decode_ok(
        Initial::Startup(Startup {
            version: Version { major: 3, minor: 0x100 },
            params: vec![
                StartupParam { name: Vec::from(&b"user"[..]), value: Vec::from(&b"root"[..]) },
                StartupParam {
                    name: Vec::from(&b"database"[..]),
                    value: Vec::from(&b"postgres"[..]),
                },
            ],
        }),
        &bytes,
        Initial::decode_body,
    );
}

#[test]
fn no_unrecognized_options() {
    let bytes: &[u8] = &[0x12, 0x34, 0x56, 0x78, 0, 0, 0, 0];
    assert_decode_ok(
        NegotiateProtocolVersion { newest_backend_minor: 0x12345678, unrecognized_options: vec![] },
        bytes,
        NegotiateProtocolVersion::decode_body,
    );
}

#[test]
fn many_unrecognized_options() {
    let mut bytes = vec![0x12, 0x34, 0x56, 0x78, 0, 0, 0, 3];
    bytes.extend_from_slice(b"first\0");
    bytes.extend_from_slice(b"second\0");
    bytes.extend_from_slice(b"third\0");
    assert_decode_ok(
        NegotiateProtocolVersion {
            newest_backend_minor: 0x12345678,
            unrecognized_options: vec![text("first"), text("second"), text("third")],
        },
        &bytes,
        NegotiateProtocolVersion::decode_body,
    );
}

#[test]
fn parameter_status_simple() {
    let bytes = b"TimeZone\0UTC\0";
    assert_decode_ok(
        ParameterStatus { name: Vec::from(&b"TimeZone"[..]), value: Vec::from(&b"UTC"[..]) },
        bytes,
        ParameterStatus::decode_body,
    );
}

#[test]
fn unnamed_without_types() {
    let bytes: &[u8] = &[0, b'S', b'Q', b'L', 0, 0, 0];
    assert_decode_ok(
        Parse { prepared_statement_name: text(""), query: text("SQL"), parameters_types: vec![] },
        bytes,
        Parse::decode_body,
    );
}

#[test]
fn named_without_types() {
    let bytes: &[u8] = &[b'N', b'a', b'm', b'e', 0, b's', b'q', b'l', 0, 0, 0];
    assert_decode_ok(
        Parse {
            prepared_statement_name: text("Name"),
            query: text("sql"),
            parameters_types: vec![],
        },
        bytes,
        Parse::decode_body,
    );
}

#[test]
fn named_with_types() {
    let bytes: &[u8] = &[
        b'N', b'a', b'm', b'e', 0, // prepared statement name
        b's', b'q', b'l', 0, // SQL query
        0, 3, // 3 parameters types
        0x12, 0x34, 0x56, 0x78, 0x23, 0x45, 0x67, 0x89, 0x35, 0x79, 0xbd, 0xf1,
    ];
    assert_decode_ok(
        Parse {
            prepared_statement_name: text("Name"),
            query: text("sql"),
            parameters_types: vec![0x12345678, 0x23456789, 0x3579bdf1],
        },
        bytes,
        Parse::decode_body,
    );
}

#[test]
fn parse_complete_simple() {
    let bytes: &[u8] = &[];
    assert_decode_ok(ParseComplete(), bytes, ParseComplete::decode_body);
}

#[test]
fn password_simple() {
    let bytes = b"qwerty123\0";
    assert_decode_ok(Password(Vec::from("qwerty123")), bytes, Password::decode_body);
}

#[test]
fn portal_suspended_simple() {
    let bytes: &[u8] = &[];
    assert_decode_ok(PortalSuspended(), bytes, PortalSuspended::decode_body);
}

#[test]
fn query_simple() {
    let bytes = b"select 1;\0";
    assert_decode_ok(Query(Vec::from("select 1;")), bytes, Query::decode_body);
}

#[test]
fn idle() {
    let bytes = b"I";
    assert_decode_ok(ReadyForQuery { status: Status::Idle }, bytes, ReadyForQuery::decode_body);
}

#[test]
fn transaction() {
    let bytes = b"T";
    assert_decode_ok(
        ReadyForQuery { status: Status::Transaction },
        bytes,
        ReadyForQuery::decode_body,
    );
}

#[test]
fn error() {
    let bytes = b"E";
    assert_decode_ok(ReadyForQuery { status: Status::Error }, bytes, ReadyForQuery::decode_body);
}

#[test]
fn incorrect_status() {
    let bytes = &[255u8];
    assert_decode_err::<ReadyForQuery>(
        Problem::Unknown(Unrecognized::QueryStatus(255)),
        bytes,
        ReadyForQuery::decode_body,
    );
}

#[test]
fn row_description_no_fields() {
    let bytes: &[u8] = &[0, 0];
    assert_decode_ok(RowDescription { fields: vec![] }, bytes, RowDescription::decode_body);
}

#[test]
fn two_fields() {
    let bytes: &[u8] = &[
        0, 2, // fields count
        // first field:
        b'F', b'i', b'r', b's', b't', 0, // name
        0x10, 0x11, 0x12, 0x13, // column oid
        0x14, 0x15, // column attr num
        0x16, 0x17, 0x18, 0x19, // type oid
        0x1A, 0x1B, // type size
        0x1C, 0x1D, 0x1E, 0x1F, // type modifier
        0, 0, // format=text
        // second field:
        b'S', b'e', b'c', b'o', b'n', b'd', 0, // name
        0x2F, 0x2E, 0x2D, 0x2C, // column oid
        0x2B, 0x2A, // column attr num
        0x29, 0x28, 0x27, 0x26, // type oid
        0x25, 0x24, // type size
        0x23, 0x22, 0x21, 0x20, // type modifier
        0, 1, // format=binary
    ];
    assert_decode_ok(
        RowDescription {
            fields: vec![
                Field {
                    name: Vec::from("First"),
                    column_oid: 0x10111213,
                    column_attr_num: 0x1415,
                    type_oid: 0x16171819,
                    type_size: 0x1A1B,
                    type_modifier: 0x1C1D1E1F,
                    format: Format::Text,
                },
                Field {
                    name: Vec::from("Second"),
                    column_oid: 0x2F2E2D2C,
                    column_attr_num: 0x2B2A,
                    type_oid: 0x29282726,
                    type_size: 0x2524,
                    type_modifier: 0x23222120,
                    format: Format::Binary,
                },
            ],
        },
        bytes,
        RowDescription::decode_body,
    );
}

#[test]
fn no_mechanism_data() {
    let bytes: &[u8] = &[b'O', b'T', b'P', 0, 0xff, 0xff, 0xff, 0xff];
    assert_decode_ok(
        SaslInitialResponse { selected_mechanism: Vec::from("OTP"), mechanism_data: None },
        bytes,
        SaslInitialResponse::decode_body,
    );
}

#[test]
fn some_mechanism_data() {
    let bytes: &[u8] = &[b'S', b'K', b'E', b'Y', 0, 0, 0, 0, 3, 0x12, 0x34, 0x56];
    assert_decode_ok(
        SaslInitialResponse {
            selected_mechanism: Vec::from("SKEY"),
            mechanism_data: Some(vec![0x12, 0x34, 0x56]),
        },
        bytes,
        SaslInitialResponse::decode_body,
    );
}

#[test]
fn sasl_response_simple() {
    let bytes: &[u8] = &[0x12, 0x34, 0x56];
    assert_decode_ok(
        SaslResponse { mechanism_data: vec![0x12, 0x34, 0x56] },
        bytes,
        SaslResponse::decode_body,
    );
}

#[test]
fn without_params() {
    let bytes: &[u8] = &[0, 3, 0, 1, 0];
    assert_decode_ok(
        Initial::Startup(Startup { version: Version { major: 3, minor: 1 }, params: vec![] }),
        bytes,
        Initial::decode_body,
    );
}

#[test]
fn with_params() {
    let mut bytes = vec![0, 3, 1, 0];
    bytes.extend_from_slice(b"user\0root\0database\0postgres\0\0");
    assert_decode_ok(
        Initial::Startup(Startup {
            version: Version { major: 3, minor: 0x100 },
            params: vec![
                StartupParam::new(Vec::from(&b"user"[..]), Vec::from(&b"root"[..])),
                StartupParam::new(Vec::from(&b"database"[..]), Vec::from(&b"postgres"[..])),
            ],
        }),
        &bytes,
        Initial::decode_body,
    );
}

#[test]
fn sync_simple() {
    let bytes: &[u8] = &[];
    assert_decode_ok(Sync(), bytes, Sync::decode_body);
}

#[test]
fn terminate_simple() {
    let bytes: &[u8] = &[];
    assert_decode_ok(Terminate {}, bytes, Terminate::decode_body);
}
