//! Cross-cutting behaviour on concrete values: encode/decode round trips,
//! exact frame-length accounting, and the boundary verdicts.

use postgread::convey::run::run_conveyor;
use postgread::convey::{ConveyError, IoProblem, MessageClone, Side, State, TlsError};
use postgread::decode::{BytesSource, Incorrectness, Problem, Unrecognized};
use postgread::msg::body::authentication::Authentication;
use postgread::msg::body::bind::Bind;
use postgread::msg::body::command_complete::CommandComplete;
use postgread::msg::body::data_row::DataRow;
use postgread::msg::body::error_and_notice_responses::{ErrorOrNoticeFields, ErrorResponse};
use postgread::msg::body::execute::Execute;
use postgread::msg::body::initial::{Initial, Startup, StartupParam, Version};
use postgread::msg::body::parameter_status::ParameterStatus;
use postgread::msg::body::parse::Parse;
use postgread::msg::body::query::Query;
use postgread::msg::body::ready_for_query::{ReadyForQuery, Status};
use postgread::msg::body::row_description::RowDescription;
use postgread::msg::body::sasl_initial_response::SaslInitialResponse;
use postgread::msg::frame_bytes;
use postgread::msg::parts::{Bytes, Format, Text, Value};
use postgread::msg::type_byte::TypeByte;

/// The startup frame of a plain session, for driver tests.
fn startup_frame() -> Vec<u8> {
    let body = Initial::Startup(Startup {
        version: Version { major: 3, minor: 0 },
        params: vec![StartupParam::new(b"user".to_vec(), b"postgres".to_vec())],
    })
    .encode_body();
    frame_bytes(None, &body)
}

#[test]
fn round_trip_bind() {
    let msg = Bind {
        prepared_statement_name: Text(b"prep".to_vec()),
        portal_name: Text(b"portal".to_vec()),
        parameters_formats: vec![Format::Text, Format::Binary],
        parameters_values: vec![Value::Null, Value::Bytes(Bytes(vec![1, 2, 3]))],
        results_formats: vec![Format::Binary],
    };
    let body = msg.encode_body();
    let mut src = BytesSource::new(&body);
    assert_eq!(Ok(msg), Bind::decode_body(&mut src));
    assert_eq!(0, src.left());
}

#[test]
fn round_trip_authentication() {
    for msg in [
        Authentication::Okay,
        Authentication::Md5Password { salt: [9, 8, 7, 6] },
        Authentication::Sasl { auth_mechanisms: vec![b"OTP".to_vec(), b"SKEY".to_vec()] },
        Authentication::SaslContinue { challenge_data: b"data".to_vec() },
    ] {
        let body = msg.encode_body();
        let mut src = BytesSource::new(&body);
        assert_eq!(Ok(msg), Authentication::decode_body(&mut src));
        assert_eq!(0, src.left());
    }
}

#[test]
fn round_trip_error_response() {
    let msg = ErrorResponse(ErrorOrNoticeFields {
        severity: Some(b"ERROR".to_vec()),
        code: Some(b"28P01".to_vec()),
        message: Some(b"no".to_vec()),
        ..Default::default()
    });
    let body = msg.encode_body();
    let mut src = BytesSource::new(&body);
    assert_eq!(Ok(msg), ErrorResponse::decode_body(&mut src));
    assert_eq!(0, src.left());
}

#[test]
fn round_trip_initial() {
    let msg = Initial::Startup(Startup {
        version: Version { major: 3, minor: 0 },
        params: vec![
            StartupParam::new(b"user".to_vec(), b"u1".to_vec()),
            StartupParam::new(b"database".to_vec(), b"d1".to_vec()),
        ],
    });
    let body = msg.encode_body();
    let mut src = BytesSource::new(&body);
    assert_eq!(Ok(msg), Initial::decode_body(&mut src));
    assert_eq!(0, src.left());
}

#[test]
fn round_trip_small_bodies() {
    let ps = ParameterStatus::new(b"TimeZone".to_vec(), b"UTC".to_vec());
    let mut src_body = ps.encode_body();
    let mut src = BytesSource::new(&src_body);
    assert_eq!(Ok(ps), ParameterStatus::decode_body(&mut src));
    assert_eq!(0, src.left());

    let q = Query(b"select 1".to_vec());
    src_body = q.encode_body();
    let mut src = BytesSource::new(&src_body);
    assert_eq!(Ok(q), Query::decode_body(&mut src));

    let e = Execute { portal_name: Text(b"p".to_vec()), rows_limit: 7 };
    src_body = e.encode_body();
    let mut src = BytesSource::new(&src_body);
    assert_eq!(Ok(e), Execute::decode_body(&mut src));

    let r = ReadyForQuery { status: Status::Transaction };
    src_body = r.encode_body();
    let mut src = BytesSource::new(&src_body);
    assert_eq!(Ok(r), ReadyForQuery::decode_body(&mut src));

    let s = SaslInitialResponse {
        selected_mechanism: b"SCRAM-SHA-256".to_vec(),
        mechanism_data: Some(vec![1, 2]),
    };
    src_body = s.encode_body();
    let mut src = BytesSource::new(&src_body);
    assert_eq!(Ok(s), SaslInitialResponse::decode_body(&mut src));
}

#[test]
fn frame_left_undecoded() {
    // an authentication frame declaring one byte more than its codec consumes
    let mut back = vec![0x52];
    back.extend(frame_bytes(None, &vec![0, 0, 0, 0, 9]));
    let outcome = run_conveyor(&startup_frame(), &back, &[Side::Backend]);
    assert_eq!(Err(ConveyError::LeftUndecoded(1)), outcome.result);
}

#[test]
fn frame_needs_more_bytes() {
    // an authentication frame declaring less than its codec needs
    let mut back = vec![0x52];
    back.extend(frame_bytes(None, &vec![0, 0]));
    let outcome = run_conveyor(&startup_frame(), &back, &[Side::Backend]);
    assert_eq!(
        Err(ConveyError::DecodeError(Problem::NeedMoreBytes(2))),
        outcome.result
    );
}

#[test]
fn mid_frame_eof() {
    // the backend announces a long frame and hangs up in its middle
    let back = vec![0x52, 0, 0, 0, 10, 0];
    let outcome = run_conveyor(&startup_frame(), &back, &[Side::Backend]);
    assert_eq!(Err(ConveyError::IoError(IoProblem::UnexpectedEof)), outcome.result);
}

#[test]
fn eof_at_frame_boundary() {
    // both legs end cleanly, but no terminating state was reached
    let outcome = run_conveyor(&startup_frame(), &[], &[]);
    assert_eq!(Err(ConveyError::IoError(IoProblem::UnexpectedEof)), outcome.result);
    assert_eq!(1, outcome.messages.len());
}

#[test]
fn data_row_negative_column_length() {
    // a column length of -2 is below the one negative value the wire allows
    let bytes: &[u8] = &[0, 1, 0xff, 0xff, 0xff, 0xfe];
    let mut src = BytesSource::new(bytes);
    assert_eq!(
        Err(Problem::Incorrect(Incorrectness::ValueLength(-2))),
        DataRow::decode_body(&mut src)
    );
}

#[test]
fn row_description_unknown_format() {
    let bytes: &[u8] = &[
        0, 1, // one field
        b'f', 0, // name
        0, 0, 0, 1, // column oid
        0, 1, // column attr num
        0, 0, 0, 2, // type oid
        0, 4, // type size
        0, 0, 0, 0, // type modifier
        0, 2, // format outside {0,1}
    ];
    let mut src = BytesSource::new(bytes);
    assert_eq!(
        Err(Problem::Unknown(Unrecognized::ValueFormat(2))),
        RowDescription::decode_body(&mut src)
    );
}

#[test]
fn authentication_unknown_sub_type() {
    let bytes: &[u8] = &[0, 0, 0, 99];
    let mut src = BytesSource::new(bytes);
    assert_eq!(
        Err(Problem::Unknown(Unrecognized::AuthSubType(99))),
        Authentication::decode_body(&mut src)
    );
}

#[test]
fn error_response_unknown_field_type() {
    let bytes: &[u8] = &[b'X', b'h', b'i', 0, 0];
    let mut src = BytesSource::new(bytes);
    assert_eq!(
        Err(Problem::Unknown(Unrecognized::ErrorFieldType { index: 0, type_byte: b'X' })),
        ErrorResponse::decode_body(&mut src)
    );
}

#[test]
fn unknown_type_byte_aborts() {
    // 0x21 names no message
    let outcome = run_conveyor(&startup_frame(), &[0x21], &[Side::Backend]);
    assert_eq!(Err(ConveyError::UnknownType(Side::Backend, 0x21)), outcome.result);
}

#[test]
fn unexpected_type_byte_aborts() {
    // a DataRow right after startup is forbidden in that state
    let mut back = vec![0x44];
    back.extend(frame_bytes(None, &vec![0, 0]));
    let outcome = run_conveyor(&startup_frame(), &back, &[Side::Backend]);
    assert_eq!(
        Err(ConveyError::UnexpectedType(State::GotStartup, Side::Backend, TypeByte::DataRow)),
        outcome.result
    );
}

#[test]
fn unknown_tls_answer_aborts() {
    let front = frame_bytes(None, &Initial::TLS.encode_body());
    let outcome = run_conveyor(&front, &[b'?'], &[]);
    assert_eq!(Err(ConveyError::UnknownType(Side::Backend, b'?')), outcome.result);
    assert_eq!(1, outcome.messages.len());
}

#[test]
fn forwarding_preserves_raw_bytes() {
    // transparency on a run that ends early with an error response
    let front = startup_frame();
    let mut back = vec![0x45];
    let err = ErrorResponse(ErrorOrNoticeFields {
        severity: Some(b"FATAL".to_vec()),
        message: Some(b"nope".to_vec()),
        ..Default::default()
    });
    back.extend(frame_bytes(None, &err.encode_body()));
    let outcome = run_conveyor(&front, &back, &[Side::Backend]);
    assert_eq!(Ok(()), outcome.result);
    assert_eq!(front, outcome.to_backend);
    assert_eq!(back, outcome.to_frontend);
    assert_eq!(
        vec![
            MessageClone::Frontend(postgread::convey::FrontendMsgClone::Initial(
                Initial::Startup(Startup {
                    version: Version { major: 3, minor: 0 },
                    params: vec![StartupParam::new(b"user".to_vec(), b"postgres".to_vec())],
                })
            )),
            MessageClone::Backend(postgread::convey::BackendMsgClone::ErrorResponse(err)),
        ],
        outcome.messages
    );
}

#[test]
fn command_complete_round_trip_exact_bytes() {
    // the encoded body is the tag and one null byte, nothing else
    let msg = CommandComplete { tag: b"SELECT 1".to_vec() };
    let body = msg.encode_body();
    assert_eq!(b"SELECT 1\0".to_vec(), body);
    let framed = frame_bytes(Some(0x43), &body);
    assert_eq!(0x43, framed[0]);
    assert_eq!(vec![0, 0, 0, 13], framed[1..5].to_vec());
    assert_eq!(body, framed[5..].to_vec());
}
