//! The `ErrorResponse` and `NoticeResponse` messages: a list of
//! (field-type byte, null-terminated value) pairs closed by a zero byte.

use vstd::prelude::*;
use crate::decode::{
    BytesSource, DecodeResult, Problem, Taken, Unrecognized, lemma_null_at, lemma_until_null_of,
    sp_u8, sp_until_null,
};
use crate::encode::{lemma_peel, no_null, push_text};

verus! {

/// The fields an error or notice can carry, each optional.
#[derive(Clone, Debug, PartialEq, Eq)]
pub struct ErrorOrNoticeFields {
    pub localized_severity: Option<Vec<u8>>,
    pub severity: Option<Vec<u8>>,
    pub code: Option<Vec<u8>>,
    pub message: Option<Vec<u8>>,
    pub detail: Option<Vec<u8>>,
    pub hint: Option<Vec<u8>>,
    pub position: Option<Vec<u8>>,
    pub internal_position: Option<Vec<u8>>,
    pub internal_query: Option<Vec<u8>>,
    pub where_: Option<Vec<u8>>,
    pub schema: Option<Vec<u8>>,
    pub table: Option<Vec<u8>>,
    pub column: Option<Vec<u8>>,
    pub data_type: Option<Vec<u8>>,
    pub constraint: Option<Vec<u8>>,
    pub file: Option<Vec<u8>>,
    pub line: Option<Vec<u8>>,
    pub routine: Option<Vec<u8>>,
}

/// The mathematical shape of the field record.
pub struct ErrorOrNoticeFieldsV {
    pub localized_severity: Option<Seq<u8>>,
    pub severity: Option<Seq<u8>>,
    pub code: Option<Seq<u8>>,
    pub message: Option<Seq<u8>>,
    pub detail: Option<Seq<u8>>,
    pub hint: Option<Seq<u8>>,
    pub position: Option<Seq<u8>>,
    pub internal_position: Option<Seq<u8>>,
    pub internal_query: Option<Seq<u8>>,
    pub where_: Option<Seq<u8>>,
    pub schema: Option<Seq<u8>>,
    pub table: Option<Seq<u8>>,
    pub column: Option<Seq<u8>>,
    pub data_type: Option<Seq<u8>>,
    pub constraint: Option<Seq<u8>>,
    pub file: Option<Seq<u8>>,
    pub line: Option<Seq<u8>>,
    pub routine: Option<Seq<u8>>,
}

pub open spec fn view_opt(o: Option<Vec<u8>>) -> Option<Seq<u8>> {
    match o {
        Some(v) => Some(v@),
        None => None,
    }
}

impl View for ErrorOrNoticeFields {
    type V = ErrorOrNoticeFieldsV;

    open spec fn view(&self) -> ErrorOrNoticeFieldsV {
        ErrorOrNoticeFieldsV {
            localized_severity: view_opt(self.localized_severity),
            severity: view_opt(self.severity),
            code: view_opt(self.code),
            message: view_opt(self.message),
            detail: view_opt(self.detail),
            hint: view_opt(self.hint),
            position: view_opt(self.position),
            internal_position: view_opt(self.internal_position),
            internal_query: view_opt(self.internal_query),
            where_: view_opt(self.where_),
            schema: view_opt(self.schema),
            table: view_opt(self.table),
            column: view_opt(self.column),
            data_type: view_opt(self.data_type),
            constraint: view_opt(self.constraint),
            file: view_opt(self.file),
            line: view_opt(self.line),
            routine: view_opt(self.routine),
        }
    }
}

impl ErrorOrNoticeFieldsV {
    /// The record before any field arrived.
    pub open spec fn empty() -> ErrorOrNoticeFieldsV {
        ErrorOrNoticeFieldsV {
            localized_severity: None,
            severity: None,
            code: None,
            message: None,
            detail: None,
            hint: None,
            position: None,
            internal_position: None,
            internal_query: None,
            where_: None,
            schema: None,
            table: None,
            column: None,
            data_type: None,
            constraint: None,
            file: None,
            line: None,
            routine: None,
        }
    }
}

impl Default for ErrorOrNoticeFields {
    /// The record before any field arrived.
    fn default() -> (r: Self)
        ensures
            r@ == ErrorOrNoticeFieldsV::empty(),
    {
        ErrorOrNoticeFields {
            localized_severity: None,
            severity: None,
            code: None,
            message: None,
            detail: None,
            hint: None,
            position: None,
            internal_position: None,
            internal_query: None,
            where_: None,
            schema: None,
            table: None,
            column: None,
            data_type: None,
            constraint: None,
            file: None,
            line: None,
            routine: None,
        }
    }
}

/// Whether a field-type byte is one the PostgreSQL documentation lists.
pub open spec fn recognized_field(t: u8) -> bool {
    ||| t == 0x53  // S
    ||| t == 0x56  // V
    ||| t == 0x43  // C
    ||| t == 0x4d  // M
    ||| t == 0x44  // D
    ||| t == 0x48  // H
    ||| t == 0x50  // P
    ||| t == 0x70  // p
    ||| t == 0x71  // q
    ||| t == 0x57  // W
    ||| t == 0x73  // s
    ||| t == 0x74  // t
    ||| t == 0x63  // c
    ||| t == 0x64  // d
    ||| t == 0x6e  // n
    ||| t == 0x46  // F
    ||| t == 0x4c  // L
    ||| t == 0x52  // R

}

/// The record with the field that `t` selects set to `val`.
pub open spec fn set_field(acc: ErrorOrNoticeFieldsV, t: u8, val: Seq<u8>) -> ErrorOrNoticeFieldsV {
    if t == 0x53 {
        ErrorOrNoticeFieldsV { localized_severity: Some(val), ..acc }
    } else if t == 0x56 {
        ErrorOrNoticeFieldsV { severity: Some(val), ..acc }
    } else if t == 0x43 {
        ErrorOrNoticeFieldsV { code: Some(val), ..acc }
    } else if t == 0x4d {
        ErrorOrNoticeFieldsV { message: Some(val), ..acc }
    } else if t == 0x44 {
        ErrorOrNoticeFieldsV { detail: Some(val), ..acc }
    } else if t == 0x48 {
        ErrorOrNoticeFieldsV { hint: Some(val), ..acc }
    } else if t == 0x50 {
        ErrorOrNoticeFieldsV { position: Some(val), ..acc }
    } else if t == 0x70 {
        ErrorOrNoticeFieldsV { internal_position: Some(val), ..acc }
    } else if t == 0x71 {
        ErrorOrNoticeFieldsV { internal_query: Some(val), ..acc }
    } else if t == 0x57 {
        ErrorOrNoticeFieldsV { where_: Some(val), ..acc }
    } else if t == 0x73 {
        ErrorOrNoticeFieldsV { schema: Some(val), ..acc }
    } else if t == 0x74 {
        ErrorOrNoticeFieldsV { table: Some(val), ..acc }
    } else if t == 0x63 {
        ErrorOrNoticeFieldsV { column: Some(val), ..acc }
    } else if t == 0x64 {
        ErrorOrNoticeFieldsV { data_type: Some(val), ..acc }
    } else if t == 0x6e {
        ErrorOrNoticeFieldsV { constraint: Some(val), ..acc }
    } else if t == 0x46 {
        ErrorOrNoticeFieldsV { file: Some(val), ..acc }
    } else if t == 0x4c {
        ErrorOrNoticeFieldsV { line: Some(val), ..acc }
    } else if t == 0x52 {
        ErrorOrNoticeFieldsV { routine: Some(val), ..acc }
    } else {
        acc
    }
}

/// Decoding the field list from position `p`, the `index`-th field next and
/// the fields seen so far in `acc`: a zero byte closes the record, a
/// recognized type byte prefixes a null-terminated value, and any other
/// byte is unknown.
pub open spec fn sp_error_fields(
    s: Seq<u8>,
    p: int,
    index: int,
    acc: ErrorOrNoticeFieldsV,
) -> Taken<ErrorOrNoticeFieldsV>
    decreases s.len() - p,
    via sp_error_fields_dec
{
    match sp_u8(s, p) {
        Taken::Got(t, q) => if t == 0 {
            Taken::Got(acc, q)
        } else if !recognized_field(t) {
            Taken::Short(
                Problem::Unknown(
                    Unrecognized::ErrorFieldType {
                        index: #[verifier::truncate] (index as usize),
                        type_byte: t,
                    },
                ),
            )
        } else {
            match sp_until_null(s, q) {
                Taken::Got(val, r) => sp_error_fields(s, r, index + 1, set_field(acc, t, val)),
                Taken::Short(e) => Taken::Short(e),
            }
        },
        Taken::Short(e) => Taken::Short(e),
    }
}

#[via_fn]
proof fn sp_error_fields_dec(s: Seq<u8>, p: int, index: int, acc: ErrorOrNoticeFieldsV) {
    if 0 <= p + 1 <= s.len() {
        lemma_null_at(s, p + 1);
    }
}

/// Tests a field-type byte against the documented set.
fn is_recognized_field(t: u8) -> (b: bool)
    ensures
        b == recognized_field(t),
{
    match t {
        0x53 | 0x56 | 0x43 | 0x4d | 0x44 | 0x48 | 0x50 | 0x70 | 0x71 | 0x57 | 0x73 | 0x74 | 0x63
            | 0x64 | 0x6e | 0x46 | 0x4c | 0x52 => true,
        _ => false,
    }
}

/// Stores `value` into the field that the recognized type byte `t` selects.
fn put_field(body: &mut ErrorOrNoticeFields, t: u8, value: Vec<u8>)
    requires
        recognized_field(t),
    ensures
        final(body)@ == set_field(old(body)@, t, value@),
{
    match t {
        0x53 => { body.localized_severity = Some(value); },
        0x56 => { body.severity = Some(value); },
        0x43 => { body.code = Some(value); },
        0x4d => { body.message = Some(value); },
        0x44 => { body.detail = Some(value); },
        0x48 => { body.hint = Some(value); },
        0x50 => { body.position = Some(value); },
        0x70 => { body.internal_position = Some(value); },
        0x71 => { body.internal_query = Some(value); },
        0x57 => { body.where_ = Some(value); },
        0x73 => { body.schema = Some(value); },
        0x74 => { body.table = Some(value); },
        0x63 => { body.column = Some(value); },
        0x64 => { body.data_type = Some(value); },
        0x6e => { body.constraint = Some(value); },
        0x46 => { body.file = Some(value); },
        0x4c => { body.line = Some(value); },
        0x52 => { body.routine = Some(value); },
        _ => {},
    }
}

impl ErrorOrNoticeFields {
    /// Reads the whole field list.
    pub fn decode(bytes: &mut BytesSource) -> (r: DecodeResult<ErrorOrNoticeFields>)
        requires
            old(bytes).wf(),
        ensures
            final(bytes).wf(),
            final(bytes).all() == old(bytes).all(),
            match sp_error_fields(
                old(bytes).all(),
                old(bytes).at(),
                0,
                ErrorOrNoticeFieldsV::empty(),
            ) {
                Taken::Got(v, q) => r matches Ok(m) && m@ == v && final(bytes).at() == q,
                Taken::Short(e) => r == DecodeResult::<ErrorOrNoticeFields>::Err(e),
            },
    {
        let ghost s = old(bytes).all();
        let ghost p0 = old(bytes).at();
        let mut body = ErrorOrNoticeFields::default();
        let mut index: usize = 0;
        let mut done = false;
        while !done
            invariant
                s == old(bytes).all(),
                p0 == old(bytes).at(),
                0 <= p0 <= s.len(),
                bytes.wf(),
                bytes.all() == s,
                2 * index <= bytes.at() - p0,
                !done ==> sp_error_fields(s, p0, 0, ErrorOrNoticeFieldsV::empty())
                    == sp_error_fields(s, bytes.at(), index as int, body@),
                done ==> sp_error_fields(s, p0, 0, ErrorOrNoticeFieldsV::empty())
                    == Taken::Got(body@, bytes.at()),
            decreases s.len() - bytes.at() + (if done { 0int } else { 1int }),
        {
            let ghost pi = bytes.at();
            let t = match bytes.take_u8() {
                Ok(x) => x,
                Err(e) => {
                    return Err(e);
                },
            };
            if t == 0 {
                done = true;
            } else {
                if !is_recognized_field(t) {
                    return Err(
                        Problem::Unknown(Unrecognized::ErrorFieldType { index, type_byte: t }),
                    );
                }
                proof {
                    lemma_null_at(s, bytes.at());
                }
                let value = match bytes.take_until_null() {
                    Ok(x) => x,
                    Err(e) => {
                        return Err(e);
                    },
                };
                let ghost body_was = body@;
                let ghost value_v = value@;
                put_field(&mut body, t, value);
                proof {
                    assert(sp_error_fields(s, pi, index as int, body_was) == sp_error_fields(
                        s,
                        bytes.at(),
                        index + 1,
                        body@,
                    ));
                }
                index = index + 1;
            }
        }
        Ok(body)
    }
}

#[derive(Clone, Debug, PartialEq, Eq)]
pub struct ErrorResponse(pub ErrorOrNoticeFields);

impl View for ErrorResponse {
    type V = ErrorOrNoticeFieldsV;

    open spec fn view(&self) -> ErrorOrNoticeFieldsV {
        self.0@
    }
}

/// The wire bytes of one optional field: its type byte and terminated
/// value, or nothing.
pub open spec fn sp_chunk(t: u8, o: Option<Seq<u8>>) -> Seq<u8> {
    match o {
        Some(val) => seq![t] + val + seq![0u8],
        None => Seq::empty(),
    }
}

pub open spec fn opt_no_null(o: Option<Seq<u8>>) -> bool {
    match o {
        Some(val) => no_null(val),
        None => true,
    }
}

/// The wire bytes of a whole field record: each present field in the
/// documented order, then the closing zero byte.
pub open spec fn sp_encode_err_fields(v: ErrorOrNoticeFieldsV) -> Seq<u8> {
    sp_chunk(0x53, v.localized_severity) + (sp_chunk(0x56, v.severity) + (sp_chunk(0x43, v.code) + (sp_chunk(0x4d, v.message) + (sp_chunk(0x44, v.detail) + (sp_chunk(0x48, v.hint) + (sp_chunk(0x50, v.position) + (sp_chunk(0x70, v.internal_position) + (sp_chunk(0x71, v.internal_query) + (sp_chunk(0x57, v.where_) + (sp_chunk(0x73, v.schema) + (sp_chunk(0x74, v.table) + (sp_chunk(0x63, v.column) + (sp_chunk(0x64, v.data_type) + (sp_chunk(0x6e, v.constraint) + (sp_chunk(0x46, v.file) + (sp_chunk(0x4c, v.line) + (sp_chunk(0x52, v.routine) + (seq![0u8]))))))))))))))))))
}

/// What lets a field record travel the wire unchanged: no value holds a
/// null byte of its own.
pub open spec fn err_fields_ok(v: ErrorOrNoticeFieldsV) -> bool {
    &&& opt_no_null(v.localized_severity)
    &&& opt_no_null(v.severity)
    &&& opt_no_null(v.code)
    &&& opt_no_null(v.message)
    &&& opt_no_null(v.detail)
    &&& opt_no_null(v.hint)
    &&& opt_no_null(v.position)
    &&& opt_no_null(v.internal_position)
    &&& opt_no_null(v.internal_query)
    &&& opt_no_null(v.where_)
    &&& opt_no_null(v.schema)
    &&& opt_no_null(v.table)
    &&& opt_no_null(v.column)
    &&& opt_no_null(v.data_type)
    &&& opt_no_null(v.constraint)
    &&& opt_no_null(v.file)
    &&& opt_no_null(v.line)
    &&& opt_no_null(v.routine)
}

/// Reading one encoded field chunk sets that field and moves past it; an
/// absent field leaves everything as it stands.
proof fn lemma_err_chunk(
    s: Seq<u8>,
    p: int,
    t: u8,
    o: Option<Seq<u8>>,
    index: int,
    acc: ErrorOrNoticeFieldsV,
)
    requires
        0 <= p,
        recognized_field(t),
        opt_no_null(o),
        p + sp_chunk(t, o).len() <= s.len(),
        s.subrange(p, p + sp_chunk(t, o).len()) == sp_chunk(t, o),
    ensures
        sp_error_fields(s, p, index, acc) == sp_error_fields(
            s,
            p + sp_chunk(t, o).len(),
            index + (if o is Some { 1int } else { 0int }),
            match o {
                Some(val) => set_field(acc, t, val),
                None => acc,
            },
        ),
{
    match o {
        None => {},
        Some(val) => {
            let enc = sp_chunk(t, o);
            assert(s[p] == t) by {
                assert(s.subrange(p, p + enc.len() as int)[0] == enc[0]);
            }
            vstd::assert_seqs_equal!(s.subrange(p + 1, p + 1 + val.len() as int) == val, i => {
                assert(s.subrange(p, p + enc.len() as int)[1 + i] == enc[1 + i]);
            });
            assert(s[p + 1 + val.len()] == 0) by {
                assert(s.subrange(p, p + enc.len() as int)[1 + val.len() as int] == enc[1
                    + val.len() as int]);
            }
            lemma_until_null_of(s, p + 1, val);
        },
    }
}

/// Decoding an encoded field record gives it back.

/// The record that reading every encoded chunk of `v` builds up.
spec fn applied_fields(v: ErrorOrNoticeFieldsV) -> ErrorOrNoticeFieldsV {
    let a0 = ErrorOrNoticeFieldsV::empty();
    let a1 = match v.localized_severity {
        Some(val) => set_field(a0, 0x53, val),
        None => a0,
    };
    let a2 = match v.severity {
        Some(val) => set_field(a1, 0x56, val),
        None => a1,
    };
    let a3 = match v.code {
        Some(val) => set_field(a2, 0x43, val),
        None => a2,
    };
    let a4 = match v.message {
        Some(val) => set_field(a3, 0x4d, val),
        None => a3,
    };
    let a5 = match v.detail {
        Some(val) => set_field(a4, 0x44, val),
        None => a4,
    };
    let a6 = match v.hint {
        Some(val) => set_field(a5, 0x48, val),
        None => a5,
    };
    let a7 = match v.position {
        Some(val) => set_field(a6, 0x50, val),
        None => a6,
    };
    let a8 = match v.internal_position {
        Some(val) => set_field(a7, 0x70, val),
        None => a7,
    };
    let a9 = match v.internal_query {
        Some(val) => set_field(a8, 0x71, val),
        None => a8,
    };
    let a10 = match v.where_ {
        Some(val) => set_field(a9, 0x57, val),
        None => a9,
    };
    let a11 = match v.schema {
        Some(val) => set_field(a10, 0x73, val),
        None => a10,
    };
    let a12 = match v.table {
        Some(val) => set_field(a11, 0x74, val),
        None => a11,
    };
    let a13 = match v.column {
        Some(val) => set_field(a12, 0x63, val),
        None => a12,
    };
    let a14 = match v.data_type {
        Some(val) => set_field(a13, 0x64, val),
        None => a13,
    };
    let a15 = match v.constraint {
        Some(val) => set_field(a14, 0x6e, val),
        None => a14,
    };
    let a16 = match v.file {
        Some(val) => set_field(a15, 0x46, val),
        None => a15,
    };
    let a17 = match v.line {
        Some(val) => set_field(a16, 0x4c, val),
        None => a16,
    };
    let a18 = match v.routine {
        Some(val) => set_field(a17, 0x52, val),
        None => a17,
    };
    a18
}

/// Reading back the chunks of `v` rebuilds `v` itself.
#[verifier::rlimit(100)]
#[verifier::spinoff_prover]
proof fn lemma_applied_fields(v: ErrorOrNoticeFieldsV)
    ensures
        applied_fields(v) == v,
{
    assert(applied_fields(v).localized_severity == v.localized_severity);
    assert(applied_fields(v).severity == v.severity);
    assert(applied_fields(v).code == v.code);
    assert(applied_fields(v).message == v.message);
    assert(applied_fields(v).detail == v.detail);
    assert(applied_fields(v).hint == v.hint);
    assert(applied_fields(v).position == v.position);
    assert(applied_fields(v).internal_position == v.internal_position);
    assert(applied_fields(v).internal_query == v.internal_query);
    assert(applied_fields(v).where_ == v.where_);
    assert(applied_fields(v).schema == v.schema);
    assert(applied_fields(v).table == v.table);
    assert(applied_fields(v).column == v.column);
    assert(applied_fields(v).data_type == v.data_type);
    assert(applied_fields(v).constraint == v.constraint);
    assert(applied_fields(v).file == v.file);
    assert(applied_fields(v).line == v.line);
    assert(applied_fields(v).routine == v.routine);
}

/// The chunks of a field record, in the documented order.
spec fn chunk_list(v: ErrorOrNoticeFieldsV) -> Seq<(u8, Option<Seq<u8>>)> {
    seq![(0x53u8, v.localized_severity), (0x56u8, v.severity), (0x43u8, v.code), (0x4du8, v.message), (0x44u8, v.detail), (0x48u8, v.hint), (0x50u8, v.position), (0x70u8, v.internal_position), (0x71u8, v.internal_query), (0x57u8, v.where_), (0x73u8, v.schema), (0x74u8, v.table), (0x63u8, v.column), (0x64u8, v.data_type), (0x6eu8, v.constraint), (0x46u8, v.file), (0x4cu8, v.line), (0x52u8, v.routine)]
}

/// The wire bytes of a chunk list, closed by the zero byte.
spec fn sp_encode_chunks(cs: Seq<(u8, Option<Seq<u8>>)>) -> Seq<u8>
    decreases cs.len(),
{
    if cs.len() == 0 {
        seq![0u8]
    } else {
        sp_chunk(cs[0].0, cs[0].1) + sp_encode_chunks(cs.drop_first())
    }
}

/// The record that reading the chunks builds onto `acc`.
spec fn apply_chunks(acc: ErrorOrNoticeFieldsV, cs: Seq<(u8, Option<Seq<u8>>)>) -> (
    r: ErrorOrNoticeFieldsV)
    decreases cs.len(),
{
    if cs.len() == 0 {
        acc
    } else {
        apply_chunks(
            match cs[0].1 {
                Some(val) => set_field(acc, cs[0].0, val),
                None => acc,
            },
            cs.drop_first(),
        )
    }
}

spec fn chunks_ok(cs: Seq<(u8, Option<Seq<u8>>)>) -> bool {
    forall|i: int|
        0 <= i < cs.len() ==> recognized_field(#[trigger] cs[i].0) && opt_no_null(cs[i].1)
}

/// Reading an encoded chunk list folds its fields onto the record and ends
/// at the zero byte.
proof fn lemma_chunks_round(
    s: Seq<u8>,
    p: int,
    cs: Seq<(u8, Option<Seq<u8>>)>,
    index: int,
    acc: ErrorOrNoticeFieldsV,
)
    requires
        0 <= p,
        p + sp_encode_chunks(cs).len() <= s.len(),
        s.subrange(p, p + sp_encode_chunks(cs).len()) == sp_encode_chunks(cs),
        chunks_ok(cs),
    ensures
        sp_error_fields(s, p, index, acc) == Taken::<ErrorOrNoticeFieldsV>::Got(
            apply_chunks(acc, cs),
            p + sp_encode_chunks(cs).len(),
        ),
    decreases cs.len(),
{
    let enc = sp_encode_chunks(cs);
    if cs.len() == 0 {
        assert(s[p] == 0) by {
            assert(s.subrange(p, p + enc.len() as int)[0] == enc[0]);
        }
    } else {
        let c = sp_chunk(cs[0].0, cs[0].1);
        let rest = cs.drop_first();
        lemma_peel(s, p, c, sp_encode_chunks(rest));
        lemma_err_chunk(s, p, cs[0].0, cs[0].1, index, acc);
        assert(chunks_ok(rest)) by {
            assert(forall|i: int| 0 <= i < rest.len() ==> rest[i] == #[trigger] cs[i + 1]);
        }
        lemma_chunks_round(
            s,
            p + c.len() as int,
            rest,
            index + (if cs[0].1 is Some { 1int } else { 0int }),
            match cs[0].1 {
                Some(val) => set_field(acc, cs[0].0, val),
                None => acc,
            },
        );
    }
}

/// The chunk list of `v` encodes to the record's wire bytes.
#[verifier::rlimit(100)]
#[verifier::spinoff_prover]
proof fn lemma_chunk_list_enc(v: ErrorOrNoticeFieldsV)
    ensures
        sp_encode_chunks(chunk_list(v)) == sp_encode_err_fields(v),
{
    let cs0 = chunk_list(v);
    let cs1 = cs0.drop_first();
    assert(cs0[0] == (0x53u8, v.localized_severity));
    assert(sp_encode_chunks(cs0) == sp_chunk(0x53, v.localized_severity) + sp_encode_chunks(cs1));
    let cs2 = cs1.drop_first();
    assert(cs1[0] == (0x56u8, v.severity));
    assert(sp_encode_chunks(cs1) == sp_chunk(0x56, v.severity) + sp_encode_chunks(cs2));
    let cs3 = cs2.drop_first();
    assert(cs2[0] == (0x43u8, v.code));
    assert(sp_encode_chunks(cs2) == sp_chunk(0x43, v.code) + sp_encode_chunks(cs3));
    let cs4 = cs3.drop_first();
    assert(cs3[0] == (0x4du8, v.message));
    assert(sp_encode_chunks(cs3) == sp_chunk(0x4d, v.message) + sp_encode_chunks(cs4));
    let cs5 = cs4.drop_first();
    assert(cs4[0] == (0x44u8, v.detail));
    assert(sp_encode_chunks(cs4) == sp_chunk(0x44, v.detail) + sp_encode_chunks(cs5));
    let cs6 = cs5.drop_first();
    assert(cs5[0] == (0x48u8, v.hint));
    assert(sp_encode_chunks(cs5) == sp_chunk(0x48, v.hint) + sp_encode_chunks(cs6));
    let cs7 = cs6.drop_first();
    assert(cs6[0] == (0x50u8, v.position));
    assert(sp_encode_chunks(cs6) == sp_chunk(0x50, v.position) + sp_encode_chunks(cs7));
    let cs8 = cs7.drop_first();
    assert(cs7[0] == (0x70u8, v.internal_position));
    assert(sp_encode_chunks(cs7) == sp_chunk(0x70, v.internal_position) + sp_encode_chunks(cs8));
    let cs9 = cs8.drop_first();
    assert(cs8[0] == (0x71u8, v.internal_query));
    assert(sp_encode_chunks(cs8) == sp_chunk(0x71, v.internal_query) + sp_encode_chunks(cs9));
    let cs10 = cs9.drop_first();
    assert(cs9[0] == (0x57u8, v.where_));
    assert(sp_encode_chunks(cs9) == sp_chunk(0x57, v.where_) + sp_encode_chunks(cs10));
    let cs11 = cs10.drop_first();
    assert(cs10[0] == (0x73u8, v.schema));
    assert(sp_encode_chunks(cs10) == sp_chunk(0x73, v.schema) + sp_encode_chunks(cs11));
    let cs12 = cs11.drop_first();
    assert(cs11[0] == (0x74u8, v.table));
    assert(sp_encode_chunks(cs11) == sp_chunk(0x74, v.table) + sp_encode_chunks(cs12));
    let cs13 = cs12.drop_first();
    assert(cs12[0] == (0x63u8, v.column));
    assert(sp_encode_chunks(cs12) == sp_chunk(0x63, v.column) + sp_encode_chunks(cs13));
    let cs14 = cs13.drop_first();
    assert(cs13[0] == (0x64u8, v.data_type));
    assert(sp_encode_chunks(cs13) == sp_chunk(0x64, v.data_type) + sp_encode_chunks(cs14));
    let cs15 = cs14.drop_first();
    assert(cs14[0] == (0x6eu8, v.constraint));
    assert(sp_encode_chunks(cs14) == sp_chunk(0x6e, v.constraint) + sp_encode_chunks(cs15));
    let cs16 = cs15.drop_first();
    assert(cs15[0] == (0x46u8, v.file));
    assert(sp_encode_chunks(cs15) == sp_chunk(0x46, v.file) + sp_encode_chunks(cs16));
    let cs17 = cs16.drop_first();
    assert(cs16[0] == (0x4cu8, v.line));
    assert(sp_encode_chunks(cs16) == sp_chunk(0x4c, v.line) + sp_encode_chunks(cs17));
    let cs18 = cs17.drop_first();
    assert(cs17[0] == (0x52u8, v.routine));
    assert(sp_encode_chunks(cs17) == sp_chunk(0x52, v.routine) + sp_encode_chunks(cs18));
    assert(cs18.len() == 0);
    assert(sp_encode_chunks(cs18) == seq![0u8]);
}

/// Folding the chunk list of `v` onto the fresh record rebuilds `v`.
/// The record after the first half of the chunks.
spec fn applied_first(v: ErrorOrNoticeFieldsV) -> ErrorOrNoticeFieldsV {
    let m1 = match v.localized_severity {
        Some(val) => set_field(ErrorOrNoticeFieldsV::empty(), 0x53, val),
        None => ErrorOrNoticeFieldsV::empty(),
    };
    let m2 = match v.severity {
        Some(val) => set_field(m1, 0x56, val),
        None => m1,
    };
    let m3 = match v.code {
        Some(val) => set_field(m2, 0x43, val),
        None => m2,
    };
    let m4 = match v.message {
        Some(val) => set_field(m3, 0x4d, val),
        None => m3,
    };
    let m5 = match v.detail {
        Some(val) => set_field(m4, 0x44, val),
        None => m4,
    };
    let m6 = match v.hint {
        Some(val) => set_field(m5, 0x48, val),
        None => m5,
    };
    let m7 = match v.position {
        Some(val) => set_field(m6, 0x50, val),
        None => m6,
    };
    let m8 = match v.internal_position {
        Some(val) => set_field(m7, 0x70, val),
        None => m7,
    };
    let m9 = match v.internal_query {
        Some(val) => set_field(m8, 0x71, val),
        None => m8,
    };
    m9
}

/// The first half of the chunks folds to `applied_first`.
#[verifier::rlimit(100)]
#[verifier::spinoff_prover]
proof fn lemma_chunk_list_apply_a(v: ErrorOrNoticeFieldsV)
    ensures
        apply_chunks(ErrorOrNoticeFieldsV::empty(), chunk_list(v)) == apply_chunks(
            applied_first(v),
            chunk_list(v).skip(9),
        ),
{
    let cs0 = chunk_list(v);
    let b0 = ErrorOrNoticeFieldsV::empty();
    let cs1 = cs0.drop_first();
    assert(cs0[0] == (0x53u8, v.localized_severity));
    let b1 = match v.localized_severity {
        Some(val) => set_field(b0, 0x53, val),
        None => b0,
    };
    assert(apply_chunks(b0, cs0) == apply_chunks(b1, cs1));
    let cs2 = cs1.drop_first();
    assert(cs1[0] == (0x56u8, v.severity));
    let b2 = match v.severity {
        Some(val) => set_field(b1, 0x56, val),
        None => b1,
    };
    assert(apply_chunks(b1, cs1) == apply_chunks(b2, cs2));
    let cs3 = cs2.drop_first();
    assert(cs2[0] == (0x43u8, v.code));
    let b3 = match v.code {
        Some(val) => set_field(b2, 0x43, val),
        None => b2,
    };
    assert(apply_chunks(b2, cs2) == apply_chunks(b3, cs3));
    let cs4 = cs3.drop_first();
    assert(cs3[0] == (0x4du8, v.message));
    let b4 = match v.message {
        Some(val) => set_field(b3, 0x4d, val),
        None => b3,
    };
    assert(apply_chunks(b3, cs3) == apply_chunks(b4, cs4));
    let cs5 = cs4.drop_first();
    assert(cs4[0] == (0x44u8, v.detail));
    let b5 = match v.detail {
        Some(val) => set_field(b4, 0x44, val),
        None => b4,
    };
    assert(apply_chunks(b4, cs4) == apply_chunks(b5, cs5));
    let cs6 = cs5.drop_first();
    assert(cs5[0] == (0x48u8, v.hint));
    let b6 = match v.hint {
        Some(val) => set_field(b5, 0x48, val),
        None => b5,
    };
    assert(apply_chunks(b5, cs5) == apply_chunks(b6, cs6));
    let cs7 = cs6.drop_first();
    assert(cs6[0] == (0x50u8, v.position));
    let b7 = match v.position {
        Some(val) => set_field(b6, 0x50, val),
        None => b6,
    };
    assert(apply_chunks(b6, cs6) == apply_chunks(b7, cs7));
    let cs8 = cs7.drop_first();
    assert(cs7[0] == (0x70u8, v.internal_position));
    let b8 = match v.internal_position {
        Some(val) => set_field(b7, 0x70, val),
        None => b7,
    };
    assert(apply_chunks(b7, cs7) == apply_chunks(b8, cs8));
    let cs9 = cs8.drop_first();
    assert(cs8[0] == (0x71u8, v.internal_query));
    let b9 = match v.internal_query {
        Some(val) => set_field(b8, 0x71, val),
        None => b8,
    };
    assert(apply_chunks(b8, cs8) == apply_chunks(b9, cs9));
    assert(cs9 =~= chunk_list(v).skip(9));
    assert(b9 == applied_first(v));
}

/// The second half of the chunks rebuilds `v`.
#[verifier::rlimit(100)]
#[verifier::spinoff_prover]
proof fn lemma_chunk_list_apply_b(v: ErrorOrNoticeFieldsV)
    ensures
        apply_chunks(applied_first(v), chunk_list(v).skip(9)) == v,
{
    let cs9 = chunk_list(v).skip(9);
    let b9 = applied_first(v);
    let cs10 = cs9.drop_first();
    assert(cs9[0] == (0x57u8, v.where_));
    let b10 = match v.where_ {
        Some(val) => set_field(b9, 0x57, val),
        None => b9,
    };
    assert(apply_chunks(b9, cs9) == apply_chunks(b10, cs10));
    let cs11 = cs10.drop_first();
    assert(cs10[0] == (0x73u8, v.schema));
    let b11 = match v.schema {
        Some(val) => set_field(b10, 0x73, val),
        None => b10,
    };
    assert(apply_chunks(b10, cs10) == apply_chunks(b11, cs11));
    let cs12 = cs11.drop_first();
    assert(cs11[0] == (0x74u8, v.table));
    let b12 = match v.table {
        Some(val) => set_field(b11, 0x74, val),
        None => b11,
    };
    assert(apply_chunks(b11, cs11) == apply_chunks(b12, cs12));
    let cs13 = cs12.drop_first();
    assert(cs12[0] == (0x63u8, v.column));
    let b13 = match v.column {
        Some(val) => set_field(b12, 0x63, val),
        None => b12,
    };
    assert(apply_chunks(b12, cs12) == apply_chunks(b13, cs13));
    let cs14 = cs13.drop_first();
    assert(cs13[0] == (0x64u8, v.data_type));
    let b14 = match v.data_type {
        Some(val) => set_field(b13, 0x64, val),
        None => b13,
    };
    assert(apply_chunks(b13, cs13) == apply_chunks(b14, cs14));
    let cs15 = cs14.drop_first();
    assert(cs14[0] == (0x6eu8, v.constraint));
    let b15 = match v.constraint {
        Some(val) => set_field(b14, 0x6e, val),
        None => b14,
    };
    assert(apply_chunks(b14, cs14) == apply_chunks(b15, cs15));
    let cs16 = cs15.drop_first();
    assert(cs15[0] == (0x46u8, v.file));
    let b16 = match v.file {
        Some(val) => set_field(b15, 0x46, val),
        None => b15,
    };
    assert(apply_chunks(b15, cs15) == apply_chunks(b16, cs16));
    let cs17 = cs16.drop_first();
    assert(cs16[0] == (0x4cu8, v.line));
    let b17 = match v.line {
        Some(val) => set_field(b16, 0x4c, val),
        None => b16,
    };
    assert(apply_chunks(b16, cs16) == apply_chunks(b17, cs17));
    let cs18 = cs17.drop_first();
    assert(cs17[0] == (0x52u8, v.routine));
    let b18 = match v.routine {
        Some(val) => set_field(b17, 0x52, val),
        None => b17,
    };
    assert(apply_chunks(b17, cs17) == apply_chunks(b18, cs18));
    assert(cs18.len() == 0);
    assert(apply_chunks(b18, cs18) == b18);
    lemma_applied_fields(v);
    assert(b18 == applied_fields(v));

}

/// Folding the chunk list of `v` onto the fresh record rebuilds `v`.
proof fn lemma_chunk_list_apply(v: ErrorOrNoticeFieldsV)
    ensures
        apply_chunks(ErrorOrNoticeFieldsV::empty(), chunk_list(v)) == v,
{
    lemma_chunk_list_apply_a(v);
    lemma_chunk_list_apply_b(v);
}

/// Decoding an encoded field record gives it back.
#[verifier::spinoff_prover]
pub proof fn lemma_err_fields_round(s: Seq<u8>, p: int, v: ErrorOrNoticeFieldsV)
    requires
        0 <= p,
        p + sp_encode_err_fields(v).len() <= s.len(),
        s.subrange(p, p + sp_encode_err_fields(v).len()) == sp_encode_err_fields(v),
        err_fields_ok(v),
    ensures
        sp_error_fields(s, p, 0, ErrorOrNoticeFieldsV::empty()) == Taken::<
            ErrorOrNoticeFieldsV,
        >::Got(v, p + sp_encode_err_fields(v).len()),
{
    let cs = chunk_list(v);
    lemma_chunk_list_enc(v);
    assert(chunks_ok(cs));
    lemma_chunks_round(s, p, cs, 0, ErrorOrNoticeFieldsV::empty());
    lemma_chunk_list_apply(v);
}

/// Writes one optional field: its type byte and terminated value, or
/// nothing.
fn put_chunk(out: &mut Vec<u8>, t: u8, o: &Option<Vec<u8>>)
    ensures
        final(out)@ == old(out)@ + sp_chunk(t, view_opt(*o)),
{
    match o {
        Some(val) => {
            out.push(t);
            push_text(out, val);
            proof {
                assert(out@ =~= old(out)@ + sp_chunk(t, view_opt(*o)));
            }
        },
        None => {
            proof {
                assert(out@ =~= old(out)@ + sp_chunk(t, view_opt(*o)));
            }
        },
    }
}


/// Appending the field chunks one after the other appends the whole
/// encoded record.
#[verifier::rlimit(100)]
#[verifier::spinoff_prover]
proof fn lemma_err_assoc(start: Seq<u8>, v: ErrorOrNoticeFieldsV)
    ensures
        start + sp_chunk(0x53, v.localized_severity) + sp_chunk(0x56, v.severity) + sp_chunk(0x43, v.code) + sp_chunk(0x4d, v.message) + sp_chunk(0x44, v.detail) + sp_chunk(0x48, v.hint) + sp_chunk(0x50, v.position) + sp_chunk(0x70, v.internal_position) + sp_chunk(0x71, v.internal_query) + sp_chunk(0x57, v.where_) + sp_chunk(0x73, v.schema) + sp_chunk(0x74, v.table) + sp_chunk(0x63, v.column) + sp_chunk(0x64, v.data_type) + sp_chunk(0x6e, v.constraint) + sp_chunk(0x46, v.file) + sp_chunk(0x4c, v.line) + sp_chunk(0x52, v.routine) + seq![0u8] == start + sp_encode_err_fields(v),
{
    let t18: Seq<u8> = seq![0u8];
    let c17 = sp_chunk(0x52, v.routine);
    let t17 = c17 + t18;
    let c16 = sp_chunk(0x4c, v.line);
    let t16 = c16 + t17;
    let c15 = sp_chunk(0x46, v.file);
    let t15 = c15 + t16;
    let c14 = sp_chunk(0x6e, v.constraint);
    let t14 = c14 + t15;
    let c13 = sp_chunk(0x64, v.data_type);
    let t13 = c13 + t14;
    let c12 = sp_chunk(0x63, v.column);
    let t12 = c12 + t13;
    let c11 = sp_chunk(0x74, v.table);
    let t11 = c11 + t12;
    let c10 = sp_chunk(0x73, v.schema);
    let t10 = c10 + t11;
    let c9 = sp_chunk(0x57, v.where_);
    let t9 = c9 + t10;
    let c8 = sp_chunk(0x71, v.internal_query);
    let t8 = c8 + t9;
    let c7 = sp_chunk(0x70, v.internal_position);
    let t7 = c7 + t8;
    let c6 = sp_chunk(0x50, v.position);
    let t6 = c6 + t7;
    let c5 = sp_chunk(0x48, v.hint);
    let t5 = c5 + t6;
    let c4 = sp_chunk(0x44, v.detail);
    let t4 = c4 + t5;
    let c3 = sp_chunk(0x4d, v.message);
    let t3 = c3 + t4;
    let c2 = sp_chunk(0x43, v.code);
    let t2 = c2 + t3;
    let c1 = sp_chunk(0x56, v.severity);
    let t1 = c1 + t2;
    let c0 = sp_chunk(0x53, v.localized_severity);
    let t0 = c0 + t1;
    let x0 = start;
    let x1 = x0 + c0;
    let x2 = x1 + c1;
    let x3 = x2 + c2;
    let x4 = x3 + c3;
    let x5 = x4 + c4;
    let x6 = x5 + c5;
    let x7 = x6 + c6;
    let x8 = x7 + c7;
    let x9 = x8 + c8;
    let x10 = x9 + c9;
    let x11 = x10 + c10;
    let x12 = x11 + c11;
    let x13 = x12 + c12;
    let x14 = x13 + c13;
    let x15 = x14 + c14;
    let x16 = x15 + c15;
    let x17 = x16 + c16;
    let x18 = x17 + c17;
    vstd::seq_lib::lemma_concat_associative(x0, c0, t1);
    vstd::seq_lib::lemma_concat_associative(x1, c1, t2);
    vstd::seq_lib::lemma_concat_associative(x2, c2, t3);
    vstd::seq_lib::lemma_concat_associative(x3, c3, t4);
    vstd::seq_lib::lemma_concat_associative(x4, c4, t5);
    vstd::seq_lib::lemma_concat_associative(x5, c5, t6);
    vstd::seq_lib::lemma_concat_associative(x6, c6, t7);
    vstd::seq_lib::lemma_concat_associative(x7, c7, t8);
    vstd::seq_lib::lemma_concat_associative(x8, c8, t9);
    vstd::seq_lib::lemma_concat_associative(x9, c9, t10);
    vstd::seq_lib::lemma_concat_associative(x10, c10, t11);
    vstd::seq_lib::lemma_concat_associative(x11, c11, t12);
    vstd::seq_lib::lemma_concat_associative(x12, c12, t13);
    vstd::seq_lib::lemma_concat_associative(x13, c13, t14);
    vstd::seq_lib::lemma_concat_associative(x14, c14, t15);
    vstd::seq_lib::lemma_concat_associative(x15, c15, t16);
    vstd::seq_lib::lemma_concat_associative(x16, c16, t17);
    vstd::seq_lib::lemma_concat_associative(x17, c17, t18);
}

impl ErrorOrNoticeFields {
    /// Writes each present field in the documented order, then the closing
    /// zero byte.
    #[verifier::rlimit(100)]
    #[verifier::spinoff_prover]
    pub fn encode(&self, out: &mut Vec<u8>)
        ensures
            final(out)@ == old(out)@ + sp_encode_err_fields(self@),
    {
        let ghost start = out@;
        put_chunk(out, 0x53, &self.localized_severity);
        put_chunk(out, 0x56, &self.severity);
        put_chunk(out, 0x43, &self.code);
        put_chunk(out, 0x4d, &self.message);
        put_chunk(out, 0x44, &self.detail);
        put_chunk(out, 0x48, &self.hint);
        put_chunk(out, 0x50, &self.position);
        put_chunk(out, 0x70, &self.internal_position);
        put_chunk(out, 0x71, &self.internal_query);
        put_chunk(out, 0x57, &self.where_);
        put_chunk(out, 0x73, &self.schema);
        put_chunk(out, 0x74, &self.table);
        put_chunk(out, 0x63, &self.column);
        put_chunk(out, 0x64, &self.data_type);
        put_chunk(out, 0x6e, &self.constraint);
        put_chunk(out, 0x46, &self.file);
        put_chunk(out, 0x4c, &self.line);
        put_chunk(out, 0x52, &self.routine);
        out.push(0);
        proof {
            lemma_err_assoc(start, self@);
            assert(out@ =~= start + sp_chunk(0x53, self@.localized_severity) + sp_chunk(
                0x56,
                self@.severity,
            ) + sp_chunk(0x43, self@.code) + sp_chunk(0x4d, self@.message) + sp_chunk(
                0x44,
                self@.detail,
            ) + sp_chunk(0x48, self@.hint) + sp_chunk(0x50, self@.position) + sp_chunk(
                0x70,
                self@.internal_position,
            ) + sp_chunk(0x71, self@.internal_query) + sp_chunk(0x57, self@.where_) + sp_chunk(
                0x73,
                self@.schema,
            ) + sp_chunk(0x74, self@.table) + sp_chunk(0x63, self@.column) + sp_chunk(
                0x64,
                self@.data_type,
            ) + sp_chunk(0x6e, self@.constraint) + sp_chunk(0x46, self@.file) + sp_chunk(
                0x4c,
                self@.line,
            ) + sp_chunk(0x52, self@.routine) + seq![0u8]);
        }
    }
}

impl ErrorResponse {
    pub open spec fn type_byte() -> u8 {
        0x45
    }

    /// The field list of the error.
    pub open spec fn sp_decode(s: Seq<u8>, p: int) -> Taken<ErrorOrNoticeFieldsV> {
        sp_error_fields(s, p, 0, ErrorOrNoticeFieldsV::empty())
    }

    /// The field record of the message.
    pub open spec fn sp_encode(v: ErrorOrNoticeFieldsV) -> Seq<u8> {
        sp_encode_err_fields(v)
    }

    pub fn encode_body(&self) -> (r: Vec<u8>)
        ensures
            r@ == ErrorResponse::sp_encode(self@),
    {
        let mut out: Vec<u8> = Vec::new();
        self.0.encode(&mut out);
        proof {
            assert(out@ =~= ErrorResponse::sp_encode(self@));
        }
        out
    }

    /// Decoding an encoded body gives the message back.
    pub proof fn lemma_round_trip(v: ErrorOrNoticeFieldsV)
        requires
            err_fields_ok(v),
        ensures
            ErrorResponse::sp_decode(ErrorResponse::sp_encode(v), 0) == Taken::<ErrorOrNoticeFieldsV>::Got(
                v,
                ErrorResponse::sp_encode(v).len() as int,
            ),
    {
        let s = ErrorResponse::sp_encode(v);
        assert(s.subrange(0, s.len() as int) =~= s);
        lemma_err_fields_round(s, 0, v);
    }

    pub fn decode_body(bytes: &mut BytesSource) -> (r: DecodeResult<ErrorResponse>)
        requires
            old(bytes).wf(),
        ensures
            final(bytes).wf(),
            final(bytes).all() == old(bytes).all(),
            match ErrorResponse::sp_decode(old(bytes).all(), old(bytes).at()) {
                Taken::Got(v, q) => r matches Ok(m) && m@ == v && final(bytes).at() == q,
                Taken::Short(e) => r == DecodeResult::<ErrorResponse>::Err(e),
            },
    {
        match ErrorOrNoticeFields::decode(bytes) {
            Ok(fields) => Ok(ErrorResponse(fields)),
            Err(e) => Err(e),
        }
    }
}

#[derive(Clone, Debug, PartialEq, Eq)]
pub struct NoticeResponse(pub ErrorOrNoticeFields);

impl View for NoticeResponse {
    type V = ErrorOrNoticeFieldsV;

    open spec fn view(&self) -> ErrorOrNoticeFieldsV {
        self.0@
    }
}

impl NoticeResponse {
    pub open spec fn type_byte() -> u8 {
        0x4e
    }

    /// The field list of the notice.
    pub open spec fn sp_decode(s: Seq<u8>, p: int) -> Taken<ErrorOrNoticeFieldsV> {
        sp_error_fields(s, p, 0, ErrorOrNoticeFieldsV::empty())
    }

    /// The field record of the message.
    pub open spec fn sp_encode(v: ErrorOrNoticeFieldsV) -> Seq<u8> {
        sp_encode_err_fields(v)
    }

    pub fn encode_body(&self) -> (r: Vec<u8>)
        ensures
            r@ == NoticeResponse::sp_encode(self@),
    {
        let mut out: Vec<u8> = Vec::new();
        self.0.encode(&mut out);
        proof {
            assert(out@ =~= NoticeResponse::sp_encode(self@));
        }
        out
    }

    /// Decoding an encoded body gives the message back.
    pub proof fn lemma_round_trip(v: ErrorOrNoticeFieldsV)
        requires
            err_fields_ok(v),
        ensures
            NoticeResponse::sp_decode(NoticeResponse::sp_encode(v), 0) == Taken::<ErrorOrNoticeFieldsV>::Got(
                v,
                NoticeResponse::sp_encode(v).len() as int,
            ),
    {
        let s = NoticeResponse::sp_encode(v);
        assert(s.subrange(0, s.len() as int) =~= s);
        lemma_err_fields_round(s, 0, v);
    }

    pub fn decode_body(bytes: &mut BytesSource) -> (r: DecodeResult<NoticeResponse>)
        requires
            old(bytes).wf(),
        ensures
            final(bytes).wf(),
            final(bytes).all() == old(bytes).all(),
            match NoticeResponse::sp_decode(old(bytes).all(), old(bytes).at()) {
                Taken::Got(v, q) => r matches Ok(m) && m@ == v && final(bytes).at() == q,
                Taken::Short(e) => r == DecodeResult::<NoticeResponse>::Err(e),
            },
    {
        match ErrorOrNoticeFields::decode(bytes) {
            Ok(fields) => Ok(NoticeResponse(fields)),
            Err(e) => Err(e),
        }
    }
}


/// A field-type byte outside the documented set is rejected as unknown,
/// wherever in the record it arrives.
pub proof fn lemma_unknown_field_type(
    s: Seq<u8>,
    p: int,
    index: int,
    acc: ErrorOrNoticeFieldsV,
)
    requires
        0 <= p,
        p + 1 <= s.len(),
        s[p] != 0,
        !recognized_field(s[p]),
    ensures
        sp_error_fields(s, p, index, acc) == Taken::<ErrorOrNoticeFieldsV>::Short(
            Problem::Unknown(
                Unrecognized::ErrorFieldType {
                    index: #[verifier::truncate] (index as usize),
                    type_byte: s[p],
                },
            ),
        ),
{
}

} // verus!
