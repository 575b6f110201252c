//! The first frontend message, which carries no type byte: a protocol
//! `Startup`, a `CancelRequest`, or a `TLSRequest`, told apart by the two
//! `u16` words where a startup puts its version.

use vstd::prelude::*;
use crate::decode::{
    BytesSource, DecodeResult, Taken, lemma_null_at, lemma_until_null_of, sp_u16, sp_u32,
    sp_until_null,
};
use crate::encode::{
    lemma_u16_at_of, lemma_u32_at_of, no_null, push_text, push_u16_be, push_u32_be, u16_be_bytes,
    u32_be_bytes,
};
use crate::msg::parts::vec_view;

verus! {

/// A request to cancel another session's query.
#[derive(Clone, Copy, Debug, PartialEq, Eq, Structural)]
pub struct Cancel {
    pub process_id: u32,
    pub secret_key: u32,
}

/// The protocol version a startup announces.
#[derive(Clone, Copy, Debug, PartialEq, Eq, Structural)]
pub struct Version {
    pub major: u16,
    pub minor: u16,
}

/// One name/value pair of a startup message.
#[derive(Clone, Debug, PartialEq, Eq)]
pub struct StartupParam {
    pub name: Vec<u8>,
    pub value: Vec<u8>,
}

impl View for StartupParam {
    type V = (Seq<u8>, Seq<u8>);

    open spec fn view(&self) -> (Seq<u8>, Seq<u8>) {
        (self.name@, self.value@)
    }
}

impl StartupParam {
    pub fn new(name: Vec<u8>, value: Vec<u8>) -> (r: Self)
        ensures
            r@ == (name@, value@),
    {
        Self { name, value }
    }
}

#[derive(Clone, Debug, PartialEq, Eq)]
pub struct Startup {
    pub version: Version,
    pub params: Vec<StartupParam>,
}

/// The mathematical shape of a `Startup`.
pub struct StartupV {
    pub version: Version,
    pub params: Seq<(Seq<u8>, Seq<u8>)>,
}

impl View for Startup {
    type V = StartupV;

    open spec fn view(&self) -> StartupV {
        StartupV { version: self.version, params: vec_view(self.params) }
    }
}

#[derive(Clone, Debug, PartialEq, Eq)]
pub enum Initial {
    Cancel(Cancel),
    TLS,
    Startup(Startup),
}

/// The mathematical shape of an `Initial`.
pub enum InitialV {
    Cancel(Cancel),
    TLS,
    Startup(StartupV),
}

impl View for Initial {
    type V = InitialV;

    open spec fn view(&self) -> InitialV {
        match self {
            Initial::Cancel(c) => InitialV::Cancel(*c),
            Initial::TLS => InitialV::TLS,
            Initial::Startup(st) => InitialV::Startup(st@),
        }
    }
}

/// Decoding the startup parameter list: name/value pairs until an empty
/// name, which closes the list.
pub open spec fn sp_startup_params(s: Seq<u8>, p: int) -> Taken<Seq<(Seq<u8>, Seq<u8>)>>
    decreases s.len() - p,
    via sp_startup_params_dec
{
    match sp_until_null(s, p) {
        Taken::Got(name, q) => if name.len() == 0 {
            Taken::Got(Seq::empty(), q)
        } else {
            match sp_until_null(s, q) {
                Taken::Got(value, q2) => match sp_startup_params(s, q2) {
                    Taken::Got(rest, q3) => Taken::Got(seq![(name, value)] + rest, q3),
                    Taken::Short(e) => Taken::Short(e),
                },
                Taken::Short(e) => Taken::Short(e),
            }
        },
        Taken::Short(e) => Taken::Short(e),
    }
}

#[via_fn]
proof fn sp_startup_params_dec(s: Seq<u8>, p: int) {
    if 0 <= p <= s.len() {
        lemma_null_at(s, p);
        let q = null_at_next(s, p);
        if 0 <= q <= s.len() {
            lemma_null_at(s, q);
        }
    }
}

/// The position just past the first null byte at or after `p`.
spec fn null_at_next(s: Seq<u8>, p: int) -> int {
    crate::decode::null_at(s, p) + 1
}

/// Decoding the version words: `(1234, 5678)` marks a cancel request,
/// `(1234, 5679)` a TLS request, anything else is a protocol version.
pub open spec fn sp_version(s: Seq<u8>, p: int) -> Taken<Version> {
    match sp_u16(s, p) {
        Taken::Got(major, q) => match sp_u16(s, q) {
            Taken::Got(minor, r) => Taken::Got(Version { major, minor }, r),
            Taken::Short(e) => Taken::Short(e),
        },
        Taken::Short(e) => Taken::Short(e),
    }
}

/// The wire bytes of the parameter pairs, without the closing empty name.
pub open spec fn sp_encode_pairs(items: Seq<(Seq<u8>, Seq<u8>)>) -> Seq<u8>
    decreases items.len(),
{
    if items.len() == 0 {
        Seq::empty()
    } else {
        items[0].0 + seq![0u8] + items[0].1 + seq![0u8] + sp_encode_pairs(items.drop_first())
    }
}

/// The wire bytes of a startup parameter list: the pairs, then an empty
/// name closing the list.
pub open spec fn sp_encode_params(items: Seq<(Seq<u8>, Seq<u8>)>) -> Seq<u8> {
    sp_encode_pairs(items) + seq![0u8]
}

/// What lets a parameter list travel the wire unchanged: names are nonempty
/// and free of null bytes, values free of null bytes.
pub open spec fn params_ok(items: Seq<(Seq<u8>, Seq<u8>)>) -> bool {
    forall|i: int|
        0 <= i < items.len() ==> no_null(#[trigger] items[i].0) && items[i].0.len() > 0 && no_null(
            items[i].1,
        )
}

/// Decoding an encoded parameter list gives it back.
pub proof fn lemma_params_round(s: Seq<u8>, p: int, items: Seq<(Seq<u8>, Seq<u8>)>)
    requires
        0 <= p,
        p + sp_encode_params(items).len() <= s.len(),
        s.subrange(p, p + sp_encode_params(items).len()) == sp_encode_params(items),
        params_ok(items),
    ensures
        sp_startup_params(s, p) == Taken::<Seq<(Seq<u8>, Seq<u8>)>>::Got(
            items,
            p + sp_encode_params(items).len(),
        ),
    decreases items.len(),
{
    let enc = sp_encode_params(items);
    if items.len() == 0 {
        assert(enc =~= seq![0u8]);
        assert(s[p] == 0) by {
            assert(s.subrange(p, p + enc.len() as int)[0] == enc[0]);
        }
        assert(s.subrange(p, p) =~= Seq::<u8>::empty());
        lemma_until_null_of(s, p, Seq::empty());
        assert(items =~= Seq::<(Seq<u8>, Seq<u8>)>::empty());
    } else {
        let name = items[0].0;
        let value = items[0].1;
        let rest = items.drop_first();
        let enc_rest = sp_encode_params(rest);
        let n0 = name.len() as int;
        let n1 = value.len() as int;
        assert(enc == name + seq![0u8] + value + seq![0u8] + enc_rest) by {
            assert(sp_encode_pairs(items) == name + seq![0u8] + value + seq![0u8]
                + sp_encode_pairs(rest));
            assert((name + seq![0u8] + value + seq![0u8] + sp_encode_pairs(rest)) + seq![0u8]
                =~= name + seq![0u8] + value + seq![0u8] + (sp_encode_pairs(rest) + seq![0u8]));
        }
        vstd::assert_seqs_equal!(s.subrange(p, p + n0) == name, i => {
            assert(s.subrange(p, p + enc.len() as int)[i] == enc[i]);
        });
        assert(s[p + n0] == 0) by {
            assert(s.subrange(p, p + enc.len() as int)[n0] == enc[n0]);
        }
        lemma_until_null_of(s, p, name);
        let a = p + n0 + 1;
        vstd::assert_seqs_equal!(s.subrange(a, a + n1) == value, i => {
            assert(s.subrange(p, p + enc.len() as int)[n0 + 1 + i] == enc[n0 + 1 + i]);
        });
        assert(s[a + n1] == 0) by {
            assert(s.subrange(p, p + enc.len() as int)[n0 + 1 + n1] == enc[n0 + 1 + n1]);
        }
        lemma_until_null_of(s, a, value);
        let b = a + n1 + 1;
        vstd::assert_seqs_equal!(s.subrange(b, b + enc_rest.len() as int) == enc_rest, i => {
            assert(s.subrange(p, p + enc.len() as int)[n0 + n1 + 2 + i] == enc[n0 + n1 + 2 + i]);
        });
        assert(params_ok(rest)) by {
            assert(forall|i: int| 0 <= i < rest.len() ==> rest[i] == #[trigger] items[i + 1]);
        }
        lemma_params_round(s, b, rest);
        assert(seq![items[0]] + rest =~= items);
    }
}

proof fn lemma_encode_snoc_pairs(items: Seq<(Seq<u8>, Seq<u8>)>, x: (Seq<u8>, Seq<u8>))
    ensures
        sp_encode_pairs(items.push(x)) == sp_encode_pairs(items) + (x.0 + seq![0u8] + x.1
            + seq![0u8]),
    decreases items.len(),
{
    let whole = items.push(x);
    let cx = x.0 + seq![0u8] + x.1 + seq![0u8];
    if items.len() == 0 {
        assert(whole.drop_first() =~= items);
        assert(sp_encode_pairs(whole) == cx + sp_encode_pairs(items));
        assert(cx + sp_encode_pairs(items) =~= sp_encode_pairs(items) + cx);
    } else {
        assert(whole.drop_first() =~= items.drop_first().push(x));
        lemma_encode_snoc_pairs(items.drop_first(), x);
        let a = items[0].0 + seq![0u8] + items[0].1 + seq![0u8];
        let b = sp_encode_pairs(items.drop_first());
        assert(sp_encode_pairs(whole) == a + (b + cx));
        assert(sp_encode_pairs(items) == a + b);
        assert(a + (b + cx) =~= (a + b) + cx);
    }
}

proof fn lemma_encode_take_step_pairs(items: Seq<(Seq<u8>, Seq<u8>)>, i: int)
    requires
        0 < i <= items.len(),
    ensures
        sp_encode_pairs(items.take(i)) == sp_encode_pairs(items.take(i - 1)) + (items[i - 1].0
            + seq![0u8] + items[i - 1].1 + seq![0u8]),
    decreases i,
{
    lemma_encode_snoc_pairs(items.take(i - 1), items[i - 1]);
    assert(items.take(i - 1).push(items[i - 1]) =~= items.take(i));
}

/// Encodes the parameter pairs, then the closing empty name.
fn encode_params(items: &Vec<StartupParam>, out: &mut Vec<u8>)
    ensures
        final(out)@ == old(out)@ + sp_encode_params(vec_view(*items)),
{
    let n = items.len();
    let mut i: usize = 0;
    while i < n
        invariant
            i <= n,
            n == items@.len(),
            vec_view(*items).len() == n,
            forall|j: int| 0 <= j < n ==> items@[j]@ == #[trigger] vec_view(*items)[j],
            out@ == old(out)@ + sp_encode_pairs(vec_view(*items).take(i as int)),
        decreases n - i,
    {
        let item = &items[i];
        proof {
            assert(item@ == vec_view(*items)[i as int]);
        }
        push_text(out, &item.name);
        push_text(out, &item.value);
        i = i + 1;
        proof {
            lemma_encode_take_step_pairs(vec_view(*items), i as int);
            assert(out@ =~= old(out)@ + sp_encode_pairs(vec_view(*items).take(i as int)));
        }
    }
    out.push(0);
    proof {
        assert(vec_view(*items).take(n as int) =~= vec_view(*items));
        assert(out@ =~= old(out)@ + sp_encode_params(vec_view(*items)));
    }
}

impl Initial {
    /// The version words select the kind; a cancel request carries two
    /// `u32` words, a TLS request nothing, and a startup its parameters.
    pub open spec fn sp_decode(s: Seq<u8>, p: int) -> Taken<InitialV> {
        match sp_version(s, p) {
            Taken::Got(version, q) => if version == (Version { major: 1234, minor: 5678 }) {
                match sp_u32(s, q) {
                    Taken::Got(process_id, q2) => match sp_u32(s, q2) {
                        Taken::Got(secret_key, q3) => Taken::Got(
                            InitialV::Cancel(Cancel { process_id, secret_key }),
                            q3,
                        ),
                        Taken::Short(e) => Taken::Short(e),
                    },
                    Taken::Short(e) => Taken::Short(e),
                }
            } else if version == (Version { major: 1234, minor: 5679 }) {
                Taken::Got(InitialV::TLS, q)
            } else {
                match sp_startup_params(s, q) {
                    Taken::Got(params, q2) => Taken::Got(
                        InitialV::Startup(StartupV { version, params }),
                        q2,
                    ),
                    Taken::Short(e) => Taken::Short(e),
                }
            },
            Taken::Short(e) => Taken::Short(e),
        }
    }

    /// The version words, then the variant's payload.
    pub open spec fn sp_encode(v: InitialV) -> Seq<u8> {
        match v {
            InitialV::Cancel(c) => u16_be_bytes(1234) + u16_be_bytes(5678) + u32_be_bytes(
                c.process_id,
            ) + u32_be_bytes(c.secret_key),
            InitialV::TLS => u16_be_bytes(1234) + u16_be_bytes(5679),
            InitialV::Startup(st) => u16_be_bytes(st.version.major) + u16_be_bytes(
                st.version.minor,
            ) + sp_encode_params(st.params),
        }
    }

    /// What lets an `Initial` travel the wire unchanged: a startup must not
    /// announce the version words reserved for cancel and TLS requests, and
    /// its parameters must survive their null terminators.
    pub open spec fn wire_ok(v: InitialV) -> bool {
        match v {
            InitialV::Startup(st) => !(st.version.major == 1234 && (st.version.minor == 5678
                || st.version.minor == 5679)) && params_ok(st.params),
            _ => true,
        }
    }

    pub fn encode_body(&self) -> (r: Vec<u8>)
        ensures
            r@ == Initial::sp_encode(self@),
    {
        let mut out: Vec<u8> = Vec::new();
        match self {
            Initial::Cancel(c) => {
                push_u16_be(&mut out, 1234);
                push_u16_be(&mut out, 5678);
                push_u32_be(&mut out, c.process_id);
                push_u32_be(&mut out, c.secret_key);
            },
            Initial::TLS => {
                push_u16_be(&mut out, 1234);
                push_u16_be(&mut out, 5679);
            },
            Initial::Startup(st) => {
                push_u16_be(&mut out, st.version.major);
                push_u16_be(&mut out, st.version.minor);
                encode_params(&st.params, &mut out);
            },
        }
        proof {
            assert(out@ =~= Initial::sp_encode(self@));
        }
        out
    }

    /// Decoding an encoded body gives the message back.
    pub proof fn lemma_round_trip(v: InitialV)
        requires
            Initial::wire_ok(v),
        ensures
            Initial::sp_decode(Initial::sp_encode(v), 0) == Taken::<InitialV>::Got(
                v,
                Initial::sp_encode(v).len() as int,
            ),
    {
        let s = Initial::sp_encode(v);
        match v {
            InitialV::Cancel(c) => {
                assert(s.subrange(0, 2) =~= u16_be_bytes(1234));
                lemma_u16_at_of(s, 0, 1234);
                assert(s.subrange(2, 4) =~= u16_be_bytes(5678));
                lemma_u16_at_of(s, 2, 5678);
                assert(s.subrange(4, 8) =~= u32_be_bytes(c.process_id));
                lemma_u32_at_of(s, 4, c.process_id);
                assert(s.subrange(8, 12) =~= u32_be_bytes(c.secret_key));
                lemma_u32_at_of(s, 8, c.secret_key);
            },
            InitialV::TLS => {
                assert(s.subrange(0, 2) =~= u16_be_bytes(1234));
                lemma_u16_at_of(s, 0, 1234);
                assert(s.subrange(2, 4) =~= u16_be_bytes(5679));
                lemma_u16_at_of(s, 2, 5679);
            },
            InitialV::Startup(st) => {
                let enc = sp_encode_params(st.params);
                vstd::assert_seqs_equal!(s.subrange(0, 2) == u16_be_bytes(st.version.major), i => {
                    assert(s[i] == (u16_be_bytes(st.version.major) + u16_be_bytes(st.version.minor)
                        + enc)[i]);
                });
                lemma_u16_at_of(s, 0, st.version.major);
                vstd::assert_seqs_equal!(s.subrange(2, 4) == u16_be_bytes(st.version.minor), i => {
                    assert(s[2 + i] == (u16_be_bytes(st.version.major) + u16_be_bytes(
                        st.version.minor,
                    ) + enc)[2 + i]);
                });
                lemma_u16_at_of(s, 2, st.version.minor);
                vstd::assert_seqs_equal!(s.subrange(4, 4 + enc.len() as int) == enc, i => {
                    assert(s[4 + i] == (u16_be_bytes(st.version.major) + u16_be_bytes(
                        st.version.minor,
                    ) + enc)[4 + i]);
                });
                lemma_params_round(s, 4, st.params);
            },
        }
    }

    pub fn decode_body(bytes: &mut BytesSource) -> (r: DecodeResult<Initial>)
        requires
            old(bytes).wf(),
        ensures
            final(bytes).wf(),
            final(bytes).all() == old(bytes).all(),
            match Initial::sp_decode(old(bytes).all(), old(bytes).at()) {
                Taken::Got(v, q) => r matches Ok(m) && m@ == v && final(bytes).at() == q,
                Taken::Short(e) => r == DecodeResult::<Initial>::Err(e),
            },
    {
        let major = match bytes.take_u16() {
            Ok(x) => x,
            Err(e) => { return Err(e); },
        };
        let minor = match bytes.take_u16() {
            Ok(x) => x,
            Err(e) => { return Err(e); },
        };
        let version = Version { major, minor };
        if major == 1234 && minor == 5678 {
            let process_id = match bytes.take_u32() {
                Ok(x) => x,
                Err(e) => { return Err(e); },
            };
            let secret_key = match bytes.take_u32() {
                Ok(x) => x,
                Err(e) => { return Err(e); },
            };
            Ok(Initial::Cancel(Cancel { process_id, secret_key }))
        } else if major == 1234 && minor == 5679 {
            Ok(Initial::TLS)
        } else {
            let params = match decode_startup_params(bytes) {
                Ok(x) => x,
                Err(e) => { return Err(e); },
            };
            Ok(Initial::Startup(Startup { version, params }))
        }
    }
}

/// Reads the startup parameter list, which an empty name closes.
fn decode_startup_params(bytes: &mut BytesSource) -> (r: DecodeResult<Vec<StartupParam>>)
    requires
        old(bytes).wf(),
    ensures
        final(bytes).wf(),
        final(bytes).all() == old(bytes).all(),
        match sp_startup_params(old(bytes).all(), old(bytes).at()) {
            Taken::Got(v, q) => r matches Ok(params) && vec_view(params) == v && final(bytes).at()
                == q,
            Taken::Short(e) => r == DecodeResult::<Vec<StartupParam>>::Err(e),
        },
{
    let ghost s = old(bytes).all();
    let ghost p0 = old(bytes).at();
    let mut params: Vec<StartupParam> = Vec::new();
    let mut done = false;
    while !done
        invariant
            s == old(bytes).all(),
            p0 == old(bytes).at(),
            bytes.wf(),
            bytes.all() == s,
            !done ==> match sp_startup_params(s, bytes.at()) {
                Taken::Got(rest, q) => sp_startup_params(s, p0) == Taken::Got(
                    vec_view(params) + rest,
                    q,
                ),
                Taken::Short(e) => sp_startup_params(s, p0) == Taken::<
                    Seq<(Seq<u8>, Seq<u8>)>,
                >::Short(e),
            },
            done ==> sp_startup_params(s, p0) == Taken::Got(vec_view(params), bytes.at()),
        decreases s.len() - bytes.at() + (if done { 0int } else { 1int }),
    {
        let ghost pi = bytes.at();
        proof {
            lemma_null_at(s, pi);
        }
        let name = match bytes.take_until_null() {
            Ok(x) => x,
            Err(e) => {
                return Err(e);
            },
        };
        if name.len() == 0 {
            done = true;
            proof {
                assert(vec_view(params) + Seq::<(Seq<u8>, Seq<u8>)>::empty() =~= vec_view(params));
            }
        } else {
            proof {
                lemma_null_at(s, bytes.at());
            }
            let value = match bytes.take_until_null() {
                Ok(x) => x,
                Err(e) => {
                    return Err(e);
                },
            };
            let ghost prev = vec_view(params);
            let ghost pair = (name@, value@);
            params.push(StartupParam { name, value });
            proof {
                assert(vec_view(params) =~= prev.push(pair));
                match sp_startup_params(s, bytes.at()) {
                    Taken::Got(rest, q) => {
                        assert(prev + (seq![pair] + rest) =~= vec_view(params) + rest);
                    },
                    Taken::Short(e) => {},
                }
            }
        }
    }
    Ok(params)
}

} // verus!
