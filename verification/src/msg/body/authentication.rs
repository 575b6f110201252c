//! The `Authentication` message family: the backend's challenges and its
//! final verdict, selected by an opening `u32` sub-type.

use vstd::prelude::*;
use crate::decode::{
    BytesSource, DecodeResult, Problem, Taken, Unrecognized, lemma_null_at, lemma_until_null_of,
    null_at, sp_take, sp_u32, sp_until_null,
};
use crate::encode::{
    lemma_u32_at_of, no_null, push_bytes, push_text, push_u32_be, u32_be_bytes,
};
use crate::msg::parts::{lemma_encode_take_step_texts, sp_encode_texts, vec_view};

verus! {

#[derive(Clone, Debug, PartialEq, Eq)]
pub enum Authentication {
    CleartextPassword,
    Gss,
    GssContinue { auth_data: Vec<u8> },
    KerberosV5,
    Md5Password { salt: [u8; 4] },
    Okay,
    Sasl { auth_mechanisms: Vec<Vec<u8>> },
    SaslContinue { challenge_data: Vec<u8> },
    SaslFinal { additional_data: Vec<u8> },
    ScmCredential,
    Sspi,
}

/// The mathematical shape of an `Authentication`.
pub enum AuthenticationV {
    CleartextPassword,
    Gss,
    GssContinue { auth_data: Seq<u8> },
    KerberosV5,
    Md5Password { salt: Seq<u8> },
    Okay,
    Sasl { auth_mechanisms: Seq<Seq<u8>> },
    SaslContinue { challenge_data: Seq<u8> },
    SaslFinal { additional_data: Seq<u8> },
    ScmCredential,
    Sspi,
}

impl View for Authentication {
    type V = AuthenticationV;

    open spec fn view(&self) -> AuthenticationV {
        match self {
            Authentication::CleartextPassword => AuthenticationV::CleartextPassword,
            Authentication::Gss => AuthenticationV::Gss,
            Authentication::GssContinue { auth_data } => AuthenticationV::GssContinue {
                auth_data: auth_data@,
            },
            Authentication::KerberosV5 => AuthenticationV::KerberosV5,
            Authentication::Md5Password { salt } => AuthenticationV::Md5Password { salt: salt@ },
            Authentication::Okay => AuthenticationV::Okay,
            Authentication::Sasl { auth_mechanisms } => AuthenticationV::Sasl {
                auth_mechanisms: vec_view(*auth_mechanisms),
            },
            Authentication::SaslContinue { challenge_data } => AuthenticationV::SaslContinue {
                challenge_data: challenge_data@,
            },
            Authentication::SaslFinal { additional_data } => AuthenticationV::SaslFinal {
                additional_data: additional_data@,
            },
            Authentication::ScmCredential => AuthenticationV::ScmCredential,
            Authentication::Sspi => AuthenticationV::Sspi,
        }
    }
}

/// Decoding the SASL mechanism list: null-terminated names until an empty
/// one, which closes the list.
pub open spec fn sp_sasl_mechanisms(s: Seq<u8>, p: int) -> Taken<Seq<Seq<u8>>>
    decreases s.len() - p,
    via sp_sasl_mechanisms_dec
{
    match sp_until_null(s, p) {
        Taken::Got(mech, q) => if mech.len() == 0 {
            Taken::Got(Seq::empty(), q)
        } else {
            match sp_sasl_mechanisms(s, q) {
                Taken::Got(vs, r) => Taken::Got(seq![mech] + vs, r),
                Taken::Short(e) => Taken::Short(e),
            }
        },
        Taken::Short(e) => Taken::Short(e),
    }
}

#[via_fn]
proof fn sp_sasl_mechanisms_dec(s: Seq<u8>, p: int) {
    if 0 <= p <= s.len() {
        lemma_null_at(s, p);
    }
}

/// The wire bytes of a SASL mechanism list: each name with its terminator,
/// then an empty name closing the list.
pub open spec fn sp_encode_mechanisms(items: Seq<Seq<u8>>) -> Seq<u8> {
    sp_encode_texts(items) + seq![0u8]
}

/// What lets a mechanism list travel the wire unchanged: names are nonempty
/// and hold no null byte.
pub open spec fn mechanisms_ok(items: Seq<Seq<u8>>) -> bool {
    forall|i: int|
        0 <= i < items.len() ==> no_null(#[trigger] items[i]) && items[i].len() > 0
}

/// Decoding an encoded mechanism list gives it back.
pub proof fn lemma_mechanisms_round(s: Seq<u8>, p: int, items: Seq<Seq<u8>>)
    requires
        0 <= p,
        p + sp_encode_mechanisms(items).len() <= s.len(),
        s.subrange(p, p + sp_encode_mechanisms(items).len()) == sp_encode_mechanisms(items),
        mechanisms_ok(items),
    ensures
        sp_sasl_mechanisms(s, p) == Taken::<Seq<Seq<u8>>>::Got(
            items,
            p + sp_encode_mechanisms(items).len(),
        ),
    decreases items.len(),
{
    let enc = sp_encode_mechanisms(items);
    if items.len() == 0 {
        assert(enc =~= seq![0u8]);
        assert(s[p] == 0) by {
            assert(s.subrange(p, p + enc.len() as int)[0] == enc[0]);
        }
        assert(s.subrange(p, p) =~= Seq::<u8>::empty());
        lemma_until_null_of(s, p, Seq::empty());
        assert(items =~= Seq::<Seq<u8>>::empty());
    } else {
        let head = items[0];
        let rest = items.drop_first();
        let enc_rest = sp_encode_mechanisms(rest);
        assert(enc == head + seq![0u8] + enc_rest) by {
            assert(sp_encode_texts(items) == head + seq![0u8] + sp_encode_texts(rest));
            assert((head + seq![0u8] + sp_encode_texts(rest)) + seq![0u8] =~= head + seq![0u8] + (
            sp_encode_texts(rest) + seq![0u8]));
        }
        vstd::assert_seqs_equal!(s.subrange(p, p + head.len() as int) == head, i => {
            assert(s.subrange(p, p + enc.len() as int)[i] == enc[i]);
        });
        assert(s[p + head.len()] == 0) by {
            assert(s.subrange(p, p + enc.len() as int)[head.len() as int] == enc[head.len() as int]);
        }
        lemma_until_null_of(s, p, head);
        let a = p + head.len() + 1;
        vstd::assert_seqs_equal!(s.subrange(a, a + enc_rest.len() as int) == enc_rest, i => {
            assert(s.subrange(p, p + enc.len() as int)[head.len() + 1 + i] == enc[head.len() + 1
                + i]);
        });
        assert(mechanisms_ok(rest)) by {
            assert(forall|i: int| 0 <= i < rest.len() ==> rest[i] == #[trigger] items[i + 1]);
        }
        lemma_mechanisms_round(s, a, rest);
        assert(seq![items[0]] + rest =~= items);
    }
}

impl Authentication {
    pub open spec fn type_byte() -> u8 {
        0x52
    }

    /// The opening `u32` selects the variant; unknown sub-types are
    /// surfaced as such.
    pub open spec fn sp_decode(s: Seq<u8>, p: int) -> Taken<AuthenticationV> {
        match sp_u32(s, p) {
            Taken::Got(sub_type, q) => if sub_type == 0 {
                Taken::Got(AuthenticationV::Okay, q)
            } else if sub_type == 2 {
                Taken::Got(AuthenticationV::KerberosV5, q)
            } else if sub_type == 3 {
                Taken::Got(AuthenticationV::CleartextPassword, q)
            } else if sub_type == 5 {
                match sp_take(s, q, 4) {
                    Taken::Got(salt, r) => Taken::Got(AuthenticationV::Md5Password { salt }, r),
                    Taken::Short(e) => Taken::Short(e),
                }
            } else if sub_type == 6 {
                Taken::Got(AuthenticationV::ScmCredential, q)
            } else if sub_type == 7 {
                Taken::Got(AuthenticationV::Gss, q)
            } else if sub_type == 8 {
                Taken::Got(
                    AuthenticationV::GssContinue { auth_data: s.subrange(q, s.len() as int) },
                    s.len() as int,
                )
            } else if sub_type == 9 {
                Taken::Got(AuthenticationV::Sspi, q)
            } else if sub_type == 10 {
                match sp_sasl_mechanisms(s, q) {
                    Taken::Got(auth_mechanisms, r) => Taken::Got(
                        AuthenticationV::Sasl { auth_mechanisms },
                        r,
                    ),
                    Taken::Short(e) => Taken::Short(e),
                }
            } else if sub_type == 11 {
                Taken::Got(
                    AuthenticationV::SaslContinue {
                        challenge_data: s.subrange(q, s.len() as int),
                    },
                    s.len() as int,
                )
            } else if sub_type == 12 {
                Taken::Got(
                    AuthenticationV::SaslFinal {
                        additional_data: s.subrange(q, s.len() as int),
                    },
                    s.len() as int,
                )
            } else {
                Taken::Short(Problem::Unknown(Unrecognized::AuthSubType(sub_type)))
            },
            Taken::Short(e) => Taken::Short(e),
        }
    }

    /// The sub-type word, then the variant's payload.
    pub open spec fn sp_encode(v: AuthenticationV) -> Seq<u8> {
        match v {
            AuthenticationV::Okay => u32_be_bytes(0),
            AuthenticationV::KerberosV5 => u32_be_bytes(2),
            AuthenticationV::CleartextPassword => u32_be_bytes(3),
            AuthenticationV::Md5Password { salt } => u32_be_bytes(5) + salt,
            AuthenticationV::ScmCredential => u32_be_bytes(6),
            AuthenticationV::Gss => u32_be_bytes(7),
            AuthenticationV::GssContinue { auth_data } => u32_be_bytes(8) + auth_data,
            AuthenticationV::Sspi => u32_be_bytes(9),
            AuthenticationV::Sasl { auth_mechanisms } => u32_be_bytes(10) + sp_encode_mechanisms(
                auth_mechanisms,
            ),
            AuthenticationV::SaslContinue { challenge_data } => u32_be_bytes(11) + challenge_data,
            AuthenticationV::SaslFinal { additional_data } => u32_be_bytes(12) + additional_data,
        }
    }

    /// What lets an `Authentication` travel the wire unchanged.
    pub open spec fn wire_ok(v: AuthenticationV) -> bool {
        match v {
            AuthenticationV::Md5Password { salt } => salt.len() == 4,
            AuthenticationV::Sasl { auth_mechanisms } => mechanisms_ok(auth_mechanisms),
            _ => true,
        }
    }

    pub fn encode_body(&self) -> (r: Vec<u8>)
        ensures
            r@ == Authentication::sp_encode(self@),
    {
        let mut out: Vec<u8> = Vec::new();
        match self {
            Authentication::Okay => push_u32_be(&mut out, 0),
            Authentication::KerberosV5 => push_u32_be(&mut out, 2),
            Authentication::CleartextPassword => push_u32_be(&mut out, 3),
            Authentication::Md5Password { salt } => {
                push_u32_be(&mut out, 5);
                out.push(salt[0]);
                out.push(salt[1]);
                out.push(salt[2]);
                out.push(salt[3]);
            },
            Authentication::ScmCredential => push_u32_be(&mut out, 6),
            Authentication::Gss => push_u32_be(&mut out, 7),
            Authentication::GssContinue { auth_data } => {
                push_u32_be(&mut out, 8);
                push_bytes(&mut out, auth_data);
            },
            Authentication::Sspi => push_u32_be(&mut out, 9),
            Authentication::Sasl { auth_mechanisms } => {
                push_u32_be(&mut out, 10);
                encode_mechanisms(auth_mechanisms, &mut out);
            },
            Authentication::SaslContinue { challenge_data } => {
                push_u32_be(&mut out, 11);
                push_bytes(&mut out, challenge_data);
            },
            Authentication::SaslFinal { additional_data } => {
                push_u32_be(&mut out, 12);
                push_bytes(&mut out, additional_data);
            },
        }
        proof {
            assert(out@ =~= Authentication::sp_encode(self@));
        }
        out
    }

    /// Decoding an encoded body gives the message back.
    pub proof fn lemma_round_trip(v: AuthenticationV)
        requires
            Authentication::wire_ok(v),
        ensures
            Authentication::sp_decode(Authentication::sp_encode(v), 0) == Taken::<
                AuthenticationV,
            >::Got(v, Authentication::sp_encode(v).len() as int),
    {
        let s = Authentication::sp_encode(v);
        match v {
            AuthenticationV::Okay => {
                assert(s.subrange(0, 4) =~= u32_be_bytes(0));
                lemma_u32_at_of(s, 0, 0);
            },
            AuthenticationV::KerberosV5 => {
                assert(s.subrange(0, 4) =~= u32_be_bytes(2));
                lemma_u32_at_of(s, 0, 2);
            },
            AuthenticationV::CleartextPassword => {
                assert(s.subrange(0, 4) =~= u32_be_bytes(3));
                lemma_u32_at_of(s, 0, 3);
            },
            AuthenticationV::Md5Password { salt } => {
                assert(s.subrange(0, 4) =~= u32_be_bytes(5));
                lemma_u32_at_of(s, 0, 5);
                assert(s.subrange(4, 8) =~= salt);
            },
            AuthenticationV::ScmCredential => {
                assert(s.subrange(0, 4) =~= u32_be_bytes(6));
                lemma_u32_at_of(s, 0, 6);
            },
            AuthenticationV::Gss => {
                assert(s.subrange(0, 4) =~= u32_be_bytes(7));
                lemma_u32_at_of(s, 0, 7);
            },
            AuthenticationV::GssContinue { auth_data } => {
                assert(s.subrange(0, 4) =~= u32_be_bytes(8));
                lemma_u32_at_of(s, 0, 8);
                assert(s.subrange(4, s.len() as int) =~= auth_data);
            },
            AuthenticationV::Sspi => {
                assert(s.subrange(0, 4) =~= u32_be_bytes(9));
                lemma_u32_at_of(s, 0, 9);
            },
            AuthenticationV::Sasl { auth_mechanisms } => {
                let enc = sp_encode_mechanisms(auth_mechanisms);
                vstd::assert_seqs_equal!(s.subrange(0, 4) == u32_be_bytes(10), i => {
                    assert(s[i] == (u32_be_bytes(10) + enc)[i]);
                });
                lemma_u32_at_of(s, 0, 10);
                vstd::assert_seqs_equal!(s.subrange(4, 4 + enc.len() as int) == enc, i => {
                    assert(s[4 + i] == (u32_be_bytes(10) + enc)[4 + i]);
                });
                lemma_mechanisms_round(s, 4, auth_mechanisms);
            },
            AuthenticationV::SaslContinue { challenge_data } => {
                assert(s.subrange(0, 4) =~= u32_be_bytes(11));
                lemma_u32_at_of(s, 0, 11);
                assert(s.subrange(4, s.len() as int) =~= challenge_data);
            },
            AuthenticationV::SaslFinal { additional_data } => {
                assert(s.subrange(0, 4) =~= u32_be_bytes(12));
                lemma_u32_at_of(s, 0, 12);
                assert(s.subrange(4, s.len() as int) =~= additional_data);
            },
        }
    }

    pub fn decode_body(bytes: &mut BytesSource) -> (r: DecodeResult<Authentication>)
        requires
            old(bytes).wf(),
        ensures
            final(bytes).wf(),
            final(bytes).all() == old(bytes).all(),
            match Authentication::sp_decode(old(bytes).all(), old(bytes).at()) {
                Taken::Got(v, q) => r matches Ok(m) && m@ == v && final(bytes).at() == q,
                Taken::Short(e) => r == DecodeResult::<Authentication>::Err(e),
            },
    {
        let sub_type = match bytes.take_u32() {
            Ok(x) => x,
            Err(e) => { return Err(e); },
        };
        match sub_type {
            0 => Ok(Authentication::Okay),
            2 => Ok(Authentication::KerberosV5),
            3 => Ok(Authentication::CleartextPassword),
            5 => decode_md5_password(bytes),
            6 => Ok(Authentication::ScmCredential),
            7 => Ok(Authentication::Gss),
            8 => {
                let n = bytes.left();
                match bytes.take_vec(n) {
                    Ok(auth_data) => Ok(Authentication::GssContinue { auth_data }),
                    Err(e) => Err(e),
                }
            },
            9 => Ok(Authentication::Sspi),
            10 => decode_sasl(bytes),
            11 => {
                let n = bytes.left();
                match bytes.take_vec(n) {
                    Ok(challenge_data) => Ok(Authentication::SaslContinue { challenge_data }),
                    Err(e) => Err(e),
                }
            },
            12 => {
                let n = bytes.left();
                match bytes.take_vec(n) {
                    Ok(additional_data) => Ok(Authentication::SaslFinal { additional_data }),
                    Err(e) => Err(e),
                }
            },
            _ => Err(Problem::Unknown(Unrecognized::AuthSubType(sub_type))),
        }
    }
}

/// Reads the four-byte salt of an MD5 challenge.
fn decode_md5_password(bytes: &mut BytesSource) -> (r: DecodeResult<Authentication>)
    requires
        old(bytes).wf(),
    ensures
        final(bytes).wf(),
        final(bytes).all() == old(bytes).all(),
        match sp_take(old(bytes).all(), old(bytes).at(), 4) {
            Taken::Got(salt, q) => r matches Ok(m) && m@ == (AuthenticationV::Md5Password { salt })
                && final(bytes).at() == q,
            Taken::Short(e) => r == DecodeResult::<Authentication>::Err(e),
        },
{
    let taken = match bytes.take_vec(4) {
        Ok(x) => x,
        Err(e) => { return Err(e); },
    };
    let salt = [taken[0], taken[1], taken[2], taken[3]];
    proof {
        assert(salt@ =~= taken@);
    }
    Ok(Authentication::Md5Password { salt })
}

/// Reads the SASL mechanism list, which an empty name closes.
fn decode_sasl(bytes: &mut BytesSource) -> (r: DecodeResult<Authentication>)
    requires
        old(bytes).wf(),
    ensures
        final(bytes).wf(),
        final(bytes).all() == old(bytes).all(),
        match sp_sasl_mechanisms(old(bytes).all(), old(bytes).at()) {
            Taken::Got(v, q) => r matches Ok(m) && m@ == (AuthenticationV::Sasl {
                auth_mechanisms: v,
            }) && final(bytes).at() == q,
            Taken::Short(e) => r == DecodeResult::<Authentication>::Err(e),
        },
{
    let ghost s = old(bytes).all();
    let ghost p0 = old(bytes).at();
    let mut auth_mechanisms: Vec<Vec<u8>> = Vec::new();
    let mut done = false;
    while !done
        invariant
            s == old(bytes).all(),
            p0 == old(bytes).at(),
            bytes.wf(),
            bytes.all() == s,
            !done ==> match sp_sasl_mechanisms(s, bytes.at()) {
                Taken::Got(rest, q) => sp_sasl_mechanisms(s, p0) == Taken::Got(
                    vec_view(auth_mechanisms) + rest,
                    q,
                ),
                Taken::Short(e) => sp_sasl_mechanisms(s, p0) == Taken::<Seq<Seq<u8>>>::Short(e),
            },
            done ==> sp_sasl_mechanisms(s, p0) == Taken::Got(
                vec_view(auth_mechanisms),
                bytes.at(),
            ),
        decreases s.len() - bytes.at() + (if done { 0int } else { 1int }),
    {
        let ghost pi = bytes.at();
        proof {
            lemma_null_at(s, pi);
        }
        let mech = match bytes.take_until_null() {
            Ok(x) => x,
            Err(e) => {
                return Err(e);
            },
        };
        if mech.len() == 0 {
            done = true;
            proof {
                assert(vec_view(auth_mechanisms) + Seq::<Seq<u8>>::empty() =~= vec_view(
                    auth_mechanisms,
                ));
            }
        } else {
            let ghost prev = vec_view(auth_mechanisms);
            auth_mechanisms.push(mech);
            proof {
                assert(vec_view(auth_mechanisms) =~= prev.push(auth_mechanisms@.last()@));
                match sp_sasl_mechanisms(s, bytes.at()) {
                    Taken::Got(rest, q) => {
                        assert(prev + (seq![auth_mechanisms@.last()@] + rest) =~= vec_view(
                            auth_mechanisms,
                        ) + rest);
                    },
                    Taken::Short(e) => {},
                }
            }
        }
    }
    Ok(Authentication::Sasl { auth_mechanisms })
}


/// Encodes the mechanism names, each with its terminator, then the closing
/// empty name.
fn encode_mechanisms(items: &Vec<Vec<u8>>, out: &mut Vec<u8>)
    ensures
        final(out)@ == old(out)@ + sp_encode_mechanisms(vec_view(*items)),
{
    let n = items.len();
    let mut i: usize = 0;
    while i < n
        invariant
            i <= n,
            n == items@.len(),
            vec_view(*items).len() == n,
            forall|j: int| 0 <= j < n ==> items@[j]@ == #[trigger] vec_view(*items)[j],
            out@ == old(out)@ + sp_encode_texts(vec_view(*items).take(i as int)),
        decreases n - i,
    {
        let item = &items[i];
        push_text(out, item);
        i = i + 1;
        proof {
            lemma_encode_take_step_texts(vec_view(*items), i as int);
        }
    }
    out.push(0);
    proof {
        assert(vec_view(*items).take(n as int) =~= vec_view(*items));
        assert(out@ =~= old(out)@ + sp_encode_mechanisms(vec_view(*items)));
    }
}


/// An authentication sub-type outside the documented set is rejected as
/// unknown, whatever else the bytes hold.
pub proof fn lemma_auth_unknown_sub_type(s: Seq<u8>, p: int)
    requires
        0 <= p,
        p + 4 <= s.len(),
        !(crate::decode::be32_at(s, p) == 0 || crate::decode::be32_at(s, p) == 2
            || crate::decode::be32_at(s, p) == 3 || crate::decode::be32_at(s, p) == 5
            || crate::decode::be32_at(s, p) == 6 || crate::decode::be32_at(s, p) == 7
            || crate::decode::be32_at(s, p) == 8 || crate::decode::be32_at(s, p) == 9
            || crate::decode::be32_at(s, p) == 10 || crate::decode::be32_at(s, p) == 11
            || crate::decode::be32_at(s, p) == 12),
    ensures
        Authentication::sp_decode(s, p) == Taken::<AuthenticationV>::Short(
            Problem::Unknown(Unrecognized::AuthSubType(crate::decode::be32_at(s, p))),
        ),
{
}

} // verus!
