use vstd::prelude::*;

use crate::jsontext::{esc, unesc, escape_into, parse_string, QUOTE, lemma_unesc_esc};

verus! {

/// The mathematical content of an attestation message: the three byte strings
/// that cross the wire.
pub ghost struct AttView {
    pub issuer: Seq<u8>,
    pub payload: Seq<u8>,
    pub signature_b64: Seq<u8>,
}

pub const RBRACE: u8 = 0x7d;

/// `{"issuer":"`
pub open spec fn lit_obj1() -> Seq<u8> {
    seq![0x7bu8, 0x22, 0x69, 0x73, 0x73, 0x75, 0x65, 0x72, 0x22, 0x3a, 0x22]
}

/// `,"payload":"`
pub open spec fn lit_obj2() -> Seq<u8> {
    seq![0x2cu8, 0x22, 0x70, 0x61, 0x79, 0x6c, 0x6f, 0x61, 0x64, 0x22, 0x3a, 0x22]
}

/// `,"signature":"`
pub open spec fn lit_obj3() -> Seq<u8> {
    seq![0x2cu8, 0x22, 0x73, 0x69, 0x67, 0x6e, 0x61, 0x74, 0x75, 0x72, 0x65, 0x22, 0x3a, 0x22]
}

/// A string body together with its closing quote.
pub open spec fn str_part(s: Seq<u8>) -> Seq<u8> {
    esc(s) + seq![QUOTE]
}

/// The serialized form of an attestation message: a JSON object with the
/// fields `issuer`, `payload` and `signature`, in that order.
pub open spec fn enc_att(v: AttView) -> Seq<u8> {
    lit_obj1() + (str_part(v.issuer) + (lit_obj2() + (str_part(v.payload) + (lit_obj3() + (
    str_part(v.signature_b64) + seq![RBRACE])))))
}

/// What deserializing `s` yields: the attestation message it spells, if any.
pub open spec fn dec_att(s: Seq<u8>) -> Option<AttView> {
    if s.len() < 11 || s.take(11) != lit_obj1() {
        None
    } else {
        match unesc(s.skip(11)) {
            None => None,
            Some((iss, n1)) => {
                let s2 = s.skip(11 + n1 as int);
                if s2.len() < 12 || s2.take(12) != lit_obj2() {
                    None
                } else {
                    match unesc(s2.skip(12)) {
                        None => None,
                        Some((pay, n2)) => {
                            let s3 = s2.skip(12 + n2 as int);
                            if s3.len() < 14 || s3.take(14) != lit_obj3() {
                                None
                            } else {
                                match unesc(s3.skip(14)) {
                                    None => None,
                                    Some((sig, n3)) => {
                                        let s4 = s3.skip(14 + n3 as int);
                                        if s4.len() == 1 && s4[0] == RBRACE {
                                            Some(
                                                AttView {
                                                    issuer: iss,
                                                    payload: pay,
                                                    signature_b64: sig,
                                                },
                                            )
                                        } else {
                                            None
                                        }
                                    },
                                }
                            }
                        },
                    }
                }
            },
        }
    }
}

proof fn lemma_split(a: Seq<u8>, b: Seq<u8>)
    ensures
        (a + b).len() == a.len() + b.len(),
        (a + b).take(a.len() as int) == a,
        (a + b).skip(a.len() as int) == b,
{
    assert((a + b).take(a.len() as int) =~= a);
    assert((a + b).skip(a.len() as int) =~= b);
}

/// Serializing an attestation message and reading it back yields the same
/// message, for every message.
#[verifier::rlimit(60)]
pub proof fn lemma_att_roundtrip(v: AttView)
    ensures
        dec_att(enc_att(v)) == Some(v),
{
    let s = enc_att(v);
    let t1 = str_part(v.issuer) + (lit_obj2() + (str_part(v.payload) + (lit_obj3() + (str_part(
        v.signature_b64,
    ) + seq![RBRACE]))));
    lemma_split(lit_obj1(), t1);
    assert(s.take(11) == lit_obj1());
    let r1 = lit_obj2() + (str_part(v.payload) + (lit_obj3() + (str_part(v.signature_b64)
        + seq![RBRACE])));
    assert(s.skip(11) == t1);
    assert(t1 =~= esc(v.issuer) + seq![QUOTE] + r1);
    lemma_unesc_esc(v.issuer, r1);
    let n1 = (esc(v.issuer).len() + 1) as nat;
    assert(unesc(s.skip(11)) == Some((v.issuer, n1)));
    lemma_split(str_part(v.issuer), r1);
    assert(t1.skip(str_part(v.issuer).len() as int) == r1);
    assert(s.skip(11).skip(n1 as int) =~= s.skip(11 + n1 as int));
    assert(str_part(v.issuer).len() == n1);
    let s2 = s.skip(11 + n1 as int);
    assert(s2 == r1);

    let t2 = str_part(v.payload) + (lit_obj3() + (str_part(v.signature_b64) + seq![RBRACE]));
    lemma_split(lit_obj2(), t2);
    assert(s2.take(12) == lit_obj2());
    let r2 = lit_obj3() + (str_part(v.signature_b64) + seq![RBRACE]);
    assert(s2.skip(12) == t2);
    assert(t2 =~= esc(v.payload) + seq![QUOTE] + r2);
    lemma_unesc_esc(v.payload, r2);
    let n2 = (esc(v.payload).len() + 1) as nat;
    assert(unesc(s2.skip(12)) == Some((v.payload, n2)));
    lemma_split(str_part(v.payload), r2);
    assert(s2.skip(12).skip(n2 as int) =~= s2.skip(12 + n2 as int));
    assert(str_part(v.payload).len() == n2);
    let s3 = s2.skip(12 + n2 as int);
    assert(s3 == r2);

    let t3 = str_part(v.signature_b64) + seq![RBRACE];
    lemma_split(lit_obj3(), t3);
    assert(s3.take(14) == lit_obj3());
    let r3 = seq![RBRACE];
    assert(s3.skip(14) == t3);
    assert(t3 =~= esc(v.signature_b64) + seq![QUOTE] + r3);
    lemma_unesc_esc(v.signature_b64, r3);
    let n3 = (esc(v.signature_b64).len() + 1) as nat;
    assert(unesc(s3.skip(14)) == Some((v.signature_b64, n3)));
    lemma_split(str_part(v.signature_b64), r3);
    assert(s3.skip(14).skip(n3 as int) =~= s3.skip(14 + n3 as int));
    assert(str_part(v.signature_b64).len() == n3);
    let s4 = s3.skip(14 + n3 as int);
    assert(s4 == r3);
    assert(s4.len() == 1 && s4[0] == RBRACE);
}

fn push_lit1(out: &mut Vec<u8>)
    ensures
        final(out)@ == old(out)@ + lit_obj1(),
{
    out.push(0x7b);
    out.push(0x22);
    out.push(0x69);
    out.push(0x73);
    out.push(0x73);
    out.push(0x75);
    out.push(0x65);
    out.push(0x72);
    out.push(0x22);
    out.push(0x3a);
    out.push(0x22);
    proof {
        assert(out@ =~= old(out)@ + lit_obj1());
    }
}

fn push_lit2(out: &mut Vec<u8>)
    ensures
        final(out)@ == old(out)@ + lit_obj2(),
{
    out.push(0x2c);
    out.push(0x22);
    out.push(0x70);
    out.push(0x61);
    out.push(0x79);
    out.push(0x6c);
    out.push(0x6f);
    out.push(0x61);
    out.push(0x64);
    out.push(0x22);
    out.push(0x3a);
    out.push(0x22);
    proof {
        assert(out@ =~= old(out)@ + lit_obj2());
    }
}

fn push_lit3(out: &mut Vec<u8>)
    ensures
        final(out)@ == old(out)@ + lit_obj3(),
{
    out.push(0x2c);
    out.push(0x22);
    out.push(0x73);
    out.push(0x69);
    out.push(0x67);
    out.push(0x6e);
    out.push(0x61);
    out.push(0x74);
    out.push(0x75);
    out.push(0x72);
    out.push(0x65);
    out.push(0x22);
    out.push(0x3a);
    out.push(0x22);
    proof {
        assert(out@ =~= old(out)@ + lit_obj3());
    }
}

/// Serializes the three fields of an attestation message.
pub fn encode_fields(issuer: &Vec<u8>, payload: &Vec<u8>, signature_b64: &Vec<u8>) -> (r: Vec<u8>)
    ensures
        r@ == enc_att(
            AttView { issuer: issuer@, payload: payload@, signature_b64: signature_b64@ },
        ),
{
    let mut out: Vec<u8> = Vec::new();
    push_lit1(&mut out);
    escape_into(&mut out, issuer);
    out.push(0x22);
    push_lit2(&mut out);
    escape_into(&mut out, payload);
    out.push(0x22);
    push_lit3(&mut out);
    escape_into(&mut out, signature_b64);
    out.push(0x22);
    out.push(0x7d);
    proof {
        assert(out@ =~= enc_att(
            AttView { issuer: issuer@, payload: payload@, signature_b64: signature_b64@ },
        ));
    }
    out
}

/// Tells whether `lit` stands in `buf` at `start`.
pub(crate) fn expect_lit_at(buf: &Vec<u8>, start: usize, lit: &Vec<u8>) -> (r: bool)
    requires
        start <= buf@.len(),
    ensures
        r == (start + lit@.len() <= buf@.len() && buf@.skip(start as int).take(lit@.len() as int)
            == lit@),
{
    let n = buf.len();
    if n - start < lit.len() {
        return false;
    }
    let mut i: usize = 0;
    while i < lit.len()
        invariant
            0 <= i <= lit@.len(),
            n == buf@.len(),
            start + lit@.len() <= n,
            forall|k: int| 0 <= k < i ==> buf@.skip(start as int)[k] == lit@[k],
        decreases lit@.len() - i,
    {
        if buf[start + i] != lit[i] {
            proof {
                assert(buf@.skip(start as int)[i as int] != lit@[i as int]);
                assert(buf@.skip(start as int).take(lit@.len() as int) != lit@);
            }
            return false;
        }
        proof {
            assert(buf@.skip(start as int)[i as int] == buf@[start + i]);
        }
        i = i + 1;
    }
    proof {
        assert(buf@.skip(start as int).take(lit@.len() as int) =~= lit@);
    }
    true
}

fn lit1_vec() -> (r: Vec<u8>)
    ensures
        r@ == lit_obj1(),
{
    let mut v: Vec<u8> = Vec::new();
    push_lit1(&mut v);
    proof {
        assert(Seq::<u8>::empty() + lit_obj1() =~= lit_obj1());
    }
    v
}

fn lit2_vec() -> (r: Vec<u8>)
    ensures
        r@ == lit_obj2(),
{
    let mut v: Vec<u8> = Vec::new();
    push_lit2(&mut v);
    proof {
        assert(Seq::<u8>::empty() + lit_obj2() =~= lit_obj2());
    }
    v
}

fn lit3_vec() -> (r: Vec<u8>)
    ensures
        r@ == lit_obj3(),
{
    let mut v: Vec<u8> = Vec::new();
    push_lit3(&mut v);
    proof {
        assert(Seq::<u8>::empty() + lit_obj3() =~= lit_obj3());
    }
    v
}

/// Deserializes an attestation message: the three fields, or nothing when
/// `buf` does not spell one.
pub fn decode_fields(buf: &Vec<u8>) -> (r: Option<(Vec<u8>, Vec<u8>, Vec<u8>)>)
    ensures
        match r {
            Some((i, p, g)) => dec_att(buf@) == Some(
                AttView { issuer: i@, payload: p@, signature_b64: g@ },
            ),
            None => dec_att(buf@) is None,
        },
{
    let l1 = lit1_vec();
    proof {
        assert(buf@.skip(0) =~= buf@);
    }
    if !expect_lit_at(buf, 0, &l1) {
        proof {
            assert(buf@.len() >= 11 ==> buf@.take(11) =~= buf@.skip(0).take(11));
        }
        return None;
    }
    proof {
        assert(buf@.take(11) =~= buf@.skip(0).take(11));
    }
    let r1 = parse_string(buf, 11);
    let (iss, p2) = match r1 {
        Some(x) => x,
        None => {
            return None;
        },
    };
    let ghost s2 = buf@.skip(p2 as int);
    let l2 = lit2_vec();
    if !expect_lit_at(buf, p2, &l2) {
        proof {
            assert(s2.len() >= 12 ==> s2.take(12) =~= buf@.skip(p2 as int).take(12));
        }
        return None;
    }
    proof {
        assert(p2 + 12 <= buf@.len());
        assert(buf@.skip(p2 as int).skip(12) =~= buf@.skip(p2 + 12));
    }
    let n = buf.len();
    assert(p2 + 12 <= n);
    let r2 = parse_string(buf, p2 + 12);
    let (pay, p3) = match r2 {
        Some(x) => x,
        None => {
            return None;
        },
    };
    proof {
        assert(s2.skip(12 + (p3 - (p2 + 12))) =~= buf@.skip(p3 as int));
    }
    let ghost s3 = buf@.skip(p3 as int);
    let l3 = lit3_vec();
    if !expect_lit_at(buf, p3, &l3) {
        return None;
    }
    proof {
        assert(p3 + 14 <= buf@.len());
        assert(buf@.skip(p3 as int).skip(14) =~= buf@.skip(p3 + 14));
    }
    assert(p3 + 14 <= n);
    let r3 = parse_string(buf, p3 + 14);
    let (sig, p4) = match r3 {
        Some(x) => x,
        None => {
            return None;
        },
    };
    proof {
        assert(s3.skip(14 + (p4 - (p3 + 14))) =~= buf@.skip(p4 as int));
    }
    if buf.len() - p4 == 1 && buf[p4] == 0x7d {
        proof {
            assert(buf@.skip(p4 as int).len() == 1);
            assert(buf@.skip(p4 as int)[0] == RBRACE);
        }
        Some((iss, pay, sig))
    } else {
        proof {
            let s4 = buf@.skip(p4 as int);
            assert(!(s4.len() == 1 && s4[0] == RBRACE));
        }
        None
    }
}

} // verus!
