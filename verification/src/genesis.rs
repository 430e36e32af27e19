use vstd::prelude::*;

use crate::jsontext::{esc, unesc, escape_into, parse_string, QUOTE, lemma_unesc_esc};
use crate::numtext::{
    dec_digits,
    parse_num,
    u64_to_dec,
    parse_u64_at,
    is_digit,
    lemma_dec_digits_are_digits,
    lemma_dec_val_of_digits,
    lemma_digit_run_of_digits,
};
use crate::codec::RBRACE;
use crate::attestation::copy_bytes;

verus! {

/// The startup descriptor: network name, start time, and an optional initial
/// task identifier.
pub struct Genesis {
    pub network_name: Vec<u8>,
    pub genesis_time: u64,
    pub initial_quest: Option<Vec<u8>>,
}

/// The mathematical content of a genesis descriptor.
pub ghost struct GenesisView {
    pub network_name: Seq<u8>,
    pub genesis_time: u64,
    pub initial_quest: Option<Seq<u8>>,
}

impl View for Genesis {
    type V = GenesisView;

    open spec fn view(&self) -> GenesisView {
        GenesisView {
            network_name: self.network_name@,
            genesis_time: self.genesis_time,
            initial_quest: match self.initial_quest {
                Some(ref q) => Some(q@),
                None => None,
            },
        }
    }
}

/// `{"network_name":"`
pub open spec fn lit_gen1() -> Seq<u8> {
    seq![
        0x7bu8,
        0x22,
        0x6e,
        0x65,
        0x74,
        0x77,
        0x6f,
        0x72,
        0x6b,
        0x5f,
        0x6e,
        0x61,
        0x6d,
        0x65,
        0x22,
        0x3a,
        0x22,
    ]
}

/// `,"genesis_time":`
pub open spec fn lit_gen2() -> Seq<u8> {
    seq![0x2cu8, 0x22, 0x67, 0x65, 0x6e, 0x65, 0x73, 0x69, 0x73, 0x5f, 0x74, 0x69, 0x6d, 0x65, 0x22, 0x3a]
}

/// `,"initial_quest":`
pub open spec fn lit_gen3() -> Seq<u8> {
    seq![
        0x2cu8,
        0x22,
        0x69,
        0x6e,
        0x69,
        0x74,
        0x69,
        0x61,
        0x6c,
        0x5f,
        0x71,
        0x75,
        0x65,
        0x73,
        0x74,
        0x22,
        0x3a,
    ]
}

/// `null`
pub open spec fn lit_null() -> Seq<u8> {
    seq![0x6eu8, 0x75, 0x6c, 0x6c]
}

/// The serialized form of the optional initial task identifier.
pub open spec fn enc_quest(q: Option<Seq<u8>>) -> Seq<u8> {
    match q {
        None => lit_null(),
        Some(s) => seq![QUOTE] + (esc(s) + seq![QUOTE]),
    }
}

/// The serialized form of a genesis descriptor: a JSON object with the
/// fields `network_name`, `genesis_time` and `initial_quest`, in that order.
pub open spec fn enc_gen(v: GenesisView) -> Seq<u8> {
    lit_gen1() + ((esc(v.network_name) + seq![QUOTE]) + (lit_gen2() + (dec_digits(
        v.genesis_time as nat,
    ) + (lit_gen3() + (enc_quest(v.initial_quest) + seq![RBRACE])))))
}

/// What deserializing `s` yields: the genesis descriptor it spells, if any.
pub open spec fn dec_gen(s: Seq<u8>) -> Option<GenesisView> {
    if s.len() < 17 || s.take(17) != lit_gen1() {
        None
    } else {
        match unesc(s.skip(17)) {
            None => None,
            Some((name, n1)) => {
                let s2 = s.skip(17 + n1 as int);
                if s2.len() < 16 || s2.take(16) != lit_gen2() {
                    None
                } else {
                    match parse_num(s2.skip(16)) {
                        None => None,
                        Some((t, nd)) => {
                            let s3 = s2.skip(16 + nd as int);
                            if s3.len() < 17 || s3.take(17) != lit_gen3() {
                                None
                            } else {
                                let s4 = s3.skip(17);
                                if s4.len() >= 1 && s4[0] == QUOTE {
                                    match unesc(s4.skip(1)) {
                                        None => None,
                                        Some((q, nq)) => {
                                            let s5 = s4.skip(1 + nq as int);
                                            if s5.len() == 1 && s5[0] == RBRACE {
                                                Some(
                                                    GenesisView {
                                                        network_name: name,
                                                        genesis_time: t,
                                                        initial_quest: Some(q),
                                                    },
                                                )
                                            } else {
                                                None
                                            }
                                        },
                                    }
                                } else if s4.len() >= 4 && s4.take(4) == lit_null() {
                                    let s5 = s4.skip(4);
                                    if s5.len() == 1 && s5[0] == RBRACE {
                                        Some(
                                            GenesisView {
                                                network_name: name,
                                                genesis_time: t,
                                                initial_quest: None,
                                            },
                                        )
                                    } else {
                                        None
                                    }
                                } else {
                                    None
                                }
                            }
                        },
                    }
                }
            },
        }
    }
}

proof fn lemma_split(a: Seq<u8>, b: Seq<u8>)
    ensures
        (a + b).len() == a.len() + b.len(),
        (a + b).take(a.len() as int) == a,
        (a + b).skip(a.len() as int) == b,
{
    assert((a + b).take(a.len() as int) =~= a);
    assert((a + b).skip(a.len() as int) =~= b);
}

/// Serializing a genesis descriptor and reading it back yields the same
/// descriptor, for every descriptor.
#[verifier::rlimit(80)]
pub proof fn lemma_gen_roundtrip(v: GenesisView)
    ensures
        dec_gen(enc_gen(v)) == Some(v),
{
    let s = enc_gen(v);
    let t1 = (esc(v.network_name) + seq![QUOTE]) + (lit_gen2() + (dec_digits(
        v.genesis_time as nat,
    ) + (lit_gen3() + (enc_quest(v.initial_quest) + seq![RBRACE]))));
    lemma_split(lit_gen1(), t1);
    assert(s.take(17) == lit_gen1());
    assert(s.skip(17) == t1);
    let r1 = lit_gen2() + (dec_digits(v.genesis_time as nat) + (lit_gen3() + (enc_quest(
        v.initial_quest,
    ) + seq![RBRACE])));
    assert(t1 =~= esc(v.network_name) + seq![QUOTE] + r1);
    lemma_unesc_esc(v.network_name, r1);
    let n1 = (esc(v.network_name).len() + 1) as nat;
    assert(unesc(s.skip(17)) == Some((v.network_name, n1)));
    lemma_split(esc(v.network_name) + seq![QUOTE], r1);
    assert(s.skip(17).skip(n1 as int) =~= s.skip(17 + n1 as int));
    let s2 = s.skip(17 + n1 as int);
    assert(s2 == r1);

    let digits = dec_digits(v.genesis_time as nat);
    let t2 = digits + (lit_gen3() + (enc_quest(v.initial_quest) + seq![RBRACE]));
    lemma_split(lit_gen2(), t2);
    assert(s2.take(16) == lit_gen2());
    assert(s2.skip(16) == t2);
    let r2 = lit_gen3() + (enc_quest(v.initial_quest) + seq![RBRACE]);
    assert(t2 =~= digits + r2);
    lemma_dec_digits_are_digits(v.genesis_time as nat);
    lemma_dec_val_of_digits(v.genesis_time as nat);
    assert(r2[0] == 0x2c && !is_digit(0x2c));
    lemma_digit_run_of_digits(digits, r2);
    assert((digits + r2).take(digits.len() as int) =~= digits);
    assert(parse_num(s2.skip(16)) == Some((v.genesis_time, digits.len() as nat)));
    lemma_split(digits, r2);
    assert(s2.skip(16).skip(digits.len() as int) =~= s2.skip(16 + digits.len() as int));
    let s3 = s2.skip(16 + digits.len() as int);
    assert(s3 == r2);

    let t3 = enc_quest(v.initial_quest) + seq![RBRACE];
    lemma_split(lit_gen3(), t3);
    assert(s3.take(17) == lit_gen3());
    assert(s3.skip(17) == t3);
    let s4 = s3.skip(17);
    match v.initial_quest {
        Some(q) => {
            assert(enc_quest(v.initial_quest) == seq![QUOTE] + (esc(q) + seq![QUOTE]));
            assert(s4 =~= seq![QUOTE] + (esc(q) + seq![QUOTE] + seq![RBRACE]));
            assert(s4[0] == QUOTE);
            assert(s4.skip(1) =~= esc(q) + seq![QUOTE] + seq![RBRACE]);
            lemma_unesc_esc(q, seq![RBRACE]);
            let nq = (esc(q).len() + 1) as nat;
            assert(unesc(s4.skip(1)) == Some((q, nq)));
            assert(s4.skip(1 + nq as int) =~= seq![RBRACE]);
        },
        None => {
            assert(enc_quest(v.initial_quest) == lit_null());
            assert(s4 =~= lit_null() + seq![RBRACE]);
            assert(s4[0] == 0x6e && 0x6e != QUOTE);
            assert(s4.take(4) =~= lit_null());
            assert(s4.skip(4) =~= seq![RBRACE]);
        },
    }
}

fn push_lit_gen1(out: &mut Vec<u8>)
    ensures
        final(out)@ == old(out)@ + lit_gen1(),
{
    out.push(0x7b);
    out.push(0x22);
    out.push(0x6e);
    out.push(0x65);
    out.push(0x74);
    out.push(0x77);
    out.push(0x6f);
    out.push(0x72);
    out.push(0x6b);
    out.push(0x5f);
    out.push(0x6e);
    out.push(0x61);
    out.push(0x6d);
    out.push(0x65);
    out.push(0x22);
    out.push(0x3a);
    out.push(0x22);
    proof {
        assert(out@ =~= old(out)@ + lit_gen1());
    }
}

fn push_lit_gen2(out: &mut Vec<u8>)
    ensures
        final(out)@ == old(out)@ + lit_gen2(),
{
    out.push(0x2c);
    out.push(0x22);
    out.push(0x67);
    out.push(0x65);
    out.push(0x6e);
    out.push(0x65);
    out.push(0x73);
    out.push(0x69);
    out.push(0x73);
    out.push(0x5f);
    out.push(0x74);
    out.push(0x69);
    out.push(0x6d);
    out.push(0x65);
    out.push(0x22);
    out.push(0x3a);
    proof {
        assert(out@ =~= old(out)@ + lit_gen2());
    }
}

fn push_lit_gen3(out: &mut Vec<u8>)
    ensures
        final(out)@ == old(out)@ + lit_gen3(),
{
    out.push(0x2c);
    out.push(0x22);
    out.push(0x69);
    out.push(0x6e);
    out.push(0x69);
    out.push(0x74);
    out.push(0x69);
    out.push(0x61);
    out.push(0x6c);
    out.push(0x5f);
    out.push(0x71);
    out.push(0x75);
    out.push(0x65);
    out.push(0x73);
    out.push(0x74);
    out.push(0x22);
    out.push(0x3a);
    proof {
        assert(out@ =~= old(out)@ + lit_gen3());
    }
}

impl Genesis {
    /// Serializes this descriptor.
    pub fn to_json(&self) -> (r: Vec<u8>)
        ensures
            r@ == enc_gen(self@),
    {
        let mut out: Vec<u8> = Vec::new();
        push_lit_gen1(&mut out);
        escape_into(&mut out, &self.network_name);
        out.push(0x22);
        push_lit_gen2(&mut out);
        let mut digits = u64_to_dec(self.genesis_time);
        out.append(&mut digits);
        push_lit_gen3(&mut out);
        match &self.initial_quest {
            Some(q) => {
                out.push(0x22);
                escape_into(&mut out, q);
                out.push(0x22);
            },
            None => {
                out.push(0x6e);
                out.push(0x75);
                out.push(0x6c);
                out.push(0x6c);
            },
        }
        out.push(0x7d);
        proof {
            assert(out@ =~= enc_gen(self@));
        }
        out
    }

    /// Reads a descriptor back from its serialized form.
    #[verifier::rlimit(100)]
    pub fn from_json(buf: &Vec<u8>) -> (r: Option<Genesis>)
        ensures
            match r {
                Some(g) => dec_gen(buf@) == Some(g@),
                None => dec_gen(buf@) is None,
            },
    {
        let mut l1: Vec<u8> = Vec::new();
        push_lit_gen1(&mut l1);
        proof {
            assert(Seq::<u8>::empty() + lit_gen1() =~= lit_gen1());
            assert(buf@.skip(0) =~= buf@);
        }
        if !crate::codec::expect_lit_at(buf, 0, &l1) {
            proof {
                assert(buf@.len() >= 17 ==> buf@.take(17) =~= buf@.skip(0).take(17));
            }
            return None;
        }
        proof {
            assert(buf@.take(17) =~= buf@.skip(0).take(17));
        }
        let (name, p2) = match parse_string(buf, 17) {
            Some(x) => x,
            None => {
                return None;
            },
        };
        let ghost s2 = buf@.skip(p2 as int);
        let mut l2: Vec<u8> = Vec::new();
        push_lit_gen2(&mut l2);
        proof {
            assert(Seq::<u8>::empty() + lit_gen2() =~= lit_gen2());
        }
        if !crate::codec::expect_lit_at(buf, p2, &l2) {
            return None;
        }
        proof {
            assert(buf@.skip(p2 as int).skip(16) =~= buf@.skip(p2 + 16));
        }
        let n = buf.len();
        assert(p2 + 16 <= n);
        let (time, p3) = match parse_u64_at(buf, p2 + 16) {
            Some(x) => x,
            None => {
                return None;
            },
        };
        proof {
            assert(s2.skip(16 + (p3 - (p2 + 16))) =~= buf@.skip(p3 as int));
        }
        let ghost s3 = buf@.skip(p3 as int);
        let mut l3: Vec<u8> = Vec::new();
        push_lit_gen3(&mut l3);
        proof {
            assert(Seq::<u8>::empty() + lit_gen3() =~= lit_gen3());
        }
        if !crate::codec::expect_lit_at(buf, p3, &l3) {
            return None;
        }
        proof {
            assert(p3 + 17 <= buf@.len());
            assert(buf@.skip(p3 as int).skip(17) =~= buf@.skip(p3 + 17));
        }
        let p4 = p3 + 17;
        let ghost s4 = buf@.skip(p4 as int);
        if p4 < buf.len() && buf[p4] == 0x22 {
            proof {
                assert(s4[0] == QUOTE);
                assert(buf@.skip(p4 as int).skip(1) =~= buf@.skip(p4 + 1));
            }
            let (quest, p5) = match parse_string(buf, p4 + 1) {
                Some(x) => x,
                None => {
                    return None;
                },
            };
            proof {
                assert(s4.skip(1 + (p5 - (p4 + 1))) =~= buf@.skip(p5 as int));
            }
            if buf.len() - p5 == 1 && buf[p5] == 0x7d {
                proof {
                    assert(buf@.skip(p5 as int).len() == 1);
                    assert(buf@.skip(p5 as int)[0] == RBRACE);
                }
                Some(
                    Genesis {
                        network_name: name,
                        genesis_time: time,
                        initial_quest: Some(quest),
                    },
                )
            } else {
                proof {
                    let s5 = buf@.skip(p5 as int);
                    assert(!(s5.len() == 1 && s5[0] == RBRACE));
                }
                None
            }
        } else {
            proof {
                assert(s4.len() >= 1 ==> s4[0] != QUOTE);
            }
            let mut ln: Vec<u8> = Vec::new();
            ln.push(0x6e);
            ln.push(0x75);
            ln.push(0x6c);
            ln.push(0x6c);
            proof {
                assert(ln@ =~= lit_null());
            }
            if !crate::codec::expect_lit_at(buf, p4, &ln) {
                return None;
            }
            proof {
                assert(s4.take(4) =~= lit_null());
                assert(buf@.skip(p4 as int).skip(4) =~= buf@.skip(p4 + 4));
            }
            let p5 = p4 + 4;
            if buf.len() - p5 == 1 && buf[p5] == 0x7d {
                proof {
                    assert(buf@.skip(p5 as int).len() == 1);
                    assert(buf@.skip(p5 as int)[0] == RBRACE);
                }
                Some(Genesis { network_name: name, genesis_time: time, initial_quest: None })
            } else {
                proof {
                    let s5 = buf@.skip(p5 as int);
                    assert(!(s5.len() == 1 && s5[0] == RBRACE));
                }
                None
            }
        }
    }

    /// One line describing the loaded descriptor, as bytes ready for a log.
    pub fn log_summary(&self) -> (r: Vec<u8>)
        ensures
            r@ == lit_summary_network() + self@.network_name + lit_summary_time() + dec_digits(
                self.genesis_time as nat,
            ) + lit_summary_quest() + (match self@.initial_quest {
                Some(q) => q,
                None => lit_none(),
            }),
    {
        let mut out: Vec<u8> = Vec::new();
        push_summary_network(&mut out);
        let mut name = copy_bytes(&self.network_name);
        out.append(&mut name);
        push_summary_time(&mut out);
        let mut digits = u64_to_dec(self.genesis_time);
        out.append(&mut digits);
        push_summary_quest(&mut out);
        match &self.initial_quest {
            Some(q) => {
                let mut qc = copy_bytes(q);
                out.append(&mut qc);
            },
            None => {
                out.push(0x6e);
                out.push(0x6f);
                out.push(0x6e);
                out.push(0x65);
                proof {
                    assert(out@.skip(out@.len() - 4) =~= lit_none());
                    assert(out@ =~= out@.take(out@.len() - 4) + lit_none());
                }
            },
        }
        proof {
            assert(out@ =~= lit_summary_network() + self@.network_name + lit_summary_time()
                + dec_digits(self.genesis_time as nat) + lit_summary_quest() + (
            match self@.initial_quest {
                Some(q) => q,
                None => lit_none(),
            }));
        }
        out
    }
}

/// `Genesis loaded: network=`
pub open spec fn lit_summary_network() -> Seq<u8> {
    seq![
        0x47u8,
        0x65,
        0x6e,
        0x65,
        0x73,
        0x69,
        0x73,
        0x20,
        0x6c,
        0x6f,
        0x61,
        0x64,
        0x65,
        0x64,
        0x3a,
        0x20,
        0x6e,
        0x65,
        0x74,
        0x77,
        0x6f,
        0x72,
        0x6b,
        0x3d,
    ]
}

/// ` genesis_time=`
pub open spec fn lit_summary_time() -> Seq<u8> {
    seq![0x20u8, 0x67, 0x65, 0x6e, 0x65, 0x73, 0x69, 0x73, 0x5f, 0x74, 0x69, 0x6d, 0x65, 0x3d]
}

/// ` initial_quest=`
pub open spec fn lit_summary_quest() -> Seq<u8> {
    seq![
        0x20u8,
        0x69,
        0x6e,
        0x69,
        0x74,
        0x69,
        0x61,
        0x6c,
        0x5f,
        0x71,
        0x75,
        0x65,
        0x73,
        0x74,
        0x3d,
    ]
}

/// `none`
pub open spec fn lit_none() -> Seq<u8> {
    seq![0x6eu8, 0x6f, 0x6e, 0x65]
}

fn push_summary_network(out: &mut Vec<u8>)
    ensures
        final(out)@ == old(out)@ + lit_summary_network(),
{
    out.push(0x47);
    out.push(0x65);
    out.push(0x6e);
    out.push(0x65);
    out.push(0x73);
    out.push(0x69);
    out.push(0x73);
    out.push(0x20);
    out.push(0x6c);
    out.push(0x6f);
    out.push(0x61);
    out.push(0x64);
    out.push(0x65);
    out.push(0x64);
    out.push(0x3a);
    out.push(0x20);
    out.push(0x6e);
    out.push(0x65);
    out.push(0x74);
    out.push(0x77);
    out.push(0x6f);
    out.push(0x72);
    out.push(0x6b);
    out.push(0x3d);
    proof {
        assert(out@ =~= old(out)@ + lit_summary_network());
    }
}

fn push_summary_time(out: &mut Vec<u8>)
    ensures
        final(out)@ == old(out)@ + lit_summary_time(),
{
    out.push(0x20);
    out.push(0x67);
    out.push(0x65);
    out.push(0x6e);
    out.push(0x65);
    out.push(0x73);
    out.push(0x69);
    out.push(0x73);
    out.push(0x5f);
    out.push(0x74);
    out.push(0x69);
    out.push(0x6d);
    out.push(0x65);
    out.push(0x3d);
    proof {
        assert(out@ =~= old(out)@ + lit_summary_time());
    }
}

fn push_summary_quest(out: &mut Vec<u8>)
    ensures
        final(out)@ == old(out)@ + lit_summary_quest(),
{
    out.push(0x20);
    out.push(0x69);
    out.push(0x6e);
    out.push(0x69);
    out.push(0x74);
    out.push(0x69);
    out.push(0x61);
    out.push(0x6c);
    out.push(0x5f);
    out.push(0x71);
    out.push(0x75);
    out.push(0x65);
    out.push(0x73);
    out.push(0x74);
    out.push(0x3d);
    proof {
        assert(out@ =~= old(out)@ + lit_summary_quest());
    }
}

} // verus!
