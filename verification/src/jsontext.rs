use vstd::prelude::*;

verus! {

pub const QUOTE: u8 = 0x22;

pub const BSLASH: u8 = 0x5c;

/// Lowercase hex digit for a value below 16.
pub open spec fn hex_digit(v: nat) -> u8 {
    if v < 10 {
        (0x30 + v) as u8
    } else {
        (0x57 + v) as u8
    }
}

/// Value of a hex digit; 16 marks a byte that is no hex digit.
pub open spec fn hex_val(b: u8) -> nat {
    if 0x30 <= b <= 0x39 {
        (b - 0x30) as nat
    } else if 0x61 <= b <= 0x66 {
        (b - 0x57) as nat
    } else if 0x41 <= b <= 0x46 {
        (b - 0x37) as nat
    } else {
        16
    }
}

pub open spec fn is_hex(b: u8) -> bool {
    hex_val(b) < 16
}

/// How one byte is written inside a JSON string: quote and backslash get a
/// backslash escape, control bytes a `\u00xy` escape, the rest stand as they are.
pub open spec fn esc_byte(b: u8) -> Seq<u8> {
    if b == QUOTE {
        seq![BSLASH, QUOTE]
    } else if b == BSLASH {
        seq![BSLASH, BSLASH]
    } else if b < 0x20 {
        seq![BSLASH, 0x75, 0x30, 0x30, hex_digit((b >> 4) as nat), hex_digit((b & 0x0f) as nat)]
    } else {
        seq![b]
    }
}

/// A byte string written as the body of a JSON string literal.
pub open spec fn esc(s: Seq<u8>) -> Seq<u8>
    decreases s.len(),
{
    if s.len() == 0 {
        Seq::empty()
    } else {
        esc_byte(s[0]) + esc(s.skip(1))
    }
}

/// The escape sequence at the head of `s` (`s[0]` is a backslash): the byte it
/// stands for and how many bytes it takes.  Only escapes below 0x80 are read.
pub open spec fn esc_code(s: Seq<u8>) -> Option<(u8, nat)> {
    if s.len() < 2 {
        None
    } else if s[1] == QUOTE {
        Some((QUOTE, 2 as nat))
    } else if s[1] == BSLASH {
        Some((BSLASH, 2 as nat))
    } else if s[1] == 0x2f {
        Some((0x2f as u8, 2 as nat))
    } else if s[1] == 0x62 {
        Some((0x08 as u8, 2 as nat))
    } else if s[1] == 0x66 {
        Some((0x0c as u8, 2 as nat))
    } else if s[1] == 0x6e {
        Some((0x0a as u8, 2 as nat))
    } else if s[1] == 0x72 {
        Some((0x0d as u8, 2 as nat))
    } else if s[1] == 0x74 {
        Some((0x09 as u8, 2 as nat))
    } else if s[1] == 0x75 {
        if s.len() < 6 {
            None
        } else if is_hex(s[2]) && is_hex(s[3]) && is_hex(s[4]) && is_hex(s[5]) {
            if hex_val(s[2]) * 4096 + hex_val(s[3]) * 256 + hex_val(s[4]) * 16 + hex_val(s[5])
                < 0x80 {
                Some(
                    (
                        (hex_val(s[2]) * 4096 + hex_val(s[3]) * 256 + hex_val(s[4]) * 16 + hex_val(
                            s[5],
                        )) as u8,
                        6 as nat,
                    ),
                )
            } else {
                None
            }
        } else {
            None
        }
    } else {
        None
    }
}

/// Reading a JSON string body from the head of `s` up to and including its
/// closing quote: the decoded bytes and the count of bytes consumed.
pub open spec fn unesc(s: Seq<u8>) -> Option<(Seq<u8>, nat)>
    decreases s.len(),
{
    if s.len() == 0 {
        None
    } else if s[0] == QUOTE {
        Some((Seq::empty(), 1 as nat))
    } else if s[0] == BSLASH {
        match esc_code(s) {
            Some((b, k)) => if k <= s.len() {
                match unesc(s.skip(k as int)) {
                    Some((t, n)) => Some((seq![b] + t, (k + n) as nat)),
                    None => None,
                }
            } else {
                None
            },
            None => None,
        }
    } else if s[0] < 0x20 {
        None
    } else {
        match unesc(s.skip(1)) {
            Some((t, n)) => Some((seq![s[0]] + t, (1 + n) as nat)),
            None => None,
        }
    }
}

pub proof fn lemma_esc_append(a: Seq<u8>, b: Seq<u8>)
    ensures
        esc(a + b) == esc(a) + esc(b),
    decreases a.len(),
{
    if a.len() == 0 {
        assert(a + b =~= b);
        assert(esc(a) + esc(b) =~= esc(b));
    } else {
        assert((a + b)[0] == a[0]);
        assert((a + b).skip(1) =~= a.skip(1) + b);
        lemma_esc_append(a.skip(1), b);
        assert(esc(a + b) =~= esc_byte(a[0]) + (esc(a.skip(1)) + esc(b)));
        assert(esc_byte(a[0]) + (esc(a.skip(1)) + esc(b)) =~= (esc_byte(a[0]) + esc(a.skip(1)))
            + esc(b));
    }
}

pub proof fn lemma_hex_roundtrip(v: nat)
    requires
        v < 16,
    ensures
        hex_val(hex_digit(v)) == v,
{
}

/// Reading back what `esc` wrote gives the original bytes, whatever follows
/// the closing quote.
pub proof fn lemma_unesc_esc(s: Seq<u8>, rest: Seq<u8>)
    ensures
        unesc(esc(s) + seq![QUOTE] + rest) == Some((s, (esc(s).len() + 1) as nat)),
    decreases s.len(),
{
    let w = esc(s) + seq![QUOTE] + rest;
    if s.len() == 0 {
        assert(esc(s) =~= Seq::<u8>::empty());
        assert(w[0] == QUOTE);
        assert(unesc(w) == Some((Seq::<u8>::empty(), 1 as nat)));
        assert(s =~= Seq::<u8>::empty());
    } else {
        let b = s[0];
        let t = s.skip(1);
        lemma_unesc_esc(t, rest);
        let wt = esc(t) + seq![QUOTE] + rest;
        assert(esc(s) =~= esc_byte(b) + esc(t));
        let k = esc_byte(b).len();
        assert(w =~= esc_byte(b) + wt);
        assert(forall|i: int| 0 <= i < k ==> w[i] == esc_byte(b)[i]);
        assert(w.skip(k as int) =~= wt);
        if b == QUOTE || b == BSLASH {
            assert(k == 2);
            assert(w[0] == BSLASH);
            assert(w[1] == b);
            assert(esc_code(w) == Some((b, 2 as nat)));
            assert(unesc(w) == Some((seq![b] + t, (2 + esc(t).len() + 1) as nat)));
            assert(seq![b] + t =~= s);
        } else if b < 0x20 {
            assert(k == 6);
            assert(w[0] == BSLASH);
            assert(w[1] == 0x75);
            assert(w[2] == 0x30 && w[3] == 0x30);
            assert(w[4] == hex_digit((b >> 4) as nat));
            assert(w[5] == hex_digit((b & 0x0f) as nat));
            assert((b >> 4) < 16 && (b & 0x0f) < 16) by (bit_vector);
            lemma_hex_roundtrip((b >> 4) as nat);
            lemma_hex_roundtrip((b & 0x0f) as nat);
            assert(hex_val(0x30) == 0);
            assert((b >> 4) * 16 + (b & 0x0f) == b) by (bit_vector);
            assert(b < 0x20 ==> (b >> 4) < 2) by (bit_vector);
            assert(hex_val(w[2]) * 4096 + hex_val(w[3]) * 256 + hex_val(w[4]) * 16 + hex_val(w[5])
                == b);
            assert(esc_code(w) == Some((b, 6 as nat)));
            assert(unesc(w) == Some((seq![b] + t, (6 + esc(t).len() + 1) as nat)));
            assert(seq![b] + t =~= s);
        } else {
            assert(k == 1);
            assert(w[0] == b);
            assert(b != QUOTE && b != BSLASH && b >= 0x20);
            assert(unesc(w) == Some((seq![b] + t, (1 + esc(t).len() + 1) as nat)));
            assert(seq![b] + t =~= s);
        }
    }
}

/// Appends `esc(s@)` to `out`.
pub fn escape_into(out: &mut Vec<u8>, s: &Vec<u8>)
    ensures
        final(out)@ == old(out)@ + esc(s@),
{
    let ghost base = out@;
    let mut i: usize = 0;
    while i < s.len()
        invariant
            i <= s@.len(),
            out@ == base + esc(s@.take(i as int)),
        decreases s@.len() - i,
    {
        let b = s[i];
        proof {
            assert(s@.take(i + 1) =~= s@.take(i as int) + seq![b]);
            lemma_esc_append(s@.take(i as int), seq![b]);
            assert(esc(seq![b]) =~= esc_byte(b) + esc(seq![b].skip(1)));
            assert(seq![b].skip(1) =~= Seq::<u8>::empty());
            assert(esc(seq![b]) =~= esc_byte(b));
        }
        if b == 0x22 {
            out.push(0x5c);
            out.push(0x22);
        } else if b == 0x5c {
            out.push(0x5c);
            out.push(0x5c);
        } else if b < 0x20 {
            out.push(0x5c);
            out.push(0x75);
            out.push(0x30);
            out.push(0x30);
            let hi: u8 = b >> 4;
            let lo: u8 = b & 0x0f;
            proof {
                assert((b >> 4) < 16 && (b & 0x0f) < 16) by (bit_vector);
            }
            let dhi: u8 = if hi < 10 {
                0x30 + hi
            } else {
                0x57 + hi
            };
            let dlo: u8 = if lo < 10 {
                0x30 + lo
            } else {
                0x57 + lo
            };
            out.push(dhi);
            out.push(dlo);
            proof {
                assert(dhi == hex_digit((b >> 4) as nat));
                assert(dlo == hex_digit((b & 0x0f) as nat));
            }
        } else {
            out.push(b);
        }
        proof {
            assert(out@ =~= base + esc(s@.take(i + 1)));
        }
        i = i + 1;
    }
    proof {
        assert(s@.take(s@.len() as int) =~= s@);
    }
}

/// How far the parse of `whole` has come once `done` bytes are decoded and
/// `used` bytes consumed: what `unesc` of the rest still owes.
pub open spec fn unesc_step(done: Seq<u8>, used: nat, r: Option<(Seq<u8>, nat)>) -> Option<
    (Seq<u8>, nat),
> {
    match r {
        Some((t, n)) => Some((done + t, (used + n) as nat)),
        None => None,
    }
}

/// Reads a JSON string body from `buf` at `start` up to and including the
/// closing quote, undoing the escapes that `esc` describes.
pub fn parse_string(buf: &Vec<u8>, start: usize) -> (r: Option<(Vec<u8>, usize)>)
    requires
        start <= buf@.len(),
    ensures
        match r {
            Some((content, end)) => {
                &&& start < end <= buf@.len()
                &&& unesc(buf@.skip(start as int)) == Some((content@, (end - start) as nat))
            },
            None => unesc(buf@.skip(start as int)) is None,
        },
{
    let ghost whole = buf@.skip(start as int);
    let mut i: usize = start;
    let mut out: Vec<u8> = Vec::new();
    loop
        invariant
            start <= i <= buf@.len(),
            whole == buf@.skip(start as int),
            unesc(whole) == unesc_step(out@, (i - start) as nat, unesc(buf@.skip(i as int))),
        decreases buf@.len() - i,
    {
        let ghost cur = buf@.skip(i as int);
        if i == buf.len() {
            proof {
                assert(cur.len() == 0);
                assert(unesc(cur) is None);
            }
            return None;
        }
        let b = buf[i];
        proof {
            assert(cur[0] == b);
        }
        if b == 0x22 {
            proof {
                assert(unesc(cur) == Some((Seq::<u8>::empty(), 1 as nat)));
                assert(out@ + Seq::<u8>::empty() =~= out@);
            }
            return Some((out, i + 1));
        } else if b == 0x5c {
            // an escape: read it whole
            if i + 1 >= buf.len() {
                proof {
                    assert(cur.len() < 2);
                    assert(unesc(cur) is None);
                }
                return None;
            }
            let c = buf[i + 1];
            proof {
                assert(cur[1] == c);
            }
            let (dec, k): (u8, usize) = if c == 0x22 {
                (0x22, 2)
            } else if c == 0x5c {
                (0x5c, 2)
            } else if c == 0x2f {
                (0x2f, 2)
            } else if c == 0x62 {
                (0x08, 2)
            } else if c == 0x66 {
                (0x0c, 2)
            } else if c == 0x6e {
                (0x0a, 2)
            } else if c == 0x72 {
                (0x0d, 2)
            } else if c == 0x74 {
                (0x09, 2)
            } else if c == 0x75 {
                if buf.len() - i < 6 {
                    proof {
                        assert(cur.len() < 6);
                        assert(unesc(cur) is None);
                    }
                    return None;
                }
                let h2 = hex_digit_val(buf[i + 2]);
                let h3 = hex_digit_val(buf[i + 3]);
                let h4 = hex_digit_val(buf[i + 4]);
                let h5 = hex_digit_val(buf[i + 5]);
                proof {
                    assert(cur[2] == buf@[i + 2]);
                    assert(cur[3] == buf@[i + 3]);
                    assert(cur[4] == buf@[i + 4]);
                    assert(cur[5] == buf@[i + 5]);
                }
                if h2 >= 16 || h3 >= 16 || h4 >= 16 || h5 >= 16 {
                    proof {
                        assert(esc_code(cur) is None);
                        assert(unesc(cur) is None);
                    }
                    return None;
                }
                let v: u32 = (h2 as u32) * 4096 + (h3 as u32) * 256 + (h4 as u32) * 16 + (
                h5 as u32);
                if v >= 0x80 {
                    proof {
                        assert(esc_code(cur) is None);
                        assert(unesc(cur) is None);
                    }
                    return None;
                }
                (v as u8, 6)
            } else {
                proof {
                    assert(esc_code(cur) is None);
                    assert(unesc(cur) is None);
                }
                return None;
            };
            proof {
                assert(esc_code(cur) == Some((dec, k as nat)));
                assert(k <= cur.len());
                assert(cur.skip(k as int) =~= buf@.skip((i + k) as int));
            }
            out.push(dec);
            proof {
                let next = unesc(buf@.skip((i + k) as int));
                match next {
                    Some((t, n)) => {
                        assert(unesc(cur) == Some((seq![dec] + t, (k + n) as nat)));
                        assert(out@ + t =~= (out@.drop_last() + seq![dec]) + t);
                        assert(out@.drop_last() + (seq![dec] + t) =~= (out@.drop_last()
                            + seq![dec]) + t);
                    },
                    None => {
                        assert(unesc(cur) is None);
                    },
                }
            }
            i = i + k;
        } else if b < 0x20 {
            proof {
                assert(unesc(cur) is None);
            }
            return None;
        } else {
            out.push(b);
            proof {
                assert(cur.skip(1) =~= buf@.skip(i + 1));
                let next = unesc(buf@.skip(i + 1));
                match next {
                    Some((t, n)) => {
                        assert(unesc(cur) == Some((seq![b] + t, (1 + n) as nat)));
                        assert(out@.drop_last() + (seq![b] + t) =~= (out@.drop_last() + seq![b])
                            + t);
                        assert(out@ =~= out@.drop_last() + seq![b]);
                    },
                    None => {
                        assert(unesc(cur) is None);
                    },
                }
            }
            i = i + 1;
        }
    }
}

/// Value of a hex digit byte, 16 when it is none.
fn hex_digit_val(b: u8) -> (r: u8)
    ensures
        r as nat == hex_val(b),
{
    if 0x30 <= b && b <= 0x39 {
        b - 0x30
    } else if 0x61 <= b && b <= 0x66 {
        b - 0x57
    } else if 0x41 <= b && b <= 0x46 {
        b - 0x37
    } else {
        16
    }
}

} // verus!
