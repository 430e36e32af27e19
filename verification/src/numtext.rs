use vstd::prelude::*;

verus! {

/// Decimal digits of `n` in ASCII, most significant first.
pub open spec fn dec_digits(n: nat) -> Seq<u8>
    decreases n,
{
    if n < 10 {
        seq![(0x30 + n) as u8]
    } else {
        dec_digits(n / 10).push((0x30 + (n % 10)) as u8)
    }
}

pub open spec fn is_digit(b: u8) -> bool {
    0x30 <= b <= 0x39
}

/// Value of a sequence of ASCII digits, most significant first.
pub open spec fn dec_val(s: Seq<u8>) -> nat
    decreases s.len(),
{
    if s.len() == 0 {
        0
    } else {
        (dec_val(s.drop_last()) * 10 + (s.last() - 0x30)) as nat
    }
}

/// Length of the longest all-digit prefix of `s`.
pub open spec fn digit_run_len(s: Seq<u8>) -> nat
    decreases s.len(),
{
    if s.len() > 0 && is_digit(s[0]) {
        1 + digit_run_len(s.skip(1))
    } else {
        0
    }
}

/// The number, if any, at the head of `s`: its value and the count of digits
/// consumed.  Rejected when there is no digit or the value exceeds `u64`.
pub open spec fn parse_num(s: Seq<u8>) -> Option<(u64, nat)> {
    let l = digit_run_len(s);
    if l == 0 {
        None
    } else if dec_val(s.take(l as int)) > u64::MAX {
        None
    } else {
        Some((dec_val(s.take(l as int)) as u64, l))
    }
}

pub proof fn lemma_dec_digits_are_digits(n: nat)
    ensures
        forall|i: int| 0 <= i < dec_digits(n).len() ==> is_digit(#[trigger] dec_digits(n)[i]),
        dec_digits(n).len() >= 1,
    decreases n,
{
    if n >= 10 {
        lemma_dec_digits_are_digits(n / 10);
    }
}

pub proof fn lemma_dec_val_of_digits(n: nat)
    ensures
        dec_val(dec_digits(n)) == n,
    decreases n,
{
    if n < 10 {
        assert(dec_digits(n) == seq![(0x30 + n) as u8]);
        assert(dec_digits(n).drop_last() =~= Seq::<u8>::empty());
        assert(dec_digits(n).last() == (0x30 + n) as u8);
        assert(dec_val(Seq::<u8>::empty()) == 0);
    } else {
        lemma_dec_val_of_digits(n / 10);
        assert(dec_digits(n).drop_last() =~= dec_digits(n / 10));
        assert(dec_digits(n).last() == (0x30 + (n % 10)) as u8);
        assert(dec_val(dec_digits(n)) == (dec_val(dec_digits(n / 10)) * 10 + ((0x30 + (n % 10))
            as u8 - 0x30)) as nat);
        assert((n / 10) * 10 + (n % 10) == n);
    }
}

/// A digit run stops exactly at the end of an all-digit block when what
/// follows is empty or starts with a non-digit.
pub proof fn lemma_digit_run_of_digits(d: Seq<u8>, rest: Seq<u8>)
    requires
        forall|i: int| 0 <= i < d.len() ==> is_digit(#[trigger] d[i]),
        rest.len() == 0 || !is_digit(rest[0]),
    ensures
        digit_run_len(d + rest) == d.len(),
    decreases d.len(),
{
    if d.len() == 0 {
        assert(d + rest =~= rest);
    } else {
        assert((d + rest)[0] == d[0]);
        assert((d + rest).skip(1) =~= d.skip(1) + rest);
        lemma_digit_run_of_digits(d.skip(1), rest);
    }
}

/// The value of a prefix of a digit run never exceeds the value of the run.
pub proof fn lemma_dec_val_prefix(s: Seq<u8>, i: int)
    requires
        forall|k: int| 0 <= k < s.len() ==> is_digit(#[trigger] s[k]),
        0 <= i <= s.len(),
    ensures
        dec_val(s.take(i)) <= dec_val(s),
    decreases s.len() - i,
{
    if i == s.len() {
        assert(s.take(i) =~= s);
    } else {
        lemma_dec_val_prefix(s, i + 1);
        assert(s.take(i + 1).drop_last() =~= s.take(i));
        assert(dec_val(s.take(i + 1)) == dec_val(s.take(i)) * 10 + (s[i] - 0x30));
    }
}

/// Writing a `u64` in decimal.
pub fn u64_to_dec(n: u64) -> (r: Vec<u8>)
    ensures
        r@ == dec_digits(n as nat),
{
    let mut out: Vec<u8> = Vec::new();
    let mut m: u64 = n;
    while m >= 10
        invariant
            dec_digits(n as nat) == dec_digits(m as nat) + out@,
        decreases m,
    {
        let d: u8 = ((m % 10) as u8) + 0x30;
        proof {
            assert(dec_digits(m as nat) =~= dec_digits((m as nat) / 10) + seq![d]);
            assert(dec_digits((m as nat) / 10) + (seq![d] + out@) =~= (dec_digits(
                (m as nat) / 10,
            ) + seq![d]) + out@);
        }
        out.insert(0, d);
        m = m / 10;
    }
    let d: u8 = (m as u8) + 0x30;
    proof {
        assert(dec_digits(m as nat) =~= seq![d]);
        assert(seq![d] + out@ =~= dec_digits(m as nat) + out@);
    }
    out.insert(0, d);
    out
}

/// Reading a decimal number from `buf` at `start`, per `parse_num`.
pub fn parse_u64_at(buf: &Vec<u8>, start: usize) -> (r: Option<(u64, usize)>)
    requires
        start <= buf@.len(),
    ensures
        match r {
            Some((v, end)) => {
                &&& start < end <= buf@.len()
                &&& parse_num(buf@.skip(start as int)) == Some::<(u64, nat)>(
                    (v, (end - start) as nat),
                )
            },
            None => parse_num(buf@.skip(start as int)) is None,
        },
{
    let ghost s = buf@.skip(start as int);
    // measure the digit run
    let mut end: usize = start;
    while end < buf.len() && buf[end] >= 0x30 && buf[end] <= 0x39
        invariant
            start <= end <= buf@.len(),
            s == buf@.skip(start as int),
            forall|k: int| 0 <= k < end - start ==> is_digit(#[trigger] s[k]),
            digit_run_len(s) == (end - start) + digit_run_len(buf@.skip(end as int)),
        decreases buf@.len() - end,
    {
        proof {
            let t = buf@.skip(end as int);
            assert(t[0] == buf@[end as int]);
            assert(t.skip(1) =~= buf@.skip(end as int + 1));
            assert(digit_run_len(t) == 1 + digit_run_len(t.skip(1)));
        }
        end = end + 1;
    }
    proof {
        let t = buf@.skip(end as int);
        assert(t.len() == 0 || !is_digit(t[0]));
        assert(digit_run_len(t) == 0);
        assert(digit_run_len(s) == end - start);
    }
    if end == start {
        return None;
    }
    let ghost run = s.take((end - start) as int);
    // accumulate the value
    let mut v: u64 = 0;
    let mut i: usize = start;
    while i < end
        invariant
            start <= i <= end <= buf@.len(),
            s == buf@.skip(start as int),
            digit_run_len(s) == end - start,
            run == s.take((end - start) as int),
            forall|k: int| 0 <= k < end - start ==> is_digit(#[trigger] s[k]),
            v == dec_val(run.take((i - start) as int)),
        decreases end - i,
    {
        proof {
            assert(is_digit(s[(i - start) as int]));
            assert(s[(i - start) as int] == buf@[i as int]);
        }
        let d: u8 = buf[i] - 0x30;
        proof {
            assert(run.take((i - start) as int + 1).drop_last() =~= run.take((i - start) as int));
            assert(run.take((i - start) as int + 1).last() == s[i - start]);
            assert(s[i - start] == buf@[i as int]);
        }
        if v > (u64::MAX - (d as u64)) / 10 {
            proof {
                assert(dec_val(run.take((i - start) as int + 1)) > u64::MAX);
                lemma_dec_val_prefix(run, (i - start) as int + 1);
                assert(run.take(run.len() as int) =~= run);
            }
            return None;
        }
        v = v * 10 + (d as u64);
        i = i + 1;
    }
    proof {
        assert(run.take((end - start) as int) =~= run);
        assert(run.take(run.len() as int) =~= run);
    }
    Some((v, end))
}

} // verus!
