use vstd::prelude::*;

use crate::ascii::{SPACE, TAB, ZERO};

verus! {

/// The ASCII digit for `n % 10`.
pub open spec fn dec_digit(n: nat) -> u8 {
    (ZERO + n % 10) as u8
}

/// The decimal digits of `n`, most significant first, with no leading
/// zeros (a single `0` for zero itself).
pub open spec fn dec_digits(n: nat) -> Seq<u8>
    decreases n,
{
    if n < 10 {
        seq![dec_digit(n)]
    } else {
        dec_digits(n / 10).push(dec_digit(n))
    }
}

/// `n` space bytes (none when `n` is not positive).
pub open spec fn spaces(n: int) -> Seq<u8>
    decreases n,
{
    if n <= 0 {
        Seq::empty()
    } else {
        spaces(n - 1).push(SPACE)
    }
}

/// A numbered output line: the counter right-aligned in a six-column
/// field (wider counters get no padding), a tab, then the content.
pub open spec fn numbered(n: nat, content: Seq<u8>) -> Seq<u8> {
    spaces(6 - dec_digits(n).len()) + dec_digits(n) + seq![TAB] + content
}

/// Appends the decimal digits of `n` to `out`.
fn push_dec(n: usize, out: &mut Vec<u8>)
    ensures
        final(out)@ == old(out)@ + dec_digits(n as nat),
    decreases n,
{
    if n >= 10 {
        proof {
            assert(n / 10 < n) by (nonlinear_arith)
                requires n >= 10;
        }
        push_dec(n / 10, out);
    }
    let d: u8 = (n % 10) as u8 + ZERO;
    out.push(d);
    proof {
        assert(d == dec_digit(n as nat));
        assert(out@ =~= old(out)@ + dec_digits(n as nat));
    }
}

/// Appends a copy of `src` to `out`.
pub fn push_all(out: &mut Vec<u8>, src: &Vec<u8>)
    ensures
        final(out)@ == old(out)@ + src@,
{
    let mut i: usize = 0;
    while i < src.len()
        invariant
            i <= src.len(),
            out@ == old(out)@ + src@.take(i as int),
        decreases src.len() - i,
    {
        out.push(src[i]);
        i = i + 1;
        proof {
            assert(out@ =~= old(out)@ + src@.take(i as int));
        }
    }
    proof {
        assert(old(out)@ + src@.take(src@.len() as int) =~= old(out)@ + src@);
    }
}

/// A fresh copy of `src`.
pub fn clone_bytes(src: &Vec<u8>) -> (out: Vec<u8>)
    ensures
        out@ == src@,
{
    let mut out: Vec<u8> = Vec::new();
    push_all(&mut out, src);
    proof {
        assert(Seq::<u8>::empty() + src@ =~= src@);
    }
    out
}

/// Builds the numbered form of `content`: the counter right-aligned in
/// six columns, a tab, then the content bytes.
pub fn numbered_line(n: usize, content: &Vec<u8>) -> (out: Vec<u8>)
    ensures
        out@ == numbered(n as nat, content@),
{
    let mut digits: Vec<u8> = Vec::new();
    push_dec(n, &mut digits);
    proof {
        assert(Seq::<u8>::empty() + dec_digits(n as nat) =~= dec_digits(n as nat));
    }
    let mut out: Vec<u8> = Vec::new();
    if digits.len() < 6 {
        let pad: usize = 6 - digits.len();
        let mut k: usize = 0;
        while k < pad
            invariant
                k <= pad,
                out@ == spaces(k as int),
            decreases pad - k,
        {
            out.push(SPACE);
            k = k + 1;
        }
    }
    proof {
        assert(out@ == spaces(6 - dec_digits(n as nat).len()));
    }
    push_all(&mut out, &digits);
    out.push(TAB);
    push_all(&mut out, content);
    proof {
        assert(out@ =~= numbered(n as nat, content@));
    }
    out
}

} // verus!
