use vstd::prelude::*;

use crate::ascii::{CR, NL};

verus! {

/// Index of the first newline byte in `s`, or `s.len()` when there is
/// none.
pub open spec fn first_nl(s: Seq<u8>) -> nat
    decreases s.len(),
{
    if s.len() == 0 {
        0
    } else if s.first() == NL {
        0
    } else {
        1 + first_nl(s.drop_first())
    }
}

/// A line with a trailing carriage return removed — the byte a
/// `\r\n` terminator leaves behind once the newline itself is gone.
pub open spec fn strip_cr(l: Seq<u8>) -> Seq<u8> {
    if l.len() > 0 && l.last() == CR {
        l.drop_last()
    } else {
        l
    }
}

/// Splits a byte sequence into lines, with the boundaries Rust's
/// `str::lines` draws: a line ends at `\n` or `\r\n` (neither byte is
/// kept), the final terminator is optional, and a trailing fragment
/// without one is still a line. The empty sequence has no lines.
pub open spec fn split_lines_spec(s: Seq<u8>) -> Seq<Seq<u8>>
    decreases s.len(),
{
    if s.len() == 0 {
        Seq::empty()
    } else {
        let i = first_nl(s) as int;
        if i >= s.len() {
            seq![s]
        } else {
            seq![strip_cr(s.take(i))] + split_lines_spec(s.skip(i + 1))
        }
    }
}

/// `first_nl` is what its name says: if nothing before `i` is a
/// newline and `i` is a newline or the end, then `first_nl` is `i`.
proof fn lemma_first_nl_is(s: Seq<u8>, i: int)
    requires
        0 <= i <= s.len(),
        forall|k: int| 0 <= k < i ==> s[k] != NL,
        i == s.len() || s[i] == NL,
    ensures
        first_nl(s) == i,
    decreases i,
{
    if i == 0 {
    } else {
        assert(s.first() != NL);
        lemma_first_nl_is(s.drop_first(), i - 1);
    }
}

/// Splits `s` into lines.
pub fn split_lines(s: &Vec<u8>) -> (out: Vec<Vec<u8>>)
    ensures
        out.deep_view() == split_lines_spec(s@),
{
    let mut out: Vec<Vec<u8>> = Vec::new();
    let mut pos: usize = 0;
    proof {
        assert(s@.skip(0) =~= s@);
        assert(out.deep_view() + split_lines_spec(s@) =~= split_lines_spec(s@));
    }
    while pos < s.len()
        invariant
            pos <= s.len(),
            split_lines_spec(s@) == out.deep_view() + split_lines_spec(s@.skip(pos as int)),
        decreases s.len() - pos,
    {
        let ghost prev_dv = out.deep_view();
        let ghost p = pos as int;
        let ghost rest = s@.skip(p);
        let mut j: usize = pos;
        while j < s.len() && s[j] != NL
            invariant
                pos <= j <= s.len(),
                forall|k: int| pos <= k < j ==> s@[k] != NL,
            decreases s.len() - j,
        {
            j = j + 1;
        }
        proof {
            assert forall|k: int| 0 <= k < j - p implies rest[k] != NL by {
                assert(rest[k] == s@[p + k]);
            }
            if j < s.len() {
                assert(rest[j - p] == s@[j as int]);
            }
            lemma_first_nl_is(rest, j - p);
        }
        let mut line: Vec<u8> = Vec::new();
        let mut k: usize = pos;
        while k < j
            invariant
                pos <= k <= j <= s.len(),
                line@ == s@.subrange(pos as int, k as int),
            decreases j - k,
        {
            line.push(s[k]);
            k = k + 1;
            proof {
                assert(line@ =~= s@.subrange(pos as int, k as int));
            }
        }
        if j == s.len() {
            proof {
                assert(line@ =~= rest);
                assert(split_lines_spec(rest) == seq![rest]);
            }
            out.push(line);
            pos = j;
            proof {
                assert(s@.skip(pos as int) =~= Seq::<u8>::empty());
                assert(out.deep_view() =~~= prev_dv + seq![rest]);
                assert(prev_dv + seq![rest] + Seq::<Seq<u8>>::empty()
                    =~= prev_dv + split_lines_spec(rest));
            }
        } else {
            let ghost m = j - p;
            proof {
                assert(line@ =~= rest.take(m));
            }
            if line.len() > 0 && line[line.len() - 1] == CR {
                line.pop();
                proof {
                    assert(line@ =~= strip_cr(rest.take(m)));
                }
            }
            proof {
                assert(line@ == strip_cr(rest.take(m)));
            }
            out.push(line);
            pos = j + 1;
            proof {
                assert(s@.skip(pos as int) =~= rest.skip(m + 1));
                assert(out.deep_view() =~~= prev_dv + seq![strip_cr(rest.take(m))]);
                assert(split_lines_spec(rest) == seq![strip_cr(rest.take(m))]
                    + split_lines_spec(rest.skip(m + 1)));
                assert(prev_dv + (seq![strip_cr(rest.take(m))]
                    + split_lines_spec(rest.skip(m + 1)))
                    =~= (prev_dv + seq![strip_cr(rest.take(m))])
                        + split_lines_spec(rest.skip(m + 1)));
            }
        }
    }
    proof {
        assert(s@.skip(s@.len() as int) =~= Seq::<u8>::empty());
        assert(out.deep_view() + Seq::<Seq<u8>>::empty() =~= out.deep_view());
    }
    out
}

} // verus!
