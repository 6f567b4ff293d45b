use vstd::prelude::*;

use crate::ascii::{CARET, DASH, QUESTION, UPPER_M};

verus! {

/// How one input byte is rendered in escape mode.
///
/// ASCII bytes (printable or control) pass through unchanged, except DEL
/// (127), which becomes `^?`. A byte with the high bit set is shown in
/// meta notation: `M-` followed by the rendering of the byte with the
/// high bit cleared — the plain character for the printable range,
/// caret notation (`^` plus the character 64 places up) for the control
/// range, and `^?` for 255 (DEL with the high bit set).
pub open spec fn escape_byte(b: u8) -> Seq<u8> {
    if b == 127 {
        seq![CARET, QUESTION]
    } else if b < 128 {
        seq![b]
    } else if b < 160 {
        seq![UPPER_M, DASH, CARET, (b - 64) as u8]
    } else if b < 255 {
        seq![UPPER_M, DASH, (b - 128) as u8]
    } else {
        seq![UPPER_M, DASH, CARET, QUESTION]
    }
}

/// The escape-mode transform over a whole byte sequence: each byte is
/// replaced by its rendering, in input order.
pub open spec fn escape_bytes_spec(s: Seq<u8>) -> Seq<u8>
    decreases s.len(),
{
    if s.len() == 0 {
        Seq::empty()
    } else {
        escape_byte(s.first()) + escape_bytes_spec(s.drop_first())
    }
}

/// The transform distributes over concatenation.
pub proof fn lemma_escape_bytes_add(a: Seq<u8>, b: Seq<u8>)
    ensures
        escape_bytes_spec(a + b) == escape_bytes_spec(a) + escape_bytes_spec(b),
    decreases a.len(),
{
    if a.len() == 0 {
        assert(a + b =~= b);
        assert(escape_bytes_spec(a) + escape_bytes_spec(b) =~= escape_bytes_spec(b));
    } else {
        lemma_escape_bytes_add(a.drop_first(), b);
        assert((a + b).drop_first() =~= a.drop_first() + b);
        assert((a + b).first() == a.first());
        assert(escape_byte(a.first()) + (escape_bytes_spec(a.drop_first()) + escape_bytes_spec(b))
            =~= (escape_byte(a.first()) + escape_bytes_spec(a.drop_first())) + escape_bytes_spec(b));
    }
}

/// Every byte the transform produces is ASCII, so the transformed
/// sequence is always valid text: the renderer can never meet a
/// transform result it cannot print.
pub proof fn lemma_escape_bytes_ascii(s: Seq<u8>)
    ensures
        forall|i: int| 0 <= i < escape_bytes_spec(s).len() ==> escape_bytes_spec(s)[i] < 128,
    decreases s.len(),
{
    if s.len() > 0 {
        lemma_escape_bytes_ascii(s.drop_first());
        assert forall|i: int| 0 <= i < escape_bytes_spec(s).len() implies escape_bytes_spec(s)[i] < 128 by {
            let head = escape_byte(s.first());
            if i < head.len() {
                assert(escape_bytes_spec(s)[i] == head[i]);
            } else {
                assert(escape_bytes_spec(s)[i] == escape_bytes_spec(s.drop_first())[i - head.len()]);
            }
        }
    }
}

/// Applies the escape-mode transform, byte for byte.
pub fn escape_bytes(input: &Vec<u8>) -> (out: Vec<u8>)
    ensures
        out@ == escape_bytes_spec(input@),
{
    let mut out: Vec<u8> = Vec::new();
    let mut i: usize = 0;
    while i < input.len()
        invariant
            i <= input.len(),
            out@ == escape_bytes_spec(input@.take(i as int)),
        decreases input.len() - i,
    {
        let b = input[i];
        proof {
            lemma_escape_bytes_add(input@.take(i as int), seq![input@[i as int]]);
            assert(input@.take(i + 1) =~= input@.take(i as int) + seq![input@[i as int]]);
            let x = input@[i as int];
            assert(seq![x].drop_first() =~= Seq::<u8>::empty());
            assert(escape_bytes_spec(Seq::<u8>::empty()) == Seq::<u8>::empty());
            assert(escape_bytes_spec(seq![x]) == escape_byte(x) + Seq::<u8>::empty());
            assert(escape_byte(x) + Seq::<u8>::empty() =~= escape_byte(x));
        }
        if b == 127 {
            out.push(CARET);
            out.push(QUESTION);
        } else if b < 128 {
            out.push(b);
        } else if b < 160 {
            out.push(UPPER_M);
            out.push(DASH);
            out.push(CARET);
            out.push(b - 64);
        } else if b < 255 {
            out.push(UPPER_M);
            out.push(DASH);
            out.push(b - 128);
        } else {
            out.push(UPPER_M);
            out.push(DASH);
            out.push(CARET);
            out.push(QUESTION);
        }
        i = i + 1;
        proof {
            assert(out@ =~= escape_bytes_spec(input@.take(i as int)));
        }
    }
    proof {
        assert(input@.take(input@.len() as int) =~= input@);
    }
    out
}

} // verus!
