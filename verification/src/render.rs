use vstd::prelude::*;

use crate::ascii::{COLON, DOLLAR, LOWER_O, LOWER_R, SPACE, UPPER_E};
use crate::escape::{escape_bytes, escape_bytes_spec};
use crate::lines::{split_lines, split_lines_spec};
use crate::numfmt::{clone_bytes, numbered, numbered_line};

verus! {

/// One line handed to the plain-mode renderer: either its decoded
/// content, or the message of the decode failure it met.
pub enum InputLine {
    Text(Vec<u8>),
    Invalid(Vec<u8>),
}

/// Whether the line decoded.
pub open spec fn line_is_text(l: InputLine) -> bool {
    l is Text
}

/// The content of a decoded line.
pub open spec fn text_of(l: InputLine) -> Seq<u8> {
    l->Text_0@
}

/// The marker line emitted in place of a line that failed to decode:
/// `Error: ` followed by the failure message.
pub open spec fn error_marker(msg: Seq<u8>) -> Seq<u8> {
    seq![UPPER_E, LOWER_R, LOWER_R, LOWER_O, LOWER_R, COLON, SPACE] + msg
}

/// Plain-mode rendering of the remaining lines, with `cnt` numbered
/// lines already emitted for this source.
///
/// A line that failed to decode becomes its error marker and leaves
/// the counter alone. Otherwise: with `number_all`, every line is
/// numbered; with `number_nonblank`, a blank line is printed unchanged
/// and only a non-blank line takes the next counter value; with
/// neither flag, the line is printed unchanged.
pub open spec fn render_plain_spec(
    lines: Seq<InputLine>,
    number_all: bool,
    number_nonblank: bool,
    cnt: nat,
) -> Seq<Seq<u8>>
    decreases lines.len(),
{
    if lines.len() == 0 {
        Seq::empty()
    } else {
        let rest = lines.drop_first();
        match lines.first() {
            InputLine::Invalid(msg) => seq![error_marker(msg@)]
                + render_plain_spec(rest, number_all, number_nonblank, cnt),
            InputLine::Text(content) => if number_all {
                seq![numbered(cnt + 1, content@)]
                    + render_plain_spec(rest, number_all, number_nonblank, cnt + 1)
            } else if number_nonblank {
                if content@.len() == 0 {
                    seq![content@] + render_plain_spec(rest, number_all, number_nonblank, cnt)
                } else {
                    seq![numbered(cnt + 1, content@)]
                        + render_plain_spec(rest, number_all, number_nonblank, cnt + 1)
                }
            } else {
                seq![content@] + render_plain_spec(rest, number_all, number_nonblank, cnt)
            },
        }
    }
}

/// Builds the error marker line for a failed decode.
fn error_marker_line(msg: &Vec<u8>) -> (out: Vec<u8>)
    ensures
        out@ == error_marker(msg@),
{
    let mut out: Vec<u8> = Vec::new();
    out.push(UPPER_E);
    out.push(LOWER_R);
    out.push(LOWER_R);
    out.push(LOWER_O);
    out.push(LOWER_R);
    out.push(COLON);
    out.push(SPACE);
    crate::numfmt::push_all(&mut out, msg);
    proof {
        assert(out@ =~= error_marker(msg@));
    }
    out
}

/// Renders a source's lines in plain mode, under the numbering policy
/// the two flags select. The counter starts at zero for each call, so
/// numbering never carries over from one source to the next.
pub fn render_plain(lines: &Vec<InputLine>, number_all: bool, number_nonblank: bool) -> (out: Vec<
    Vec<u8>,
>)
    ensures
        out.deep_view() == render_plain_spec(lines@, number_all, number_nonblank, 0),
{
    let mut out: Vec<Vec<u8>> = Vec::new();
    let mut cnt: usize = 0;
    let mut i: usize = 0;
    proof {
        assert(lines@.skip(0) =~= lines@);
        assert(out.deep_view() + render_plain_spec(lines@, number_all, number_nonblank, 0)
            =~= render_plain_spec(lines@, number_all, number_nonblank, 0));
    }
    while i < lines.len()
        invariant
            cnt <= i <= lines.len(),
            render_plain_spec(lines@, number_all, number_nonblank, 0) == out.deep_view()
                + render_plain_spec(
                lines@.skip(i as int),
                number_all,
                number_nonblank,
                cnt as nat,
            ),
        decreases lines.len() - i,
    {
        let ghost prev_dv = out.deep_view();
        let ghost rest = lines@.skip(i as int);
        proof {
            assert(rest.first() == lines@[i as int]);
            assert(rest.drop_first() =~= lines@.skip(i + 1));
        }
        let ghost c0 = cnt as nat;
        let rendered: Vec<u8> = match &lines[i] {
            InputLine::Invalid(msg) => error_marker_line(msg),
            InputLine::Text(content) => {
                if number_all {
                    cnt = cnt + 1;
                    numbered_line(cnt, content)
                } else if number_nonblank {
                    if content.len() == 0 {
                        clone_bytes(content)
                    } else {
                        cnt = cnt + 1;
                        numbered_line(cnt, content)
                    }
                } else {
                    clone_bytes(content)
                }
            },
        };
        out.push(rendered);
        i = i + 1;
        proof {
            assert(render_plain_spec(rest, number_all, number_nonblank, c0) == seq![rendered@]
                + render_plain_spec(lines@.skip(i as int), number_all, number_nonblank, cnt as nat));
            assert(out.deep_view() =~~= prev_dv + seq![rendered@]);
            assert(prev_dv + (seq![rendered@] + render_plain_spec(
                lines@.skip(i as int),
                number_all,
                number_nonblank,
                cnt as nat,
            )) =~= (prev_dv + seq![rendered@]) + render_plain_spec(
                lines@.skip(i as int),
                number_all,
                number_nonblank,
                cnt as nat,
            ));
        }
    }
    proof {
        assert(lines@.skip(lines@.len() as int) =~= Seq::<InputLine>::empty());
        assert(out.deep_view() + Seq::<Seq<u8>>::empty() =~= out.deep_view());
    }
    out
}

/// One escape-mode output line: the line content with the `$` marker
/// appended, numbered when full numbering is on. Escape mode honors
/// only full numbering; the non-blank flag does not apply to it.
pub open spec fn dollar_line(l: Seq<u8>, number_all: bool, n: nat) -> Seq<u8> {
    if number_all {
        numbered(n, l.push(DOLLAR))
    } else {
        l.push(DOLLAR)
    }
}

/// Escape-mode rendering of a whole source: the byte transform, then
/// line splitting, then the `$` marker and optional numbering on each
/// line.
pub open spec fn render_escaped_spec(s: Seq<u8>, number_all: bool) -> Seq<Seq<u8>> {
    split_lines_spec(escape_bytes_spec(s)).map(
        |i: int, l: Seq<u8>| dollar_line(l, number_all, (i + 1) as nat),
    )
}

/// Renders a source's raw bytes in escape mode.
pub fn render_escaped(bytes: &Vec<u8>, number_all: bool) -> (out: Vec<Vec<u8>>)
    ensures
        out.deep_view() == render_escaped_spec(bytes@, number_all),
{
    let escaped = escape_bytes(bytes);
    let ls = split_lines(&escaped);
    let ghost lines_dv = ls.deep_view();
    let mut out: Vec<Vec<u8>> = Vec::new();
    let mut i: usize = 0;
    while i < ls.len()
        invariant
            i <= ls.len(),
            ls.deep_view() == lines_dv,
            ls@.len() == lines_dv.len(),
            out@.len() == i,
            forall|k: int| #![auto] 0 <= k < i ==> out.deep_view()[k] == dollar_line(
                lines_dv[k],
                number_all,
                (k + 1) as nat,
            ),
        decreases ls.len() - i,
    {
        proof {
            assert(ls@[i as int].deep_view() == lines_dv[i as int]);
        }
        let mut line = clone_bytes(&ls[i]);
        line.push(DOLLAR);
        proof {
            assert(line@ =~= lines_dv[i as int].push(DOLLAR));
        }
        let rendered: Vec<u8> = if number_all {
            numbered_line(i + 1, &line)
        } else {
            line
        };
        let ghost prev_dv = out.deep_view();
        out.push(rendered);
        i = i + 1;
        proof {
            assert(out.deep_view() =~~= prev_dv + seq![rendered@]);
            assert(rendered@ == dollar_line(lines_dv[i - 1], number_all, i as nat));
        }
    }
    proof {
        assert(out.deep_view() =~~= render_escaped_spec(bytes@, number_all));
    }
    out
}

} // verus!
