use vstd::prelude::*;

use crate::ascii::DOLLAR;
use crate::numfmt::numbered;
use crate::render::{
    dollar_line, line_is_text, render_escaped_spec, render_plain_spec, text_of, InputLine,
};
use crate::run::{open_error_line_spec, run_err_spec, run_out_spec, SourceInput};

verus! {

/// Plain passthrough law: with neither numbering flag set, every line
/// that decoded is printed unchanged, so for a source of decodable
/// lines the output is the input.
pub proof fn lemma_plain_mode_identity(lines: Seq<InputLine>)
    requires
        forall|i: int| 0 <= i < lines.len() ==> line_is_text(lines[i]),
    ensures
        render_plain_spec(lines, false, false, 0) == lines.map_values(|l: InputLine| text_of(l)),
    decreases lines.len(),
{
    if lines.len() == 0 {
        assert(render_plain_spec(lines, false, false, 0)
            =~= lines.map_values(|l: InputLine| text_of(l)));
    } else {
        lemma_plain_mode_identity(lines.drop_first());
        assert(render_plain_spec(lines, false, false, 0)
            =~= lines.map_values(|l: InputLine| text_of(l)));
    }
}

/// Full-numbering helper: starting from counter `cnt`, the output has
/// one line per decodable input line and the line at offset `i`
/// carries counter value `cnt + i + 1`.
proof fn lemma_full_numbering_from(lines: Seq<InputLine>, cnt: nat)
    requires
        forall|i: int| 0 <= i < lines.len() ==> line_is_text(lines[i]),
    ensures
        render_plain_spec(lines, true, false, cnt).len() == lines.len(),
        forall|i: int| #![auto] 0 <= i < lines.len() ==> render_plain_spec(lines, true, false, cnt)[i]
            == numbered((cnt + i + 1) as nat, text_of(lines[i])),
    decreases lines.len(),
{
    if lines.len() > 0 {
        lemma_full_numbering_from(lines.drop_first(), cnt + 1);
    }
}

/// Numbering law: in full-numbering mode the Nth printed line of a
/// source of decodable lines carries counter value N, 1-indexed; the
/// counter starts afresh with every source.
pub proof fn lemma_full_numbering(lines: Seq<InputLine>)
    requires
        forall|i: int| 0 <= i < lines.len() ==> line_is_text(lines[i]),
    ensures
        render_plain_spec(lines, true, false, 0).len() == lines.len(),
        forall|i: int| #![auto] 0 <= i < lines.len() ==> render_plain_spec(lines, true, false, 0)[i]
            == numbered((i + 1) as nat, text_of(lines[i])),
{
    lemma_full_numbering_from(lines, 0);
}

/// The number of non-blank lines among the first `k` of `lines`.
pub open spec fn nonblank_count(lines: Seq<InputLine>, k: int) -> nat
    decreases k,
{
    if k <= 0 || lines.len() == 0 {
        0
    } else {
        (if text_of(lines.first()).len() > 0 {
            1nat
        } else {
            0nat
        }) + nonblank_count(lines.drop_first(), k - 1)
    }
}

/// Non-blank numbering helper, generalized over the starting counter.
proof fn lemma_nonblank_numbering_from(lines: Seq<InputLine>, cnt: nat)
    requires
        forall|i: int| 0 <= i < lines.len() ==> line_is_text(lines[i]),
    ensures
        render_plain_spec(lines, false, true, cnt).len() == lines.len(),
        forall|i: int| #![auto] 0 <= i < lines.len() && text_of(lines[i]).len() == 0
            ==> render_plain_spec(lines, false, true, cnt)[i] == text_of(lines[i]),
        forall|i: int| #![auto] 0 <= i < lines.len() && text_of(lines[i]).len() > 0
            ==> render_plain_spec(lines, false, true, cnt)[i] == numbered(
            cnt + nonblank_count(lines, i + 1),
            text_of(lines[i]),
        ),
    decreases lines.len(),
{
    if lines.len() > 0 {
        if text_of(lines.first()).len() > 0 {
            lemma_nonblank_numbering_from(lines.drop_first(), cnt + 1);
        } else {
            lemma_nonblank_numbering_from(lines.drop_first(), cnt);
        }
    }
}

/// Non-blank numbering law: a blank line is printed unchanged and
/// never advances the counter; a non-blank line carries the number of
/// non-blank lines seen so far, itself included.
pub proof fn lemma_nonblank_numbering(lines: Seq<InputLine>)
    requires
        forall|i: int| 0 <= i < lines.len() ==> line_is_text(lines[i]),
    ensures
        render_plain_spec(lines, false, true, 0).len() == lines.len(),
        forall|i: int| #![auto] 0 <= i < lines.len() && text_of(lines[i]).len() == 0
            ==> render_plain_spec(lines, false, true, 0)[i] == text_of(lines[i]),
        forall|i: int| #![auto] 0 <= i < lines.len() && text_of(lines[i]).len() > 0
            ==> render_plain_spec(lines, false, true, 0)[i] == numbered(
            nonblank_count(lines, i + 1),
            text_of(lines[i]),
        ),
{
    lemma_nonblank_numbering_from(lines, 0);
}

/// Escape-mode law: every rendered line is non-empty and ends with
/// the `$` marker.
pub proof fn lemma_escaped_lines_end_in_dollar(s: Seq<u8>, number_all: bool)
    ensures
        forall|i: int| #![auto] 0 <= i < render_escaped_spec(s, number_all).len()
            ==> render_escaped_spec(s, number_all)[i].len() > 0 && render_escaped_spec(
            s,
            number_all,
        )[i].last() == DOLLAR,
{
    let rendered = render_escaped_spec(s, number_all);
    assert forall|i: int| 0 <= i < rendered.len() implies #[trigger] rendered[i].len() > 0
        && rendered[i].last() == DOLLAR by {
        let l = crate::lines::split_lines_spec(crate::escape::escape_bytes_spec(s))[i];
        assert(rendered[i] == dollar_line(l, number_all, (i + 1) as nat));
        let content = l.push(DOLLAR);
        assert(content.last() == DOLLAR);
        if number_all {
            let full = numbered((i + 1) as nat, content);
            assert(full.last() == DOLLAR);
        }
    }
}

/// Empty-source law: a source with no lines and no bytes renders to
/// no output lines, whatever the mode.
pub proof fn lemma_empty_source_renders_nothing(number_all: bool, number_nonblank: bool)
    ensures
        render_plain_spec(Seq::<InputLine>::empty(), number_all, number_nonblank, 0)
            == Seq::<Seq<u8>>::empty(),
        render_escaped_spec(Seq::<u8>::empty(), number_all) == Seq::<Seq<u8>>::empty(),
{
    assert(crate::escape::escape_bytes_spec(Seq::<u8>::empty()) == Seq::<u8>::empty());
    assert(render_escaped_spec(Seq::<u8>::empty(), number_all)
        =~= Seq::<Seq<u8>>::empty());
}

/// A run renders source lists compositionally: the output and error
/// lines of a concatenation are the concatenations of each part's.
pub proof fn lemma_run_concat(a: Seq<SourceInput>, b: Seq<SourceInput>, number_all: bool, number_nonblank: bool)
    ensures
        run_out_spec(a + b, number_all, number_nonblank) == run_out_spec(a, number_all, number_nonblank)
            + run_out_spec(b, number_all, number_nonblank),
        run_err_spec(a + b) == run_err_spec(a) + run_err_spec(b),
    decreases a.len(),
{
    if a.len() == 0 {
        assert(a + b =~= b);
        assert(run_out_spec(a, number_all, number_nonblank) + run_out_spec(b, number_all, number_nonblank)
            =~= run_out_spec(b, number_all, number_nonblank));
        assert(run_err_spec(a) + run_err_spec(b) =~= run_err_spec(b));
    } else {
        lemma_run_concat(a.drop_first(), b, number_all, number_nonblank);
        assert((a + b).drop_first() =~= a.drop_first() + b);
        assert((a + b).first() == a.first());
        let head_out = match a.first() {
            SourceInput::Failed(_, _) => Seq::<Seq<u8>>::empty(),
            SourceInput::Lines(ls) => render_plain_spec(ls@, number_all, number_nonblank, 0),
            SourceInput::Bytes(bs) => render_escaped_spec(bs@, number_all),
        };
        assert(head_out + (run_out_spec(a.drop_first(), number_all, number_nonblank)
            + run_out_spec(b, number_all, number_nonblank))
            =~= (head_out + run_out_spec(a.drop_first(), number_all, number_nonblank))
                + run_out_spec(b, number_all, number_nonblank));
        let head_err = match a.first() {
            SourceInput::Failed(id, msg) => seq![open_error_line_spec(id@, msg@)],
            SourceInput::Lines(_) => Seq::<Seq<u8>>::empty(),
            SourceInput::Bytes(_) => Seq::<Seq<u8>>::empty(),
        };
        assert(head_err + (run_err_spec(a.drop_first()) + run_err_spec(b))
            =~= (head_err + run_err_spec(a.drop_first())) + run_err_spec(b));
    }
}

/// Skip-bad-file law: a source that failed to open contributes
/// nothing to standard output — the other sources print exactly what
/// they would print without it — and exactly its own line to the
/// error stream.
pub proof fn lemma_failed_source_skipped(
    before: Seq<SourceInput>,
    id: Vec<u8>,
    msg: Vec<u8>,
    after: Seq<SourceInput>,
    number_all: bool,
    number_nonblank: bool,
)
    ensures
        run_out_spec(before + seq![SourceInput::Failed(id, msg)] + after, number_all, number_nonblank)
            == run_out_spec(before + after, number_all, number_nonblank),
        run_err_spec(before + seq![SourceInput::Failed(id, msg)] + after) == run_err_spec(before)
            + seq![open_error_line_spec(id@, msg@)] + run_err_spec(after),
{
    let failed = seq![SourceInput::Failed(id, msg)];
    lemma_run_concat(before + failed, after, number_all, number_nonblank);
    lemma_run_concat(before, failed, number_all, number_nonblank);
    lemma_run_concat(before, after, number_all, number_nonblank);
    assert(failed.drop_first() =~= Seq::<SourceInput>::empty());
    assert(run_out_spec(Seq::<SourceInput>::empty(), number_all, number_nonblank)
        == Seq::<Seq<u8>>::empty());
    assert(run_err_spec(Seq::<SourceInput>::empty()) == Seq::<Seq<u8>>::empty());
    assert(run_out_spec(failed, number_all, number_nonblank) =~= Seq::<Seq<u8>>::empty());
    assert(run_err_spec(failed) =~= seq![open_error_line_spec(id@, msg@)]);
    assert(run_out_spec(before, number_all, number_nonblank) + Seq::<Seq<u8>>::empty()
        =~= run_out_spec(before, number_all, number_nonblank));
}

/// Multi-source law: with full numbering, a run over two sources of
/// decodable lines prints each source numbered from 1 — the second
/// source restarts at 1 instead of continuing the first's counter.
pub proof fn lemma_numbering_restarts_per_source(a: Vec<InputLine>, b: Vec<InputLine>)
    requires
        forall|i: int| 0 <= i < a@.len() ==> line_is_text(a@[i]),
        forall|i: int| 0 <= i < b@.len() ==> line_is_text(b@[i]),
        b@.len() > 0,
    ensures
        run_out_spec(seq![SourceInput::Lines(a), SourceInput::Lines(b)], true, false)
            == render_plain_spec(a@, true, false, 0) + render_plain_spec(b@, true, false, 0),
        render_plain_spec(b@, true, false, 0)[0] == numbered(1, text_of(b@[0])),
{
    let srcs = seq![SourceInput::Lines(a), SourceInput::Lines(b)];
    let sb = seq![SourceInput::Lines(b)];
    assert(srcs.drop_first() =~= sb);
    assert(sb.drop_first() =~= Seq::<SourceInput>::empty());
    assert(run_out_spec(Seq::<SourceInput>::empty(), true, false) == Seq::<Seq<u8>>::empty());
    assert(run_out_spec(sb, true, false) =~= render_plain_spec(b@, true, false, 0));
    lemma_full_numbering(b@);
}

} // verus!
