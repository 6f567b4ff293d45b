use vstd::prelude::*;

use crate::ascii::{COLON, SPACE};
use crate::config::Config;
use crate::numfmt::push_all;
use crate::render::{render_escaped, render_escaped_spec, render_plain, render_plain_spec, InputLine};

verus! {

/// What opening and reading one source produced: the error of an open
/// that failed (identifier and message), a source read as decoded
/// lines for plain mode, or a source read as raw bytes for escape
/// mode.
pub enum SourceInput {
    Failed(Vec<u8>, Vec<u8>),
    Lines(Vec<InputLine>),
    Bytes(Vec<u8>),
}

/// Everything a run writes: the rendered lines for standard output
/// and one line per failed open for the error stream.
pub struct RunOutput {
    pub out: Vec<Vec<u8>>,
    pub errors: Vec<Vec<u8>>,
}

/// The error-stream line for a source that could not be opened:
/// `{identifier}: {message}`.
pub open spec fn open_error_line_spec(id: Seq<u8>, msg: Seq<u8>) -> Seq<u8> {
    id + seq![COLON, SPACE] + msg
}

/// The standard-output lines of a run: each source's rendering in
/// order, with the counter starting afresh for every source. A source
/// that failed to open contributes nothing.
pub open spec fn run_out_spec(
    srcs: Seq<SourceInput>,
    number_all: bool,
    number_nonblank: bool,
) -> Seq<Seq<u8>>
    decreases srcs.len(),
{
    if srcs.len() == 0 {
        Seq::empty()
    } else {
        (match srcs.first() {
            SourceInput::Failed(_, _) => Seq::empty(),
            SourceInput::Lines(ls) => render_plain_spec(ls@, number_all, number_nonblank, 0),
            SourceInput::Bytes(bs) => render_escaped_spec(bs@, number_all),
        }) + run_out_spec(srcs.drop_first(), number_all, number_nonblank)
    }
}

/// The error-stream lines of a run: one line per source that failed
/// to open, in source order.
pub open spec fn run_err_spec(srcs: Seq<SourceInput>) -> Seq<Seq<u8>>
    decreases srcs.len(),
{
    if srcs.len() == 0 {
        Seq::empty()
    } else {
        (match srcs.first() {
            SourceInput::Failed(id, msg) => seq![open_error_line_spec(id@, msg@)],
            SourceInput::Lines(_) => Seq::empty(),
            SourceInput::Bytes(_) => Seq::empty(),
        }) + run_err_spec(srcs.drop_first())
    }
}

/// Builds the error-stream line for a failed open.
pub fn open_error_line(id: &Vec<u8>, msg: &Vec<u8>) -> (out: Vec<u8>)
    ensures
        out@ == open_error_line_spec(id@, msg@),
{
    let mut out: Vec<u8> = Vec::new();
    push_all(&mut out, id);
    out.push(COLON);
    out.push(SPACE);
    push_all(&mut out, msg);
    proof {
        assert(out@ =~= open_error_line_spec(id@, msg@));
    }
    out
}

/// Appends every line of `src` to `dst`.
fn append_lines(dst: &mut Vec<Vec<u8>>, src: Vec<Vec<u8>>)
    ensures
        final(dst).deep_view() == old(dst).deep_view() + src.deep_view(),
{
    let mut i: usize = 0;
    while i < src.len()
        invariant
            i <= src.len(),
            dst.deep_view() == old(dst).deep_view() + src.deep_view().take(i as int),
        decreases src.len() - i,
    {
        let ghost prev_dv = dst.deep_view();
        let line = crate::numfmt::clone_bytes(&src[i]);
        dst.push(line);
        i = i + 1;
        proof {
            assert(dst.deep_view() =~~= prev_dv + seq![src@[i - 1].deep_view()]);
            assert(dst.deep_view() =~~= old(dst).deep_view() + src.deep_view().take(i as int));
        }
    }
    proof {
        assert(old(dst).deep_view() + src.deep_view().take(src@.len() as int)
            =~~= old(dst).deep_view() + src.deep_view());
    }
}

/// Renders a whole run: every source in order, each rendered under
/// the configuration's numbering flags with its own counter, failed
/// opens reported on the error stream and skipped — a bad source
/// never disturbs what the others print.
pub fn render_all(sources: &Vec<SourceInput>, config: &Config) -> (r: RunOutput)
    ensures
        r.out.deep_view() == run_out_spec(
            sources@,
            config.spec_number_lines(),
            config.spec_number_nonblank_lines(),
        ),
        r.errors.deep_view() == run_err_spec(sources@),
{
    let number_all = config.number_lines();
    let number_nonblank = config.number_nonblank_lines();
    let mut out: Vec<Vec<u8>> = Vec::new();
    let mut errors: Vec<Vec<u8>> = Vec::new();
    let mut i: usize = 0;
    proof {
        assert(sources@.skip(0) =~= sources@);
        assert(out.deep_view() + run_out_spec(sources@, number_all, number_nonblank)
            =~= run_out_spec(sources@, number_all, number_nonblank));
        assert(errors.deep_view() + run_err_spec(sources@) =~= run_err_spec(sources@));
    }
    while i < sources.len()
        invariant
            i <= sources.len(),
            run_out_spec(sources@, number_all, number_nonblank) == out.deep_view() + run_out_spec(
                sources@.skip(i as int),
                number_all,
                number_nonblank,
            ),
            run_err_spec(sources@) == errors.deep_view() + run_err_spec(sources@.skip(i as int)),
        decreases sources.len() - i,
    {
        let ghost rest = sources@.skip(i as int);
        let ghost prev_out = out.deep_view();
        let ghost prev_err = errors.deep_view();
        proof {
            assert(rest.first() == sources@[i as int]);
            assert(rest.drop_first() =~= sources@.skip(i + 1));
        }
        match &sources[i] {
            SourceInput::Failed(id, msg) => {
                let line = open_error_line(id, msg);
                errors.push(line);
                proof {
                    assert(errors.deep_view() =~~= prev_err + seq![
                        open_error_line_spec(id@, msg@),
                    ]);
                }
            },
            SourceInput::Lines(ls) => {
                let rendered = render_plain(ls, number_all, number_nonblank);
                append_lines(&mut out, rendered);
            },
            SourceInput::Bytes(bs) => {
                let rendered = render_escaped(bs, number_all);
                append_lines(&mut out, rendered);
            },
        }
        i = i + 1;
        proof {
            let tail_out = run_out_spec(sources@.skip(i as int), number_all, number_nonblank);
            let tail_err = run_err_spec(sources@.skip(i as int));
            let head_out = match rest.first() {
                SourceInput::Failed(_, _) => Seq::<Seq<u8>>::empty(),
                SourceInput::Lines(ls) => render_plain_spec(ls@, number_all, number_nonblank, 0),
                SourceInput::Bytes(bs) => render_escaped_spec(bs@, number_all),
            };
            assert(out.deep_view() =~~= prev_out + head_out);
            assert(prev_out + (head_out + tail_out) =~= (prev_out + head_out) + tail_out);
            let head_err = match rest.first() {
                SourceInput::Failed(id, msg) => seq![open_error_line_spec(id@, msg@)],
                SourceInput::Lines(_) => Seq::<Seq<u8>>::empty(),
                SourceInput::Bytes(_) => Seq::<Seq<u8>>::empty(),
            };
            assert(errors.deep_view() =~~= prev_err + head_err);
            assert(prev_err + (head_err + tail_err) =~= (prev_err + head_err) + tail_err);
        }
    }
    proof {
        assert(sources@.skip(sources@.len() as int) =~= Seq::<SourceInput>::empty());
        assert(out.deep_view() + Seq::<Seq<u8>>::empty() =~= out.deep_view());
        assert(errors.deep_view() + Seq::<Seq<u8>>::empty() =~= errors.deep_view());
    }
    RunOutput { out, errors }
}

} // verus!
