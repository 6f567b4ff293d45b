use vstd::prelude::*;

verus! {

/// The immutable configuration of one run: the sources to read, in
/// order (`-` names standard input), and the three mode flags.
pub struct Config {
    files: Vec<String>,
    number_lines: bool,
    number_nonblank_lines: bool,
    display_d: bool,
}

impl Config {
    /// The ordered source identifiers.
    pub closed spec fn spec_files(&self) -> Seq<String> {
        self.files@
    }

    /// Whether every line is numbered.
    pub closed spec fn spec_number_lines(&self) -> bool {
        self.number_lines
    }

    /// Whether only non-blank lines are numbered.
    pub closed spec fn spec_number_nonblank_lines(&self) -> bool {
        self.number_nonblank_lines
    }

    /// Whether non-printable bytes are rendered visibly, with `$` at
    /// each line end.
    pub closed spec fn spec_display_d(&self) -> bool {
        self.display_d
    }

    /// The configuration invariant: the two numbering flags are
    /// mutually exclusive.
    pub closed spec fn wf(&self) -> bool {
        !(self.number_lines && self.number_nonblank_lines)
    }

    /// Builds a configuration, refusing the one combination the
    /// invariant forbids: both numbering flags at once.
    pub fn new(
        files: Vec<String>,
        number_lines: bool,
        number_nonblank_lines: bool,
        display_d: bool,
    ) -> (r: Option<Config>)
        ensures
            r is Some <==> !(number_lines && number_nonblank_lines),
            match r {
                Some(c) => c.wf() && c.spec_files() == files@ && c.spec_number_lines()
                    == number_lines && c.spec_number_nonblank_lines() == number_nonblank_lines
                    && c.spec_display_d() == display_d,
                None => true,
            },
    {
        if number_lines && number_nonblank_lines {
            None
        } else {
            Some(
                Config {
                    files,
                    number_lines,
                    number_nonblank_lines,
                    display_d,
                },
            )
        }
    }

    /// The ordered source identifiers.
    pub fn files(&self) -> (r: &Vec<String>)
        ensures
            r@ == self.spec_files(),
    {
        &self.files
    }

    /// Whether every line is numbered.
    pub fn number_lines(&self) -> (r: bool)
        ensures
            r == self.spec_number_lines(),
    {
        self.number_lines
    }

    /// Whether only non-blank lines are numbered.
    pub fn number_nonblank_lines(&self) -> (r: bool)
        ensures
            r == self.spec_number_nonblank_lines(),
    {
        self.number_nonblank_lines
    }

    /// Whether escape mode is on.
    pub fn display_d(&self) -> (r: bool)
        ensures
            r == self.spec_display_d(),
    {
        self.display_d
    }
}

} // verus!
