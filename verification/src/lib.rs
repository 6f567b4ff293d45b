//! A small `cat`-style line renderer, verified.
//!
//! The library is the core of a command-line text-display utility: it
//! numbers lines (all of them, or only the non-blank ones) and renders
//! non-printable bytes visibly in an escape mode that marks every line
//! end with `$`. Reading sources and writing streams is left to the
//! program around the library; everything here is pure and carries a
//! contract.

pub mod ascii;
pub mod config;
pub mod escape;
pub mod laws;
pub mod lines;
pub mod numfmt;
pub mod render;
pub mod run;

pub use escape::escape_bytes;
pub use lines::split_lines;
pub use numfmt::numbered_line;
pub use config::Config;
pub use render::{InputLine, render_escaped, render_plain};
pub use run::{open_error_line, render_all, RunOutput, SourceInput};
