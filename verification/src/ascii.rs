use vstd::prelude::*;

verus! {

/// The ASCII bytes the renderer writes by name: line structure
/// (newline, carriage return, tab, space) and the characters of the
/// escape notation (`^?`, `M-`, the `$` end-of-line marker) and of the
/// decode-error marker and the open-error separator.
pub const NL: u8 = 10;

pub const CR: u8 = 13;

pub const TAB: u8 = 9;

pub const SPACE: u8 = 32;

pub const DOLLAR: u8 = 36;

pub const CARET: u8 = 94;

pub const QUESTION: u8 = 63;

pub const UPPER_M: u8 = 77;

pub const DASH: u8 = 45;

pub const COLON: u8 = 58;

pub const ZERO: u8 = 48;

pub const UPPER_E: u8 = 69;

pub const LOWER_R: u8 = 114;

pub const LOWER_O: u8 = 111;

} // verus!
