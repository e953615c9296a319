use vstd::prelude::*;

verus! {

/// The Control Sequence Introducer that starts every sequence below.
pub const ESC: &'static str = "\x1b[";

pub const RESET: &'static str = "\x1b[0m";

pub const BOLD: &'static str = "\x1b[1m";

pub const DIM: &'static str = "\x1b[2m";

pub const FG_RED: &'static str = "\x1b[31m";

pub const FG_GREEN: &'static str = "\x1b[32m";

pub const FG_YELLOW: &'static str = "\x1b[33m";

pub const FG_BLUE: &'static str = "\x1b[34m";

pub const FG_MAGENTA: &'static str = "\x1b[35m";

pub const FG_CYAN: &'static str = "\x1b[36m";

pub const FG_GRAY: &'static str = "\x1b[90m";

pub const CLEAR_LINE: &'static str = "\x1b[2K";

pub const CURSOR_HIDE: &'static str = "\x1b[?25l";

pub const CURSOR_SHOW: &'static str = "\x1b[?25h";

} // verus!
