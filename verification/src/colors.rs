//! The escape sequences that colour the program's output.

use vstd::prelude::*;
use vstd::string::StringExecFns;

verus! {

pub const CLEAR: &'static str = "\x1b[0m";

pub const BOLD: &'static str = "\x1b[1m";

pub const RED: &'static str = "\x1b[31m";

pub const GREEN: &'static str = "\x1b[32m";

pub const BLUE: &'static str = "\x1b[34m";

pub const CYAN: &'static str = "\x1b[36m";

pub const WHITE: &'static str = "\x1b[37m";

pub const GREY: &'static str = "\x1b[90m";

pub const YELLOW_L: &'static str = "\x1b[93m";

/// `text` between `color` and `CLEAR`.
pub open spec fn painted(color: Seq<char>, text: Seq<char>) -> Seq<char> {
    color + text + CLEAR@
}

/// Puts `text` between `color` and `CLEAR`.
pub fn paint(color: &str, text: &str) -> (r: String)
    ensures
        r@ == painted(color@, text@),
{
    let mut r: String = String::from_str(color);
    r.append(text);
    r.append(CLEAR);
    r
}

} // verus!
