//! Terminal colours.
use vstd::prelude::*;

verus! {

pub const GREEN: &'static str = "\x1b[32m";

pub const BLUE: &'static str = "\x1b[34m";

pub const CYAN: &'static str = "\x1b[36m";

pub const YELLOW: &'static str = "\x1b[33m";

pub const MAGENTA: &'static str = "\x1b[35m";

pub const RESET: &'static str = "\x1b[0m";

/// Whether output is coloured: as it was set at startup, and not before that.
pub fn color_enabled(setting: Option<bool>) -> (r: bool)
    ensures
        r == (setting == Some(true)),
{
    match setting {
        Some(on) => on,
        None => false,
    }
}

/// The code where output is coloured, nothing where it is not.
pub open spec fn paint(color: bool, code: Seq<char>) -> Seq<char> {
    if color {
        code
    } else {
        Seq::empty()
    }
}

/// `body` in the colour of `code`.
pub open spec fn painted(color: bool, code: Seq<char>, body: Seq<char>) -> Seq<char> {
    paint(color, code) + body + paint(color, RESET@)
}

/// Returns `code` where output is coloured, otherwise an empty string.
pub fn c(color: bool, code: &'static str) -> (r: &'static str)
    ensures
        r@ == paint(color, code@),
{
    if color {
        code
    } else {
        proof {
            reveal_strlit("");
        }
        assert(""@ =~= Seq::empty());
        ""
    }
}

/// Where output is not coloured, nothing is put around the text.
pub proof fn law_plain_output_is_untouched(code: Seq<char>, body: Seq<char>)
    ensures
        painted(false, code, body) == body,
{
    assert(painted(false, code, body) =~= body);
}

/// Where output is coloured, the text stands between the code of its colour and the code
/// that ends it.
pub proof fn law_coloured_output_is_framed(code: Seq<char>, body: Seq<char>)
    ensures
        painted(true, code, body) == code + body + seq!['\u{1b}', '[', '0', 'm'],
{
    reveal_strlit("\x1b[0m");
    assert(RESET@ =~= seq!['\u{1b}', '[', '0', 'm']);
}

} // verus!
