//! The escape sequences that are written to the terminal, and decimal numbers
//! as they stand inside them.

use vstd::prelude::*;

verus! {

/// Moves the cursor up; the number of lines stands between the two parts.
pub const ANSI_CURSOR_UP_OPEN: &'static str = "\x1b[";

pub const ANSI_CURSOR_UP_CLOSE: &'static str = "A";

pub const ANSI_CURSOR_HIDE: &'static str = "\x1b[?25l";

pub const ANSI_CURSOR_SHOW: &'static str = "\x1b[?25h";

/// Background of a transparent upper pixel: the terminal's own colours.
pub const ANSI_BG_TRANSPARENT_COLOR: &'static str = "\x1b[0;39;49m";

/// Opens a truecolor background; red, green and blue follow, then `ANSI_BG_RGB_CLOSE`.
pub const ANSI_BG_RGB_OPEN: &'static str = "\x1b[48;2;";

pub const ANSI_BG_RGB_CLOSE: &'static str = "m";

/// A transparent lower pixel: plain styling and a space.
pub const ANSI_FG_TRANSPARENT_COLOR: &'static str = "\x1b[0m ";

/// Opens a truecolor foreground; red, green and blue follow, then `ANSI_FG_RGB_CLOSE`.
pub const ANSI_FG_RGB_OPEN: &'static str = "\x1b[38;2;";

/// Ends the foreground colour and draws the lower half block.
pub const ANSI_FG_RGB_CLOSE: &'static str = "m\u{2584}";

pub const ANSI_RESET: &'static str = "\x1b[0m";

/// Stands between two colour channels.
pub const ANSI_SEPARATOR: &'static str = ";";

pub const LINE_BREAK: &'static str = "\n";

/// The character of one decimal digit.
pub open spec fn digit_char(d: int) -> char
    recommends
        0 <= d < 10,
{
    if d == 0 {
        '0'
    } else if d == 1 {
        '1'
    } else if d == 2 {
        '2'
    } else if d == 3 {
        '3'
    } else if d == 4 {
        '4'
    } else if d == 5 {
        '5'
    } else if d == 6 {
        '6'
    } else if d == 7 {
        '7'
    } else if d == 8 {
        '8'
    } else {
        '9'
    }
}

/// A number written in base ten, with no sign and no leading zero.
pub open spec fn decimal(n: nat) -> Seq<char>
    decreases n,
{
    if n < 10 {
        seq![digit_char(n as int)]
    } else {
        decimal(n / 10).push(digit_char((n % 10) as int))
    }
}

/// The text of one digit.
fn digit_text(d: u64) -> (text: &'static str)
    requires
        d < 10,
    ensures
        text@ == seq![digit_char(d as int)],
{
    proof {
        reveal_strlit("0");
        reveal_strlit("1");
        reveal_strlit("2");
        reveal_strlit("3");
        reveal_strlit("4");
        reveal_strlit("5");
        reveal_strlit("6");
        reveal_strlit("7");
        reveal_strlit("8");
        reveal_strlit("9");
    }
    let text = if d == 0 {
        "0"
    } else if d == 1 {
        "1"
    } else if d == 2 {
        "2"
    } else if d == 3 {
        "3"
    } else if d == 4 {
        "4"
    } else if d == 5 {
        "5"
    } else if d == 6 {
        "6"
    } else if d == 7 {
        "7"
    } else if d == 8 {
        "8"
    } else {
        "9"
    };
    assert(text@ =~= seq![digit_char(d as int)]);
    text
}

/// Appends `n` in base ten to `out`.
pub fn push_decimal(out: &mut String, n: u64)
    ensures
        final(out)@ == old(out)@ + decimal(n as nat),
    decreases n,
{
    if n >= 10 {
        push_decimal(out, n / 10);
    }
    out.append(digit_text(n % 10));
    assert(out@ =~= old(out)@ + decimal(n as nat));
}

} // verus!
