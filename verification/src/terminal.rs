//! What is decided about the terminal device: which size is worked with, and
//! which mode the device is put in while a picture is shown. Asking the device
//! and writing to it is the caller's part; the values travel as plain words.

use vstd::prelude::*;

verus! {

/// Columns of a terminal whose size is not known.
pub const DEFAULT_TERM_COLS: usize = 80;

/// Rows of a terminal whose size is not known.
pub const DEFAULT_TERM_ROWS: usize = 24;

/// What a window-size query of the terminal device left behind: the status
/// that the query returned and the two numbers that it filled in.
#[derive(Clone, Copy, Debug, PartialEq, Eq, Structural)]
pub struct WindowSize {
    pub status: i32,
    pub columns: u16,
    pub rows: u16,
}

/// The size that a query stands for: its numbers where it succeeded, the
/// fallback where it did not.
pub open spec fn reported_size(probe: WindowSize) -> (usize, usize) {
    if probe.status == 0 {
        (probe.columns as usize, probe.rows as usize)
    } else {
        (DEFAULT_TERM_COLS, DEFAULT_TERM_ROWS)
    }
}

/// Columns and rows of the terminal, from the answer to a window-size query.
pub fn get_terminal_size(probe: WindowSize) -> (size: (usize, usize))
    ensures
        size == reported_size(probe),
{
    if probe.status == 0 {
        (probe.columns as usize, probe.rows as usize)
    } else {
        (DEFAULT_TERM_COLS, DEFAULT_TERM_ROWS)
    }
}

/// Columns and rows of a console that has no window-size query: the fallback.
pub fn get_terminal_size_windows() -> (size: (usize, usize))
    ensures
        size == (DEFAULT_TERM_COLS, DEFAULT_TERM_ROWS),
{
    (DEFAULT_TERM_COLS, DEFAULT_TERM_ROWS)
}

/// The geometry that frames are scaled for: that of the terminal where output
/// goes to one, the fallback where output goes elsewhere.
pub fn ambient_geometry(interactive: bool, probe: WindowSize) -> (size: (usize, usize))
    ensures
        size == if interactive {
            reported_size(probe)
        } else {
            (DEFAULT_TERM_COLS, DEFAULT_TERM_ROWS)
        },
{
    if interactive {
        get_terminal_size(probe)
    } else {
        (DEFAULT_TERM_COLS, DEFAULT_TERM_ROWS)
    }
}

/// The two words of a terminal's mode that matter here: the flags of input
/// processing and the flags of the line discipline. A console with a single
/// mode word keeps it in `local_flags`.
#[derive(Clone, Copy, Debug, PartialEq, Eq, Structural)]
pub struct TermMode {
    pub input_flags: u64,
    pub local_flags: u64,
}

/// The platform's bits for the flags that are touched.
#[derive(Clone, Copy, Debug, PartialEq, Eq, Structural)]
pub struct ModeBits {
    /// Typed characters are echoed.
    pub echo: u64,
    /// Input is handed over line by line.
    pub canonical: u64,
    /// Interrupt characters raise their signals.
    pub signals: u64,
    /// A carriage return is read as a line break.
    pub cr_to_nl: u64,
}

/// The mode of a terminal while a picture is shown: echo is off, line input
/// and signals are on, carriage returns are read as line breaks. Every other
/// flag stays as it is.
pub open spec fn quiet(mode: TermMode, bits: ModeBits) -> TermMode {
    TermMode {
        input_flags: mode.input_flags | bits.cr_to_nl,
        local_flags: ((mode.local_flags & !bits.echo) | bits.canonical) | bits.signals,
    }
}

/// The captured mode of a terminal, kept to put it back. It cannot be copied:
/// restoring uses it up.
#[derive(Debug)]
pub struct TermState {
    saved: TermMode,
}

impl TermState {
    /// The mode that was captured.
    pub closed spec fn saved(&self) -> TermMode {
        self.saved
    }

    /// Uses the token up and hands out the mode that the terminal is to be put
    /// back in.
    pub fn restore(self) -> (mode: TermMode)
        ensures
            mode == self.saved(),
    {
        self.saved
    }
}

/// Captures the mode `current` of the terminal and says which mode to put it
/// in so that typed characters are not echoed over the picture.
pub fn disable_echo(current: TermMode, bits: ModeBits) -> (change: (TermState, TermMode))
    ensures
        change.0.saved() == current,
        change.1 == quiet(current, bits),
{
    let local = ((current.local_flags & !bits.echo) | bits.canonical) | bits.signals;
    let input = current.input_flags | bits.cr_to_nl;
    (TermState { saved: current }, TermMode { input_flags: input, local_flags: local })
}

/// What a query of the terminal's mode left behind: the status that the
/// query returned and the mode that it filled in.
#[derive(Clone, Copy, Debug, PartialEq, Eq, Structural)]
pub struct ModeQuery {
    pub status: i32,
    pub mode: TermMode,
}

/// Switches echo off where the mode of the terminal could be read: the mode
/// that was read is captured and the quiet mode is to be set. Where the query
/// failed the terminal is left alone: nothing is to be set and there is
/// nothing to restore.
pub fn silence(query: ModeQuery, bits: ModeBits) -> (change: Option<(TermState, TermMode)>)
    ensures
        change is Some <==> query.status == 0,
        change matches Some(found) ==> found.0.saved() == query.mode && found.1 == quiet(
            query.mode,
            bits,
        ),
{
    if query.status == 0 {
        Some(disable_echo(query.mode, bits))
    } else {
        None
    }
}

/// The quiet mode does what it is for. Where the echo bits are none of the
/// bits that are switched on, echo is off in the quiet mode; line input,
/// signals and the reading of carriage returns are on; and every bit beside
/// these four flags is as it was.
pub proof fn lemma_quiet_mode(mode: TermMode, bits: ModeBits)
    requires
        bits.echo & (bits.canonical | bits.signals) == 0,
    ensures
        quiet(mode, bits).local_flags & bits.echo == 0,
        quiet(mode, bits).local_flags & bits.canonical == bits.canonical,
        quiet(mode, bits).local_flags & bits.signals == bits.signals,
        quiet(mode, bits).input_flags & bits.cr_to_nl == bits.cr_to_nl,
        quiet(mode, bits).local_flags & !(bits.echo | bits.canonical | bits.signals)
            == mode.local_flags & !(bits.echo | bits.canonical | bits.signals),
        quiet(mode, bits).input_flags & !bits.cr_to_nl == mode.input_flags & !bits.cr_to_nl,
{
    let l = mode.local_flags;
    let i = mode.input_flags;
    let e = bits.echo;
    let c = bits.canonical;
    let s = bits.signals;
    let n = bits.cr_to_nl;
    assert((((l & !e) | c) | s) & e == 0) by (bit_vector)
        requires
            e & (c | s) == 0,
    ;
    assert((((l & !e) | c) | s) & c == c) by (bit_vector);
    assert((((l & !e) | c) | s) & s == s) by (bit_vector);
    assert((i | n) & n == n) by (bit_vector);
    assert((((l & !e) | c) | s) & !(e | c | s) == l & !(e | c | s)) by (bit_vector);
    assert((i | n) & !n == i & !n) by (bit_vector);
}

} // verus!
