//! The playback controller. It decides what is done to the terminal and in
//! which order; writing, sleeping and catching the interrupt are left to the
//! caller, who performs each action and reports how it went.
//!
//! A run hides the cursor, draws one frame or loops over the frames of an
//! animation until it is interrupted, and then always passes through the same
//! teardown: style reset, cursor shown, echo restored.

use vstd::prelude::*;
use crate::ansi::{
    decimal, push_decimal, ANSI_CURSOR_HIDE, ANSI_CURSOR_SHOW, ANSI_CURSOR_UP_CLOSE,
    ANSI_CURSOR_UP_OPEN, ANSI_RESET,
};
use crate::encode::texts;

verus! {

/// Frames per second of an animation.
pub const FPS: u64 = 15;

/// How long one frame of an animation stays, in milliseconds.
pub const FRAME_MILLIS: u64 = 1000 / FPS;

/// Lines that the exit hint adds below a frame.
pub const NUM_ADDITIONAL_LINES: usize = 2;

/// The hint that is printed below every frame of an animation unless silenced.
pub const EXIT_HINT: &'static str = "\npress `ctrl c` to exit\n";

/// Why a run did not end well.
#[derive(Clone, Copy, Debug, PartialEq, Eq, Structural)]
pub enum TerminalError {
    /// The handler for the interrupt signal could not be installed.
    SignalHandler,
    /// Writing to the terminal failed.
    Output,
}

impl TerminalError {
    /// A description for the user.
    pub fn message(&self) -> (text: String)
        ensures
            text@ == match *self {
                TerminalError::SignalHandler => "Failed to install the interrupt handler"@,
                TerminalError::Output => "Failed to write to the terminal"@,
            },
    {
        match self {
            TerminalError::SignalHandler => String::from_str(
                "Failed to install the interrupt handler",
            ),
            TerminalError::Output => String::from_str("Failed to write to the terminal"),
        }
    }
}

/// What the controller is waiting for.
#[derive(Clone, Copy, Debug, PartialEq, Eq, Structural)]
pub enum Phase {
    /// Nothing was asked for yet.
    Idle,
    /// Echo is being switched off.
    Silencing,
    /// The cursor is being hidden.
    Hiding,
    /// The interrupt handler is being installed.
    Arming,
    /// A frame is being written.
    Drawing,
    /// The frame stays on screen for its duration.
    Waiting,
    /// Style reset and cursor are being written.
    Resetting,
    /// Echo is being switched back on.
    Restoring,
    /// The run is over.
    Finished,
}

/// How the action that was asked for last went.
#[derive(Clone, Copy, Debug, PartialEq, Eq, Structural)]
pub enum Event {
    /// It was done. After a sleep: the interrupt flag still says "running".
    Completed,
    /// It could not be done.
    Failed,
    /// The sleep is over and the interrupt flag says "stopped".
    Interrupted,
}

/// What the caller is to do next.
#[derive(Clone, Copy, Debug, PartialEq, Eq, Structural)]
pub enum Action {
    /// Capture the terminal's mode and switch echo off.
    DisableEcho,
    /// Write `setup_text()`.
    HideCursor,
    /// Route the interrupt signal to a flag that starts as "running".
    InstallInterruptHandler,
    /// Write `frame_text` of the frame `index`, moving up `rewind` lines first.
    DrawFrame { index: usize, rewind: Option<usize> },
    /// Sleep, then report whether the interrupt flag still says "running".
    Sleep { millis: u64 },
    /// Write `teardown_text()`.
    ResetStyle,
    /// Put the captured mode of the terminal back.
    RestoreEcho,
    /// Stop; nothing is left to do.
    Finish { error: Option<TerminalError> },
}

/// What a run is given and never changes.
#[derive(Clone, Copy, Debug, PartialEq, Eq, Structural)]
pub struct Program {
    /// Number of encoded frames; one frame is a still image.
    pub frame_count: usize,
    /// Lines by which the cursor moves up before an animation frame is redrawn.
    pub redraw_lines: usize,
    /// Whether the exit hint is left out.
    pub silent: bool,
    /// Whether output goes to an interactive terminal.
    pub interactive: bool,
}

/// What changes while a run goes on.
#[derive(Clone, Copy, Debug, PartialEq, Eq, Structural)]
pub struct Control {
    pub phase: Phase,
    /// Echo was switched off and not yet restored.
    pub echo_off: bool,
    /// The frame that is drawn next or was drawn last.
    pub index: usize,
    /// The first failure of the run.
    pub error: Option<TerminalError>,
}

impl Program {
    /// A frame sequence is never empty.
    pub open spec fn wf(self) -> bool {
        self.frame_count >= 1
    }

    /// A still image is drawn once, an animation loops.
    pub open spec fn animated(self) -> bool {
        self.frame_count > 1
    }
}

impl Control {
    /// The state before anything was asked for.
    pub open spec fn start() -> Control {
        Control { phase: Phase::Idle, echo_off: false, index: 0, error: None }
    }

    /// The frame index stays inside the sequence.
    pub open spec fn wf(self, program: Program) -> bool {
        self.index < program.frame_count
    }

    /// The step into teardown: style and cursor are reset whatever happened.
    pub open spec fn wind_down(self, failure: Option<TerminalError>) -> (Control, Action) {
        (
            Control {
                phase: Phase::Resetting,
                error: if self.error is Some {
                    self.error
                } else {
                    failure
                },
                ..self
            },
            Action::ResetStyle,
        )
    }
}

/// The index of the frame after `index`, wrapping round at the end.
pub open spec fn following(program: Program, index: usize) -> usize {
    if index + 1 >= program.frame_count {
        0
    } else {
        (index + 1) as usize
    }
}

/// The decisions of the controller: from the state and the report on the last
/// action to the next state and the next action.
pub open spec fn advance(program: Program, control: Control, event: Event) -> (Control, Action) {
    match control.phase {
        Phase::Idle => if program.interactive {
            (Control { phase: Phase::Silencing, ..control }, Action::DisableEcho)
        } else {
            (Control { phase: Phase::Hiding, ..control }, Action::HideCursor)
        },
        Phase::Silencing => (
            Control { phase: Phase::Hiding, echo_off: true, ..control },
            Action::HideCursor,
        ),
        Phase::Hiding => if event == Event::Failed {
            control.wind_down(Some(TerminalError::Output))
        } else if program.animated() {
            (Control { phase: Phase::Arming, ..control }, Action::InstallInterruptHandler)
        } else {
            (
                Control { phase: Phase::Drawing, index: 0, ..control },
                Action::DrawFrame { index: 0, rewind: None },
            )
        },
        Phase::Arming => if event == Event::Failed {
            control.wind_down(Some(TerminalError::SignalHandler))
        } else {
            (
                Control { phase: Phase::Drawing, index: 0, ..control },
                Action::DrawFrame { index: 0, rewind: None },
            )
        },
        Phase::Drawing => if event == Event::Failed {
            control.wind_down(Some(TerminalError::Output))
        } else if program.animated() {
            (Control { phase: Phase::Waiting, ..control }, Action::Sleep { millis: FRAME_MILLIS })
        } else {
            control.wind_down(None)
        },
        Phase::Waiting => if event == Event::Completed {
            (
                Control { phase: Phase::Drawing, index: following(program, control.index), ..control },
                Action::DrawFrame {
                    index: following(program, control.index),
                    rewind: Some(program.redraw_lines),
                },
            )
        } else {
            control.wind_down(None)
        },
        Phase::Resetting => {
            let error = if control.error is None && event == Event::Failed {
                Some(TerminalError::Output)
            } else {
                control.error
            };
            if control.echo_off {
                (
                    Control { phase: Phase::Restoring, echo_off: false, error, ..control },
                    Action::RestoreEcho,
                )
            } else {
                (Control { phase: Phase::Finished, error, ..control }, Action::Finish { error })
            }
        },
        Phase::Restoring => (
            Control { phase: Phase::Finished, ..control },
            Action::Finish { error: control.error },
        ),
        Phase::Finished => (control, Action::Finish { error: control.error }),
    }
}

/// The controller of one run.
pub struct Playback {
    program: Program,
    control: Control,
}

impl Playback {
    #[verifier::type_invariant]
    spec fn inv(self) -> bool {
        self.program.wf() && self.control.wf(self.program)
    }

    /// What the run was given.
    pub closed spec fn program(&self) -> Program {
        self.program
    }

    /// Where the run stands.
    pub closed spec fn control(&self) -> Control {
        self.control
    }

    /// A controller for `frame_count` encoded frames, the first of which has
    /// `first_frame_lines` lines. There is none for an empty sequence, nor where
    /// the number of lines to move up by does not fit the machine's integers.
    pub fn new(frame_count: usize, first_frame_lines: usize, silent: bool, interactive: bool) -> (made:
        Option<Playback>)
        ensures
            made is Some <==> frame_count >= 1 && redraw_height(first_frame_lines as nat, silent)
                <= usize::MAX,
            made matches Some(playback) ==> playback.control() == Control::start()
                && playback.program() == (Program {
                frame_count,
                redraw_lines: redraw_height(first_frame_lines as nat, silent) as usize,
                silent,
                interactive,
            }) && playback.program().wf(),
    {
        if frame_count == 0 {
            return None;
        }
        let extra: usize = if silent {
            0
        } else {
            NUM_ADDITIONAL_LINES
        };
        if first_frame_lines > usize::MAX - extra {
            return None;
        }
        let program = Program {
            frame_count,
            redraw_lines: first_frame_lines + extra,
            silent,
            interactive,
        };
        let control = Control { phase: Phase::Idle, echo_off: false, index: 0, error: None };
        Some(Playback { program, control })
    }

    /// Whether the run is over.
    pub fn is_finished(&self) -> (done: bool)
        ensures
            done == (self.control().phase == Phase::Finished),
    {
        self.control.phase == Phase::Finished
    }

    /// Whether the exit hint is printed below the frames of this run.
    pub fn shows_hint(&self) -> (hint: bool)
        ensures
            hint == (self.program().animated() && !self.program().silent),
    {
        self.program.frame_count > 1 && !self.program.silent
    }

    /// Takes the report on the last action and says what to do next. The first
    /// call starts the run, whatever it is given.
    pub fn step(&mut self, event: Event) -> (action: Action)
        ensures
            (final(self).control(), action) == advance(
                old(self).program(),
                old(self).control(),
                event,
            ),
            final(self).program() == old(self).program(),
            final(self).control().wf(final(self).program()),
    {
        proof {
            use_type_invariant(&*self);
        }
        let program = self.program;
        let control = self.control;
        let failed = event == Event::Failed;
        let animated = program.frame_count > 1;
        let (next, action) = match control.phase {
            Phase::Idle => if program.interactive {
                (Control { phase: Phase::Silencing, ..control }, Action::DisableEcho)
            } else {
                (Control { phase: Phase::Hiding, ..control }, Action::HideCursor)
            },
            Phase::Silencing => (
                Control { phase: Phase::Hiding, echo_off: true, ..control },
                Action::HideCursor,
            ),
            Phase::Hiding => if failed {
                wind_down(control, Some(TerminalError::Output))
            } else if animated {
                (Control { phase: Phase::Arming, ..control }, Action::InstallInterruptHandler)
            } else {
                (
                    Control { phase: Phase::Drawing, index: 0, ..control },
                    Action::DrawFrame { index: 0, rewind: None },
                )
            },
            Phase::Arming => if failed {
                wind_down(control, Some(TerminalError::SignalHandler))
            } else {
                (
                    Control { phase: Phase::Drawing, index: 0, ..control },
                    Action::DrawFrame { index: 0, rewind: None },
                )
            },
            Phase::Drawing => if failed {
                wind_down(control, Some(TerminalError::Output))
            } else if animated {
                (
                    Control { phase: Phase::Waiting, ..control },
                    Action::Sleep { millis: FRAME_MILLIS },
                )
            } else {
                wind_down(control, None)
            },
            Phase::Waiting => if event == Event::Completed {
                let index: usize = if control.index + 1 >= program.frame_count {
                    0
                } else {
                    control.index + 1
                };
                (
                    Control { phase: Phase::Drawing, index, ..control },
                    Action::DrawFrame { index, rewind: Some(program.redraw_lines) },
                )
            } else {
                wind_down(control, None)
            },
            Phase::Resetting => {
                let error = if control.error.is_none() && failed {
                    Some(TerminalError::Output)
                } else {
                    control.error
                };
                if control.echo_off {
                    (
                        Control { phase: Phase::Restoring, echo_off: false, error, ..control },
                        Action::RestoreEcho,
                    )
                } else {
                    (Control { phase: Phase::Finished, error, ..control }, Action::Finish { error })
                }
            },
            Phase::Restoring => (
                Control { phase: Phase::Finished, ..control },
                Action::Finish { error: control.error },
            ),
            Phase::Finished => (control, Action::Finish { error: control.error }),
        };
        self.control = next;
        action
    }
}

/// The step into teardown, keeping the first failure of the run.
fn wind_down(control: Control, failure: Option<TerminalError>) -> (next: (Control, Action))
    ensures
        next == control.wind_down(failure),
{
    let error = if control.error.is_some() {
        control.error
    } else {
        failure
    };
    (Control { phase: Phase::Resetting, error, ..control }, Action::ResetStyle)
}

/// Lines between the end of one animation frame and the start of the next: the
/// lines of the frame, and those of the exit hint unless it is silenced.
pub open spec fn redraw_height(frame_lines: nat, silent: bool) -> nat {
    if silent {
        frame_lines
    } else {
        frame_lines + NUM_ADDITIONAL_LINES as nat
    }
}

/// The sequence that moves the cursor up by `lines` lines.
pub open spec fn cursor_up_text(lines: nat) -> Seq<char> {
    ANSI_CURSOR_UP_OPEN@ + decimal(lines) + ANSI_CURSOR_UP_CLOSE@
}

/// All lines one after the other.
pub open spec fn joined(lines: Seq<Seq<char>>) -> Seq<char>
    decreases lines.len(),
{
    if lines.len() == 0 {
        Seq::empty()
    } else {
        joined(lines.drop_last()) + lines.last()
    }
}

/// What is written for one frame: the cursor moves up where the frame replaces
/// an earlier one, the lines follow in order, then the exit hint where wanted.
pub open spec fn frame_text_of(lines: Seq<Seq<char>>, rewind: Option<usize>, hint: bool) -> Seq<
    char,
> {
    let up = match rewind {
        Some(n) => cursor_up_text(n as nat),
        None => Seq::empty(),
    };
    let tail = if hint {
        EXIT_HINT@
    } else {
        Seq::empty()
    };
    up + joined(lines) + tail
}

/// The sequence that moves the cursor up by `lines` lines.
pub fn cursor_up(lines: usize) -> (text: String)
    ensures
        text@ == cursor_up_text(lines as nat),
{
    let mut text = String::from_str(ANSI_CURSOR_UP_OPEN);
    push_decimal(&mut text, lines as u64);
    text.append(ANSI_CURSOR_UP_CLOSE);
    text
}

/// What is written before the first frame: the cursor is hidden, and nothing else.
pub fn setup_text() -> (text: String)
    ensures
        text@ == ANSI_CURSOR_HIDE@,
{
    String::from_str(ANSI_CURSOR_HIDE)
}

/// What is written at the end of every run: styles are reset, the cursor is shown.
pub fn teardown_text() -> (text: String)
    ensures
        text@ == ANSI_RESET@ + ANSI_CURSOR_SHOW@,
{
    let mut text = String::from_str(ANSI_RESET);
    text.append(ANSI_CURSOR_SHOW);
    text
}

/// The text of one `DrawFrame` action.
pub fn frame_text(lines: &Vec<String>, rewind: Option<usize>, hint: bool) -> (text: String)
    ensures
        text@ == frame_text_of(texts(lines@), rewind, hint),
{
    let mut text = match rewind {
        Some(n) => cursor_up(n),
        None => String::new(),
    };
    let ghost up = text@;
    let mut i: usize = 0;
    while i < lines.len()
        invariant
            i <= lines@.len(),
            text@ == up + joined(texts(lines@).take(i as int)),
        decreases lines@.len() - i,
    {
        text.append(lines[i].as_str());
        proof {
            let upto = texts(lines@).take(i + 1);
            assert(upto.drop_last() =~= texts(lines@).take(i as int));
            assert(upto.last() == lines@[i as int]@);
            assert(text@ =~= up + joined(upto));
        }
        i = i + 1;
    }
    assert(texts(lines@).take(i as int) =~= texts(lines@));
    if hint {
        text.append(EXIT_HINT);
    }
    assert(text@ =~= frame_text_of(texts(lines@), rewind, hint));
    text
}

} // verus!
