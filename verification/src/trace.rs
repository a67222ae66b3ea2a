//! Whole runs of the playback controller: the state that a sequence of
//! reports leads to, the actions that were asked for on the way, and what
//! holds of every run.

use vstd::prelude::*;
use crate::playback::{advance, Action, Control, Event, Phase, Program, TerminalError};

verus! {

/// The kinds of action, without what they carry.
#[derive(Clone, Copy, Debug, PartialEq, Eq, Structural)]
pub enum Kind {
    DisableEcho,
    HideCursor,
    InstallInterruptHandler,
    DrawFrame,
    Sleep,
    ResetStyle,
    RestoreEcho,
    Finish,
}

/// The kind of an action.
pub open spec fn kind_of(action: Action) -> Kind {
    match action {
        Action::DisableEcho => Kind::DisableEcho,
        Action::HideCursor => Kind::HideCursor,
        Action::InstallInterruptHandler => Kind::InstallInterruptHandler,
        Action::DrawFrame { .. } => Kind::DrawFrame,
        Action::Sleep { .. } => Kind::Sleep,
        Action::ResetStyle => Kind::ResetStyle,
        Action::RestoreEcho => Kind::RestoreEcho,
        Action::Finish { .. } => Kind::Finish,
    }
}

/// Where a run stands after the reports `events`, the first of which starts it.
pub open spec fn state_after(program: Program, events: Seq<Event>) -> Control
    decreases events.len(),
{
    if events.len() == 0 {
        Control::start()
    } else {
        advance(program, state_after(program, events.drop_last()), events.last()).0
    }
}

/// The actions that a run asked for, one per report, in order.
pub open spec fn actions_of(program: Program, events: Seq<Event>) -> Seq<Action>
    decreases events.len(),
{
    if events.len() == 0 {
        Seq::empty()
    } else {
        actions_of(program, events.drop_last()).push(
            advance(program, state_after(program, events.drop_last()), events.last()).1,
        )
    }
}

/// How many of the actions are of the given kind.
pub open spec fn tally(actions: Seq<Action>, kind: Kind) -> nat
    decreases actions.len(),
{
    if actions.len() == 0 {
        0
    } else {
        tally(actions.drop_last(), kind) + if kind_of(actions.last()) == kind {
            1nat
        } else {
            0nat
        }
    }
}

/// How many sleeps of a run ended with the interrupt flag still at "running".
pub open spec fn wakes(program: Program, events: Seq<Event>) -> nat
    decreases events.len(),
{
    if events.len() == 0 {
        0
    } else {
        wakes(program, events.drop_last()) + if state_after(program, events.drop_last()).phase
            == Phase::Waiting && events.last() == Event::Completed {
            1nat
        } else {
            0nat
        }
    }
}

/// The run is in teardown or over.
pub open spec fn winding_down(control: Control) -> bool {
    control.phase == Phase::Resetting || control.phase == Phase::Restoring || control.phase
        == Phase::Finished
}

/// One more report extends a run by one step.
proof fn lemma_one_more(program: Program, events: Seq<Event>, event: Event)
    ensures
        state_after(program, events.push(event)) == advance(
            program,
            state_after(program, events),
            event,
        ).0,
        actions_of(program, events.push(event)) == actions_of(program, events).push(
            advance(program, state_after(program, events), event).1,
        ),
        wakes(program, events.push(event)) == wakes(program, events) + if state_after(
            program,
            events,
        ).phase == Phase::Waiting && event == Event::Completed {
            1nat
        } else {
            0nat
        },
{
    assert(events.push(event).drop_last() =~= events);
}

/// One more action changes one tally by one.
proof fn lemma_tally_push(actions: Seq<Action>, action: Action, kind: Kind)
    ensures
        tally(actions.push(action), kind) == tally(actions, kind) + if kind_of(action) == kind {
            1nat
        } else {
            0nat
        },
{
    assert(actions.push(action).drop_last() =~= actions);
}

/// What the tallies of a run are in each phase.
spec fn accounted(program: Program, control: Control, actions: Seq<Action>) -> bool {
    let silenced = tally(actions, Kind::DisableEcho);
    let restored = tally(actions, Kind::RestoreEcho);
    let hidden = tally(actions, Kind::HideCursor);
    let reset = tally(actions, Kind::ResetStyle);
    let owed: nat = if program.interactive {
        1
    } else {
        0
    };
    match control.phase {
        Phase::Idle => silenced == 0 && restored == 0 && hidden == 0 && reset == 0
            && !control.echo_off,
        Phase::Silencing => program.interactive && silenced == 1 && restored == 0 && hidden == 0
            && reset == 0 && !control.echo_off,
        Phase::Hiding | Phase::Arming | Phase::Drawing | Phase::Waiting => silenced == owed
            && restored == 0 && hidden == 1 && reset == 0 && control.echo_off
            == program.interactive,
        Phase::Resetting => silenced == owed && restored == 0 && hidden == 1 && reset == 1
            && control.echo_off == program.interactive,
        Phase::Restoring => program.interactive && silenced == 1 && restored == 1 && hidden == 1
            && reset == 1 && !control.echo_off,
        Phase::Finished => silenced == owed && restored == owed && hidden == 1 && reset == 1
            && !control.echo_off,
    }
}

proof fn lemma_accounted(program: Program, events: Seq<Event>)
    requires
        program.wf(),
    ensures
        accounted(program, state_after(program, events), actions_of(program, events)),
    decreases events.len(),
{
    if events.len() > 0 {
        let before = events.drop_last();
        let event = events.last();
        lemma_accounted(program, before);
        let control = state_after(program, before);
        let actions = actions_of(program, before);
        let action = advance(program, control, event).1;
        lemma_tally_push(actions, action, Kind::DisableEcho);
        lemma_tally_push(actions, action, Kind::RestoreEcho);
        lemma_tally_push(actions, action, Kind::HideCursor);
        lemma_tally_push(actions, action, Kind::ResetStyle);
    }
}

/// The terminal is put back exactly once. In every run, whatever is reported
/// and however the run ends, echo is restored at most once and never without
/// having been switched off, and the style reset is written at most once and
/// never before the cursor was hidden. A run that is over has restored echo
/// exactly once if its output is an interactive terminal and not at all
/// otherwise, and has hidden the cursor and reset the style exactly once each.
pub proof fn lemma_terminal_is_restored_once(program: Program, events: Seq<Event>)
    requires
        program.wf(),
    ensures
        tally(actions_of(program, events), Kind::RestoreEcho) <= tally(
            actions_of(program, events),
            Kind::DisableEcho,
        ) <= 1,
        tally(actions_of(program, events), Kind::ResetStyle) <= tally(
            actions_of(program, events),
            Kind::HideCursor,
        ) <= 1,
        tally(actions_of(program, events), Kind::DisableEcho) == 1 ==> program.interactive,
        state_after(program, events).phase == Phase::Finished ==> {
            &&& tally(actions_of(program, events), Kind::RestoreEcho) == if program.interactive {
                1nat
            } else {
                0nat
            }
            &&& tally(actions_of(program, events), Kind::DisableEcho) == tally(
                actions_of(program, events),
                Kind::RestoreEcho,
            )
            &&& tally(actions_of(program, events), Kind::HideCursor) == 1
            &&& tally(actions_of(program, events), Kind::ResetStyle) == 1
            &&& !state_after(program, events).echo_off
        },
{
    lemma_accounted(program, events);
}

/// A failure never skips teardown. A failed write or a handler that cannot be
/// installed leads straight to the style reset, and from there the run is over
/// after at most two more reports, of whatever kind, with the first failure as
/// its result.
pub proof fn lemma_failure_leads_to_teardown(
    program: Program,
    control: Control,
    second: Event,
    third: Event,
)
    requires
        control.phase == Phase::Hiding || control.phase == Phase::Arming || control.phase
            == Phase::Drawing,
    ensures
        advance(program, control, Event::Failed).1 == Action::ResetStyle,
        advance(program, control, Event::Failed).0.error is Some,
        control.error is None ==> advance(program, control, Event::Failed).0.error == Some(
            if control.phase == Phase::Arming {
                TerminalError::SignalHandler
            } else {
                TerminalError::Output
            },
        ),
        ({
            let reset = advance(program, control, Event::Failed).0;
            let restore = advance(program, reset, second);
            let end = advance(program, restore.0, third);
            &&& control.echo_off ==> restore.1 == Action::RestoreEcho
            &&& end.0.phase == Phase::Finished
            &&& end.1 == Action::Finish { error: reset.error }
        }),
{
}

/// What the number of drawn frames is in each phase.
spec fn drawn(program: Program, control: Control, actions: Seq<Action>, woken: nat) -> bool {
    let frames = tally(actions, Kind::DrawFrame);
    match control.phase {
        Phase::Idle | Phase::Silencing | Phase::Hiding | Phase::Arming => frames == 0 && woken
            == 0,
        Phase::Drawing | Phase::Waiting => frames == woken + 1,
        _ => frames <= woken + 1,
    }
}

proof fn lemma_drawn(program: Program, events: Seq<Event>)
    requires
        program.wf(),
    ensures
        drawn(
            program,
            state_after(program, events),
            actions_of(program, events),
            wakes(program, events),
        ),
    decreases events.len(),
{
    if events.len() > 0 {
        let before = events.drop_last();
        lemma_drawn(program, before);
        let control = state_after(program, before);
        let action = advance(program, control, events.last()).1;
        lemma_tally_push(actions_of(program, before), action, Kind::DrawFrame);
    }
}

/// A run draws one frame to begin with and one more after every sleep that
/// was not interrupted: never more than that, and exactly that many while the
/// run is drawing or sleeping.
pub proof fn lemma_frames_follow_wakes(program: Program, events: Seq<Event>)
    requires
        program.wf(),
    ensures
        tally(actions_of(program, events), Kind::DrawFrame) <= wakes(program, events) + 1,
        state_after(program, events).phase == Phase::Drawing || state_after(
            program,
            events,
        ).phase == Phase::Waiting ==> tally(actions_of(program, events), Kind::DrawFrame)
            == wakes(program, events) + 1,
{
    lemma_drawn(program, events);
}

/// Once a run is in teardown it stays there and draws nothing more.
proof fn lemma_teardown_draws_nothing(program: Program, events: Seq<Event>, more: Seq<Event>)
    requires
        winding_down(state_after(program, events)),
    ensures
        winding_down(state_after(program, events + more)),
        tally(actions_of(program, events + more), Kind::DrawFrame) == tally(
            actions_of(program, events),
            Kind::DrawFrame,
        ),
    decreases more.len(),
{
    if more.len() == 0 {
        assert(events + more =~= events);
    } else {
        let shorter = events + more.drop_last();
        lemma_teardown_draws_nothing(program, events, more.drop_last());
        assert(events + more =~= shorter.push(more.last()));
        lemma_one_more(program, shorter, more.last());
        lemma_tally_push(
            actions_of(program, shorter),
            advance(program, state_after(program, shorter), more.last()).1,
            Kind::DrawFrame,
        );
    }
}

/// An interrupt ends the drawing. Where a run sleeps and the sleep ends with
/// the interrupt flag at "stopped", no frame is drawn from then on, whatever is
/// reported afterwards, and the run goes into teardown.
pub proof fn lemma_interrupt_ends_drawing(program: Program, before: Seq<Event>, after: Seq<Event>)
    requires
        program.wf(),
        state_after(program, before).phase == Phase::Waiting,
    ensures
        tally(
            actions_of(program, before.push(Event::Interrupted) + after),
            Kind::DrawFrame,
        ) == tally(actions_of(program, before), Kind::DrawFrame),
        winding_down(state_after(program, before.push(Event::Interrupted) + after)),
        actions_of(program, before.push(Event::Interrupted)).last() == Action::ResetStyle,
{
    let stopped = before.push(Event::Interrupted);
    lemma_one_more(program, before, Event::Interrupted);
    lemma_tally_push(
        actions_of(program, before),
        advance(program, state_after(program, before), Event::Interrupted).1,
        Kind::DrawFrame,
    );
    lemma_teardown_draws_nothing(program, stopped, after);
}

/// An animation that is interrupted during its first sleep has drawn exactly
/// one frame when it ends, whatever is reported after the interrupt.
pub proof fn lemma_interrupted_first_sleep_draws_one_frame(
    program: Program,
    before: Seq<Event>,
    after: Seq<Event>,
)
    requires
        program.wf(),
        state_after(program, before).phase == Phase::Waiting,
        wakes(program, before) == 0,
    ensures
        tally(
            actions_of(program, before.push(Event::Interrupted) + after),
            Kind::DrawFrame,
        ) == 1,
{
    lemma_frames_follow_wakes(program, before);
    lemma_interrupt_ends_drawing(program, before, after);
}

} // verus!
