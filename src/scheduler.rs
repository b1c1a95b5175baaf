use vstd::prelude::*;
use crate::keyboard::{Keyboard, pressed_indices, refreshed};
use crate::keymap::{Keymap, decoded};

verus! {

/// The frame period at 60 Hz, in nanoseconds.
pub const FRAME_NS: u64 = 16_666_667;

/// The lifecycle of the display loop; `Terminating` is absorbing.
#[derive(Clone, Copy, Debug, PartialEq, Eq, Structural)]
pub enum SchedulerState {
    Running,
    Terminating,
}

/// What the windowing side reports to the loop.
#[derive(Clone, Copy, Debug, PartialEq, Eq, Structural)]
pub enum Event {
    /// The user asked to close the window (or interrupted the process).
    CloseRequested,
    /// All pending events are handled: time to sample and draw.
    FrameDue,
    /// Anything else.
    Other,
}

/// What the loop must do next.
#[derive(Clone, Copy, Debug, PartialEq, Eq, Structural)]
pub enum Action {
    /// Stop the loop and release the connection and the surface.
    Exit,
    /// Sample the keyboard, refresh the model, draw, then sleep until `wake_at`.
    Draw { wake_at: u64 },
    /// Sleep until `wake_at`.
    Wait { wake_at: u64 },
}

/// One frame after `now`, saturating at the end of the clock.
pub open spec fn deadline(now: u64) -> u64 {
    if now <= u64::MAX - FRAME_NS {
        (now + FRAME_NS) as u64
    } else {
        u64::MAX
    }
}

/// The next state and action of the loop on `event`, at time `now`.
pub open spec fn transition(state: SchedulerState, event: Event, now: u64) -> (SchedulerState, Action) {
    match state {
        SchedulerState::Terminating => (SchedulerState::Terminating, Action::Exit),
        SchedulerState::Running => match event {
            Event::CloseRequested => (SchedulerState::Terminating, Action::Exit),
            Event::FrameDue => (SchedulerState::Running, Action::Draw { wake_at: deadline(now) }),
            Event::Other => (SchedulerState::Running, Action::Wait { wake_at: deadline(now) }),
        },
    }
}

/// The next wake time: one frame after `now` (not after the previous wake).
pub fn next_deadline(now: u64) -> (r: u64)
    ensures
        r == deadline(now),
{
    if now <= u64::MAX - FRAME_NS {
        now + FRAME_NS
    } else {
        u64::MAX
    }
}

/// Decides the loop's next state and action.
pub fn step(state: SchedulerState, event: Event, now: u64) -> (r: (SchedulerState, Action))
    ensures
        r == transition(state, event, now),
{
    match state {
        SchedulerState::Terminating => (SchedulerState::Terminating, Action::Exit),
        SchedulerState::Running => match event {
            Event::CloseRequested => (SchedulerState::Terminating, Action::Exit),
            Event::FrameDue => (SchedulerState::Running, Action::Draw { wake_at: next_deadline(now) }),
            Event::Other => (SchedulerState::Running, Action::Wait { wake_at: next_deadline(now) }),
        },
    }
}

/// Once terminating, every further event leaves the loop terminating and exiting.
pub proof fn lemma_terminating_absorbs(events: Seq<Event>, now: u64)
    ensures
        forall|i: int|
            0 <= i < events.len() ==> transition(SchedulerState::Terminating, #[trigger] events[i], now)
                == (SchedulerState::Terminating, Action::Exit),
{
}

/// One frame's model work: decodes the sampled bitmap, refreshes every region
/// from it, and gives the indices of the pressed regions to draw. The model
/// is fully refreshed before anything is handed to the drawing side.
pub fn tick(keyboard: &mut Keyboard, keymap: &mut Keymap, raw: &[u8; 32]) -> (r: Vec<usize>)
    requires
        old(keyboard).wf(),
    ensures
        final(keymap).wf(),
        final(keymap)@ == decoded(raw@),
        final(keyboard).wf(),
        refreshed(*old(keyboard), *final(keyboard), decoded(raw@)),
        r@ == pressed_indices(final(keyboard).flags()),
{
    keymap.update_keymap(raw);
    keyboard.update(keymap);
    keyboard.pressed_regions()
}

} // verus!
