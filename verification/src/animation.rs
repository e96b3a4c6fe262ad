//! The frame loop as a state machine: the caller performs each action that
//! `step` hands out and then asks for the next one.

use vstd::prelude::*;

verus! {

/// The angle by which the cube turns about each axis from one frame to the
/// next, in thousandths of a radian.
pub const ANGLE_STEP: u64 = 50;

/// The three rotation angles, in thousandths of a radian.
#[derive(Clone, Copy, Debug, PartialEq, Eq, Structural)]
pub struct Angles {
    pub x: u64,
    pub y: u64,
    pub z: u64,
}

/// Where the loop stands.
#[derive(Clone, Copy, Debug, PartialEq, Eq, Structural)]
pub enum Phase {
    /// Nothing was shown yet.
    Opening,
    /// The next frame is due.
    Drawing,
    /// A frame was shown and the pause after it is due.
    Resting,
    /// The loop has ended.
    Stopped,
}

/// What the caller is asked to do.
#[derive(Clone, Copy, Debug, PartialEq, Eq, Structural)]
pub enum Action {
    /// Clear the screen.
    Clear,
    /// Draw and show the frame for these angles.
    Frame(Angles),
    /// Sleep for this many milliseconds.
    Sleep(u64),
    /// Leave the loop.
    Stop,
}

/// The state of the frame loop.
#[derive(Clone, Copy, Debug, PartialEq, Eq, Structural)]
pub struct Animation {
    pub delay_ms: u64,
    pub angles: Angles,
    pub phase: Phase,
}

/// One angle, a step further; the count wraps around at the end of `u64`.
pub open spec fn advance_spec(v: u64) -> u64 {
    if v <= u64::MAX - ANGLE_STEP {
        (v + ANGLE_STEP) as u64
    } else {
        (v + ANGLE_STEP - u64::MAX - 1) as u64
    }
}

impl Angles {
    /// The angles of the next frame.
    pub open spec fn advanced_spec(self) -> Angles {
        Angles { x: advance_spec(self.x), y: advance_spec(self.y), z: advance_spec(self.z) }
    }

    /// The angles of the next frame: each is a step larger.
    pub fn advanced(self) -> (next: Angles)
        ensures
            next == self.advanced_spec(),
    {
        Angles { x: advance(self.x), y: advance(self.y), z: advance(self.z) }
    }
}

/// One angle, a step further.
pub fn advance(v: u64) -> (next: u64)
    ensures
        next == advance_spec(v),
{
    if v <= u64::MAX - ANGLE_STEP {
        v + ANGLE_STEP
    } else {
        v - (u64::MAX - ANGLE_STEP) - 1
    }
}

impl Animation {
    /// The state at the start: all angles zero, nothing shown yet.
    pub open spec fn start_spec(delay_ms: u64) -> Animation {
        Animation {
            delay_ms,
            angles: Angles { x: 0, y: 0, z: 0 },
            phase: Phase::Opening,
        }
    }

    /// The state and the action that follow `self`. A request to cancel is
    /// honoured when the next frame is due, and at no other time.
    pub open spec fn step_spec(self, cancel: bool) -> (Animation, Action) {
        match self.phase {
            Phase::Opening => (Animation { phase: Phase::Drawing, ..self }, Action::Clear),
            Phase::Drawing => if cancel {
                (Animation { phase: Phase::Stopped, ..self }, Action::Stop)
            } else {
                (
                    Animation {
                        phase: Phase::Resting,
                        angles: self.angles.advanced_spec(),
                        ..self
                    },
                    Action::Frame(self.angles),
                )
            },
            Phase::Resting => (
                Animation { phase: Phase::Drawing, ..self },
                Action::Sleep(self.delay_ms),
            ),
            Phase::Stopped => (self, Action::Stop),
        }
    }

    /// A loop that pauses for `delay_ms` milliseconds after every frame.
    pub fn start(delay_ms: u64) -> (a: Animation)
        ensures
            a == Self::start_spec(delay_ms),
    {
        Animation { delay_ms, angles: Angles { x: 0, y: 0, z: 0 }, phase: Phase::Opening }
    }

    /// Moves to the next state and returns what the caller is to do now.
    pub fn step(&mut self, cancel: bool) -> (action: Action)
        ensures
            (*final(self), action) == old(self).step_spec(cancel),
    {
        match self.phase {
            Phase::Opening => {
                self.phase = Phase::Drawing;
                Action::Clear
            },
            Phase::Drawing => {
                if cancel {
                    self.phase = Phase::Stopped;
                    Action::Stop
                } else {
                    let shown = self.angles;
                    self.angles = shown.advanced();
                    self.phase = Phase::Resting;
                    Action::Frame(shown)
                }
            },
            Phase::Resting => {
                self.phase = Phase::Drawing;
                Action::Sleep(self.delay_ms)
            },
            Phase::Stopped => Action::Stop,
        }
    }
}

/// After every frame comes the pause: whatever the state and whatever the
/// caller requests, the action that follows a frame is a sleep of the
/// configured length, so no two frames are shown without a sleep between them.
pub proof fn lemma_sleep_follows_frame(a: Animation, cancel: bool, cancel_next: bool)
    ensures
        a.step_spec(cancel).1 is Frame ==> a.step_spec(cancel).0.step_spec(cancel_next).1
            == Action::Sleep(a.delay_ms),
{
}

/// A frame is only ever shown after the screen was cleared or a sleep has
/// ended: the action before a frame is never a frame.
pub proof fn lemma_frame_follows_pause(a: Animation, cancel: bool, cancel_next: bool)
    ensures
        a.step_spec(cancel).0.step_spec(cancel_next).1 is Frame ==> !(a.step_spec(cancel).1
            is Frame),
{
}

/// The loop never ends unless the caller asks for it.
pub proof fn lemma_runs_until_cancelled(a: Animation)
    requires
        a.phase != Phase::Stopped,
    ensures
        a.step_spec(false).0.phase != Phase::Stopped,
        a.step_spec(false).1 != Action::Stop,
{
}

} // verus!
