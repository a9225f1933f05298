//! The player's striking tool: a position and a three-state press machine.

use vstd::prelude::*;
use crate::display::{DisplayRecord, Pose, STRIKER_LAYER, STRIKER_SCALE};
use crate::label::Entity;
use crate::point::Point;

verus! {

/// Press state of the striker.
///
/// `Hit` lasts for exactly the one frame in which the button went down;
/// holding the button keeps the striker in `Pressed` until release.
#[derive(Clone, Copy, Debug, PartialEq, Eq, Structural)]
pub enum StrikerState {
    Hold,
    Hit,
    Pressed,
}

/// The state that follows `state` when the button reads `pressed`.
pub open spec fn next_state(state: StrikerState, pressed: bool) -> StrikerState {
    match (state, pressed) {
        (StrikerState::Hold, true) => StrikerState::Hit,
        (StrikerState::Hold, false) => StrikerState::Hold,
        (StrikerState::Hit, true) => StrikerState::Pressed,
        (StrikerState::Hit, false) => StrikerState::Hold,
        (StrikerState::Pressed, true) => StrikerState::Pressed,
        (StrikerState::Pressed, false) => StrikerState::Hold,
    }
}

/// The pose shown for a press state: neutral at rest, raised otherwise.
pub open spec fn pose_of(state: StrikerState) -> Pose {
    if state == StrikerState::Hold {
        Pose::Neutral
    } else {
        Pose::Raised
    }
}

/// Whether a striker in `state` can collide with anything.
pub open spec fn collides_in(state: StrikerState) -> bool {
    state == StrikerState::Hit
}

/// The player's tool.
#[derive(Clone, Copy, Debug, PartialEq, Eq, Structural)]
pub struct Striker {
    pub position: Point,
    pub state: StrikerState,
}

impl Striker {
    /// A striker at rest in the centre of the screen.
    pub fn new() -> (s: Striker)
        ensures
            s == (Striker { position: Point { x: 0, y: 0 }, state: StrikerState::Hold }),
    {
        Striker { position: Point::origin(), state: StrikerState::Hold }
    }

    /// Moves the striker to `position`; the press state is untouched.
    pub fn set_position(&mut self, position: Point)
        ensures
            *final(self) == (Striker { position, state: old(self).state }),
    {
        self.position = position;
    }

    /// Feeds one frame's button reading into the press machine.
    pub fn set_pressed(&mut self, pressed: bool)
        ensures
            *final(self) == (Striker {
                position: old(self).position,
                state: next_state(old(self).state, pressed),
            }),
    {
        let next = match self.state {
            StrikerState::Hold => if pressed {
                StrikerState::Hit
            } else {
                StrikerState::Hold
            },
            StrikerState::Hit => if pressed {
                StrikerState::Pressed
            } else {
                StrikerState::Hold
            },
            StrikerState::Pressed => if pressed {
                StrikerState::Pressed
            } else {
                StrikerState::Hold
            },
        };
        self.state = next;
    }

    /// The pose to draw the striker in.
    pub fn pose(&self) -> (p: Pose)
        ensures
            p == pose_of(self.state),
    {
        match self.state {
            StrikerState::Hold => Pose::Neutral,
            _ => Pose::Raised,
        }
    }

    /// Whether the striker can collide this frame.
    pub fn is_collidable(&self) -> (c: bool)
        ensures
            c == collides_in(self.state),
    {
        match self.state {
            StrikerState::Hit => true,
            _ => false,
        }
    }

    /// The record under which the striker is drawn this frame.
    pub fn display(&self) -> (r: DisplayRecord)
        ensures
            r == striker_record(*self),
    {
        DisplayRecord {
            entity: Entity::Striker,
            position: self.position,
            layer: STRIKER_LAYER,
            scale_percent: STRIKER_SCALE,
            pose: self.pose(),
            collidable: self.is_collidable(),
        }
    }
}

/// The record under which a striker is drawn.
pub open spec fn striker_record(s: Striker) -> DisplayRecord {
    DisplayRecord {
        entity: Entity::Striker,
        position: s.position,
        layer: STRIKER_LAYER,
        scale_percent: STRIKER_SCALE,
        pose: pose_of(s.state),
        collidable: collides_in(s.state),
    }
}

/// The press machine has exactly six transitions, one per pair of state and
/// button reading, and they are the ones listed here.
pub proof fn lemma_transition_table(state: StrikerState, pressed: bool)
    ensures
        state == StrikerState::Hold && pressed ==> next_state(state, pressed) == StrikerState::Hit,
        state == StrikerState::Hold && !pressed ==> next_state(state, pressed)
            == StrikerState::Hold,
        state == StrikerState::Hit && pressed ==> next_state(state, pressed)
            == StrikerState::Pressed,
        state == StrikerState::Hit && !pressed ==> next_state(state, pressed) == StrikerState::Hold,
        state == StrikerState::Pressed && pressed ==> next_state(state, pressed)
            == StrikerState::Pressed,
        state == StrikerState::Pressed && !pressed ==> next_state(state, pressed)
            == StrikerState::Hold,
{
}

/// The striker is collidable after a reading exactly when that reading is the
/// rising edge of the button: pressed now, at rest before.
pub proof fn lemma_strike_is_edge_triggered(state: StrikerState, pressed: bool)
    ensures
        collides_in(next_state(state, pressed)) <==> (state == StrikerState::Hold && pressed),
{
}

/// Two readings in a row never leave the striker collidable twice, and a
/// released button always brings it back to rest.
pub proof fn lemma_strike_lasts_one_frame(state: StrikerState, first: bool, second: bool)
    ensures
        collides_in(next_state(state, first)) ==> !collides_in(
            next_state(next_state(state, first), second),
        ),
        next_state(state, false) == StrikerState::Hold,
{
}

} // verus!
