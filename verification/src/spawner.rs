//! Spawners: enemies that pop up in a hole and hide again on a randomized
//! countdown, and that a strike sends back into hiding.

use vstd::prelude::*;
use crate::chance::random_between;
use crate::countdown::Countdown;
use crate::display::{DisplayRecord, Pose, ENEMY_LAYER, FIXTURE_SCALE};
use crate::holes::{
    Hole, HolePool, any_free, free_at, holes_wf, lemma_release_undoes_occupy, with_occupied,
    with_released,
};
use crate::label::Entity;
use crate::point::Point;

verus! {

/// Shortest delay between two toggles of a spawner, in nanoseconds.
pub const MIN_DELAY: u64 = 1_000_000_000;

/// Upper bound, not reached, of the delay between two toggles, in
/// nanoseconds.
pub const MAX_DELAY: u64 = 3_000_000_000;

/// Whether a spawner is out of sight or up in a hole.
#[derive(Clone, Copy, Debug, PartialEq, Eq, Structural)]
pub enum SpawnerState {
    Hidden,
    Showing(Point),
}

/// The two things chance decides when a spawner toggles: the hole it comes
/// up in, read only if it was hidden, and the delay until its next toggle.
#[derive(Clone, Copy, Debug, PartialEq, Eq, Structural)]
pub struct Draw {
    pub hole: usize,
    pub delay: u64,
}

/// One enemy.
#[derive(Clone, Copy, Debug, PartialEq, Eq, Structural)]
pub struct Spawner {
    pub id: usize,
    pub state: SpawnerState,
    pub timer: Countdown,
}

/// Whether the spawner is up in a hole.
pub open spec fn is_up(sp: Spawner) -> bool {
    sp.state != SpawnerState::Hidden
}

/// Where a showing spawner is; the origin for a hidden one.
pub open spec fn place(sp: Spawner) -> Point {
    match sp.state {
        SpawnerState::Showing(p) => p,
        SpawnerState::Hidden => Point { x: 0, y: 0 },
    }
}

/// A toggle of `sp` can use `draw`: if the spawner is to come up, the hole
/// drawn for it is free.
pub open spec fn admissible(sp: Spawner, holes: Seq<Hole>, draw: Draw) -> bool {
    sp.state == SpawnerState::Hidden ==> free_at(holes, draw.hole as int)
}

/// The spawner and the holes after a toggle: a hidden spawner comes up in
/// the hole drawn, a showing one gives its hole back and hides; either way
/// the countdown starts over with the delay drawn.
pub open spec fn toggled(sp: Spawner, holes: Seq<Hole>, draw: Draw) -> (Spawner, Seq<Hole>) {
    match sp.state {
        SpawnerState::Hidden => (
            Spawner {
                id: sp.id,
                state: SpawnerState::Showing(holes[draw.hole as int].pos),
                timer: Countdown::armed(draw.delay),
            },
            with_occupied(holes, draw.hole as int),
        ),
        SpawnerState::Showing(p) => (
            Spawner { id: sp.id, state: SpawnerState::Hidden, timer: Countdown::armed(draw.delay) },
            with_released(holes, p),
        ),
    }
}

/// The spawner and the holes after a strike at the spawner: a showing one
/// gives its hole back and hides, its countdown running on; a hidden one
/// is not affected.
pub open spec fn struck(sp: Spawner, holes: Seq<Hole>) -> (Spawner, Seq<Hole>) {
    match sp.state {
        SpawnerState::Hidden => (sp, holes),
        SpawnerState::Showing(p) => (
            Spawner { id: sp.id, state: SpawnerState::Hidden, timer: sp.timer },
            with_released(holes, p),
        ),
    }
}

/// The spawner and the holes after `delta` nanoseconds: the countdown
/// advances, and toggles the spawner if it fires.
pub open spec fn advanced(sp: Spawner, holes: Seq<Hole>, delta: u64, draw: Draw) -> (
    Spawner,
    Seq<Hole>,
) {
    if sp.timer.fires(delta) {
        toggled(sp, holes, draw)
    } else {
        (Spawner { id: sp.id, state: sp.state, timer: sp.timer.after(delta) }, holes)
    }
}

/// The record under which a spawner is drawn; a hidden one has none.
pub open spec fn spawner_record(sp: Spawner) -> Option<DisplayRecord> {
    match sp.state {
        SpawnerState::Hidden => None,
        SpawnerState::Showing(p) => Some(
            DisplayRecord {
                entity: Entity::Enemy(sp.id),
                position: p,
                layer: ENEMY_LAYER,
                scale_percent: FIXTURE_SCALE,
                pose: Pose::Neutral,
                collidable: true,
            },
        ),
    }
}

/// Draws the delay until a spawner's next toggle.
pub fn random_delay() -> (delay: u64)
    ensures
        MIN_DELAY <= delay < MAX_DELAY,
{
    random_between(MIN_DELAY, MAX_DELAY)
}

impl Spawner {
    /// A hidden spawner whose first toggle is `delay` nanoseconds away.
    pub fn new(id: usize, delay: u64) -> (sp: Spawner)
        ensures
            sp == (Spawner {
                id,
                state: SpawnerState::Hidden,
                timer: Countdown::armed(delay),
            }),
    {
        Spawner { id, state: SpawnerState::Hidden, timer: Countdown::new(delay) }
    }

    /// Whether the spawner is up in a hole.
    pub fn is_showing(&self) -> (b: bool)
        ensures
            b == (self.state != SpawnerState::Hidden),
    {
        match self.state {
            SpawnerState::Hidden => false,
            SpawnerState::Showing(_) => true,
        }
    }

    /// Toggles the spawner with the outcome `draw` in place of chance.
    pub fn reset_with(&mut self, pool: &mut HolePool, draw: Draw)
        requires
            old(pool).wf(),
            admissible(*old(self), old(pool)@, draw),
        ensures
            final(pool).wf(),
            (*final(self), final(pool)@) == toggled(*old(self), old(pool)@, draw),
    {
        match self.state {
            SpawnerState::Hidden => {
                let p = pool.occupy_at(draw.hole);
                self.state = SpawnerState::Showing(p);
            },
            SpawnerState::Showing(p) => {
                pool.release(p);
                self.state = SpawnerState::Hidden;
            },
        }
        self.timer = Countdown::new(draw.delay);
    }

    /// Toggles the spawner: a hidden one comes up in a free hole chosen at
    /// random, a showing one gives its hole back and hides. The countdown
    /// starts over with a delay drawn at random. Returns what was drawn.
    pub fn reset(&mut self, pool: &mut HolePool) -> (draw: Draw)
        requires
            old(pool).wf(),
            old(self).state == SpawnerState::Hidden ==> any_free(old(pool)@),
        ensures
            final(pool).wf(),
            admissible(*old(self), old(pool)@, draw),
            MIN_DELAY <= draw.delay < MAX_DELAY,
            (*final(self), final(pool)@) == toggled(*old(self), old(pool)@, draw),
    {
        let hole = match self.state {
            SpawnerState::Hidden => pool.pick_free(),
            SpawnerState::Showing(_) => 0,
        };
        let draw = Draw { hole, delay: random_delay() };
        self.reset_with(pool, draw);
        draw
    }

    /// Strikes the spawner. A showing one gives its hole back, hides and
    /// counts as hit; a hidden one is not affected.
    pub fn hit(&mut self, pool: &mut HolePool) -> (was_hit: bool)
        requires
            old(pool).wf(),
        ensures
            final(pool).wf(),
            was_hit == (old(self).state != SpawnerState::Hidden),
            (*final(self), final(pool)@) == struck(*old(self), old(pool)@),
    {
        match self.state {
            SpawnerState::Showing(p) => {
                pool.release(p);
                self.state = SpawnerState::Hidden;
                true
            },
            SpawnerState::Hidden => false,
        }
    }

    /// Advances the countdown by `delta` nanoseconds and, if it fires,
    /// toggles the spawner with the outcome `draw` in place of chance.
    /// Tells whether it toggled.
    pub fn tick_with(&mut self, delta: u64, pool: &mut HolePool, draw: Draw) -> (fired: bool)
        requires
            old(pool).wf(),
            old(self).timer.fires(delta) ==> admissible(*old(self), old(pool)@, draw),
        ensures
            final(pool).wf(),
            fired == old(self).timer.fires(delta),
            (*final(self), final(pool)@) == advanced(*old(self), old(pool)@, delta, draw),
    {
        let fired = self.timer.tick(delta);
        if fired {
            self.reset_with(pool, draw);
        }
        fired
    }

    /// Advances the countdown by `delta` nanoseconds and, if it fires,
    /// toggles the spawner. Returns what was drawn for the toggle, if any.
    pub fn tick(&mut self, delta: u64, pool: &mut HolePool) -> (drawn: Option<Draw>)
        requires
            old(pool).wf(),
            old(self).timer.fires(delta) && old(self).state == SpawnerState::Hidden ==> any_free(
                old(pool)@,
            ),
        ensures
            final(pool).wf(),
            drawn is Some <==> old(self).timer.fires(delta),
            drawn matches Some(draw) ==> admissible(*old(self), old(pool)@, draw) && MIN_DELAY
                <= draw.delay < MAX_DELAY && (*final(self), final(pool)@) == advanced(
                *old(self),
                old(pool)@,
                delta,
                draw,
            ),
            drawn is None ==> forall|draw: Draw|
                (*final(self), final(pool)@) == #[trigger] advanced(
                    *old(self),
                    old(pool)@,
                    delta,
                    draw,
                ),
    {
        let fired = self.timer.tick(delta);
        if fired {
            let draw = self.reset(pool);
            Some(draw)
        } else {
            None
        }
    }

    /// The record under which the spawner is drawn; a hidden spawner has
    /// none and is not to be drawn at all.
    pub fn display(&self) -> (r: Option<DisplayRecord>)
        ensures
            r == spawner_record(*self),
    {
        match self.state {
            SpawnerState::Hidden => None,
            SpawnerState::Showing(p) => Some(
                DisplayRecord {
                    entity: Entity::Enemy(self.id),
                    position: p,
                    layer: ENEMY_LAYER,
                    scale_percent: FIXTURE_SCALE,
                    pose: Pose::Neutral,
                    collidable: true,
                },
            ),
        }
    }
}

/// A strike leaves the spawner hidden, and a second strike right after
/// it changes neither the spawner nor the holes: a spawner that came up
/// is hit at most once until it comes up again.
pub proof fn lemma_second_hit_is_idle(sp: Spawner, holes: Seq<Hole>)
    ensures
        !is_up(struck(sp, holes).0),
        struck(struck(sp, holes).0, struck(sp, holes).1) == struck(sp, holes),
{
}

/// A hidden spawner that toggles shows; the first strike at it then finds
/// it showing and gives its hole back, which leaves the holes as they were
/// before it came up.
pub proof fn lemma_first_hit_counts(sp: Spawner, holes: Seq<Hole>, draw: Draw)
    requires
        holes_wf(holes),
        !is_up(sp),
        admissible(sp, holes, draw),
    ensures
        is_up(toggled(sp, holes, draw).0),
        place(toggled(sp, holes, draw).0) == holes[draw.hole as int].pos,
        struck(toggled(sp, holes, draw).0, toggled(sp, holes, draw).1).1 == holes,
{
    lemma_release_undoes_occupy(holes, draw.hole as int);
}

/// A showing spawner that toggles hides and gives its hole back.
pub proof fn lemma_toggle_hides(sp: Spawner, holes: Seq<Hole>, draw: Draw)
    requires
        is_up(sp),
    ensures
        !is_up(toggled(sp, holes, draw).0),
        toggled(sp, holes, draw).1 == with_released(holes, place(sp)),
        toggled(sp, holes, draw).1 == struck(sp, holes).1,
{
}

} // verus!
