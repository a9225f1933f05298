//! The rules of a round, stated on plain values: what one frame does to
//! the round and what it hands to the host.

use vstd::prelude::*;
use crate::collision::{EventView, struck_name};
use crate::countdown::Countdown;
use crate::display::{DisplayRecord, Sound};
use crate::holes::{Hole, fresh_holes, hole_record, holes_wf, names_free_hole};
use crate::label::enemy_label;
use crate::occupancy::{lemma_advance_keeps_match, lemma_strike_keeps_match, matched};
use crate::point::Point;
use crate::spawner::{
    Draw, Spawner, SpawnerState, admissible, advanced, is_up, spawner_record, struck, MAX_DELAY,
    MIN_DELAY,
};
use crate::striker::{Striker, StrikerState, next_state, striker_record};

verus! {

/// A round as plain values.
pub struct RoundView {
    pub striker: Striker,
    pub holes: Seq<Hole>,
    pub spawners: Seq<Spawner>,
    pub score: u32,
    pub lives: u32,
}

/// One frame's input as plain values: the nanoseconds since the last
/// frame, the cursor if the host knows it, the button, and the collision
/// events in the order they were reported.
pub struct InputView {
    pub delta: u64,
    pub cursor: Option<Point>,
    pub pressed: bool,
    pub events: Seq<EventView>,
}

/// One frame's output as plain values.
pub struct OutputView {
    pub game_over: bool,
    pub displays: Seq<DisplayRecord>,
    pub sounds: Seq<Sound>,
}

/// The invariant of a round: the pool is well formed, spawners carry their
/// index as id, there are no more spawners than holes, and the spawners
/// that show correspond one to one to the holes that are occupied.
pub open spec fn round_wf(rv: RoundView) -> bool {
    &&& holes_wf(rv.holes)
    &&& forall|k: int| 0 <= k < rv.spawners.len() ==> (#[trigger] rv.spawners[k]).id == k
    &&& rv.spawners.len() <= rv.holes.len()
    &&& matched(rv.holes, rv.spawners)
}

/// The round is over: no life is left.
pub open spec fn is_over(rv: RoundView) -> bool {
    rv.lives == 0
}

/// The spawners a round starts with: all hidden, numbered in order, each
/// with its own first delay.
pub open spec fn fresh_spawners(delays: Seq<u64>) -> Seq<Spawner> {
    Seq::new(
        delays.len(),
        |k: int|
            Spawner {
                id: k as usize,
                state: SpawnerState::Hidden,
                timer: Countdown::armed(delays[k]),
            },
    )
}

/// The round as it starts: the striker at rest, every hole free, every
/// spawner hidden, no score yet.
pub open spec fn opening(positions: Seq<Point>, delays: Seq<u64>, lives: u32) -> RoundView {
    RoundView {
        striker: Striker { position: Point { x: 0, y: 0 }, state: StrikerState::Hold },
        holes: fresh_holes(positions),
        spawners: fresh_spawners(delays),
        score: 0,
        lives,
    }
}

/// Lives at the start of a standard round.
pub const STARTING_LIVES: u32 = 3;

/// Spawners in a standard round.
pub const STANDARD_ENEMIES: usize = 4;

/// Where the holes of a standard round lie: three in a row above, two
/// below.
pub open spec fn standard_positions() -> Seq<Point> {
    seq![
        Point { x: -300i32, y: 200 },
        Point { x: 0, y: 200 },
        Point { x: 300, y: 200 },
        Point { x: -150i32, y: 0 },
        Point { x: 150, y: 0 },
    ]
}

/// The striker after one frame's input: it follows the cursor where there
/// is one, and the button drives its press state either way.
pub open spec fn steered(striker: Striker, cursor: Option<Point>, pressed: bool) -> Striker {
    Striker {
        position: match cursor {
            Some(p) => p,
            None => striker.position,
        },
        state: next_state(striker.state, pressed),
    }
}

/// The spawners and holes after the first `draws.len()` spawners, in order,
/// were advanced by `delta` nanoseconds, spawner `k` toggling, if it does,
/// with `draws[k]`.
pub open spec fn ticked(holes: Seq<Hole>, spawners: Seq<Spawner>, delta: u64, draws: Seq<Draw>) -> (
    Seq<Spawner>,
    Seq<Hole>,
)
    decreases draws.len(),
{
    if draws.len() == 0 {
        (spawners, holes)
    } else {
        let k = draws.len() - 1;
        let (sps, hs) = ticked(holes, spawners, delta, draws.drop_last());
        let (sp, next_holes) = advanced(sps[k], hs, delta, draws.last());
        (sps.update(k, sp), next_holes)
    }
}

/// The draws can be used as `ticked` uses them: there is at most one per
/// spawner, and whenever a hidden spawner toggles, the hole drawn for it is
/// free at that moment.
pub open spec fn draws_fit(holes: Seq<Hole>, spawners: Seq<Spawner>, delta: u64, draws: Seq<Draw>) -> bool
    decreases draws.len(),
{
    draws.len() == 0 || {
        let k = draws.len() - 1;
        let (sps, hs) = ticked(holes, spawners, delta, draws.drop_last());
        &&& draws.len() <= spawners.len()
        &&& draws_fit(holes, spawners, delta, draws.drop_last())
        &&& sps[k].timer.fires(delta) ==> admissible(sps[k], hs, draws.last())
    }
}

/// For every spawner that toggles within `delta`, the delay drawn is one
/// that chance may give.
pub open spec fn delays_in_range(spawners: Seq<Spawner>, delta: u64, draws: Seq<Draw>) -> bool {
    forall|k: int|
        0 <= k < spawners.len() && k < draws.len() && (#[trigger] spawners[k]).timer.fires(delta)
            ==> MIN_DELAY <= draws[k].delay < MAX_DELAY
}

/// The records of the spawners that show, in order; hidden spawners have
/// none.
pub open spec fn enemy_records(spawners: Seq<Spawner>) -> Seq<DisplayRecord>
    decreases spawners.len(),
{
    if spawners.len() == 0 {
        Seq::empty()
    } else {
        match spawner_record(spawners.last()) {
            Some(r) => enemy_records(spawners.drop_last()).push(r),
            None => enemy_records(spawners.drop_last()),
        }
    }
}

/// The records of all holes, in order.
pub open spec fn hole_records(holes: Seq<Hole>) -> Seq<DisplayRecord> {
    Seq::new(holes.len(), |i: int| hole_record(holes[i]))
}

/// Everything there is to draw: the spawners that show, then the holes,
/// then the striker.
pub open spec fn rendered(rv: RoundView) -> Seq<DisplayRecord> {
    (enemy_records(rv.spawners) + hole_records(rv.holes)).push(striker_record(rv.striker))
}

/// The score after one more hit. It stops at the largest value it can hold.
pub open spec fn bumped(score: u32) -> u32 {
    if score < u32::MAX {
        (score + 1) as u32
    } else {
        score
    }
}

/// `name` is the label of spawner `k`, one of `count`.
pub open spec fn names_spawner(count: nat, name: Seq<char>, k: nat) -> bool {
    k < count && name == enemy_label(k)
}

/// The spawner, one of `count`, that `name` is the label of.
pub open spec fn spawner_named(count: nat, name: Seq<char>) -> Option<nat> {
    if exists|k: nat| names_spawner(count, name, k) {
        Some(choose|k: nat| names_spawner(count, name, k))
    } else {
        None
    }
}

/// The round after one collision event, and the sound it calls for.
///
/// Only the beginning of an overlap with the striker counts, and only
/// while a life is left. A spawner that shows is sent into hiding and
/// scores; a hole that is free costs a life; anything else is ignored.
pub open spec fn applied(rv: RoundView, e: EventView) -> (RoundView, Option<Sound>) {
    if rv.lives == 0 || e.ended {
        (rv, None)
    } else {
        match struck_name(e) {
            None => (rv, None),
            Some(name) => match spawner_named(rv.spawners.len(), name) {
                Some(k) => if is_up(rv.spawners[k as int]) {
                    (
                        RoundView {
                            striker: rv.striker,
                            holes: struck(rv.spawners[k as int], rv.holes).1,
                            spawners: rv.spawners.update(
                                k as int,
                                struck(rv.spawners[k as int], rv.holes).0,
                            ),
                            score: bumped(rv.score),
                            lives: rv.lives,
                        },
                        Some(Sound::Impact),
                    )
                } else {
                    (rv, None)
                },
                None => if names_free_hole(rv.holes, name) {
                    (
                        RoundView {
                            striker: rv.striker,
                            holes: rv.holes,
                            spawners: rv.spawners,
                            score: rv.score,
                            lives: (rv.lives - 1) as u32,
                        },
                        Some(Sound::Miss),
                    )
                } else {
                    (rv, None)
                },
            },
        }
    }
}

/// The round after a frame's collision events, applied in order, and the
/// sounds they call for.
pub open spec fn resolved(rv: RoundView, events: Seq<EventView>) -> (RoundView, Seq<Sound>)
    decreases events.len(),
{
    if events.len() == 0 {
        (rv, Seq::empty())
    } else {
        let (before, sounds) = resolved(rv, events.drop_last());
        let (after, sound) = applied(before, events.last());
        (
            after,
            match sound {
                Some(s) => sounds.push(s),
                None => sounds,
            },
        )
    }
}

/// The round between the two halves of a frame: input taken, spawners
/// advanced, collisions not yet looked at. This is what gets drawn.
pub open spec fn midframe(rv: RoundView, input: InputView, draws: Seq<Draw>) -> RoundView {
    RoundView {
        striker: steered(rv.striker, input.cursor, input.pressed),
        holes: ticked(rv.holes, rv.spawners, input.delta, draws).1,
        spawners: ticked(rv.holes, rv.spawners, input.delta, draws).0,
        score: rv.score,
        lives: rv.lives,
    }
}

/// What one frame does. A round that is over stays as it is and only
/// reports that it is over. Otherwise the striker takes the input, every
/// spawner is advanced, the result is drawn, and then the collision events
/// are applied.
pub open spec fn frame_result(rv: RoundView, input: InputView, draws: Seq<Draw>) -> (
    RoundView,
    OutputView,
) {
    if rv.lives == 0 {
        (rv, OutputView { game_over: true, displays: Seq::empty(), sounds: Seq::empty() })
    } else {
        let mid = midframe(rv, input, draws);
        (
            resolved(mid, input.events).0,
            OutputView {
                game_over: false,
                displays: rendered(mid),
                sounds: resolved(mid, input.events).1,
            },
        )
    }
}

/// Advancing the first spawners leaves the later ones as they were.
pub proof fn lemma_ticked_leaves_rest(
    holes: Seq<Hole>,
    spawners: Seq<Spawner>,
    delta: u64,
    draws: Seq<Draw>,
)
    requires
        draws.len() <= spawners.len(),
    ensures
        ticked(holes, spawners, delta, draws).0.len() == spawners.len(),
        forall|j: int|
            draws.len() <= j < spawners.len() ==> #[trigger] ticked(
                holes,
                spawners,
                delta,
                draws,
            ).0[j] == spawners[j],
    decreases draws.len(),
{
    if draws.len() > 0 {
        lemma_ticked_leaves_rest(holes, spawners, delta, draws.drop_last());
    }
}

/// Draws that fit still fit when only the first `j` of them are used.
pub proof fn lemma_fit_prefix(
    holes: Seq<Hole>,
    spawners: Seq<Spawner>,
    delta: u64,
    draws: Seq<Draw>,
    j: int,
)
    requires
        draws_fit(holes, spawners, delta, draws),
        0 <= j <= draws.len(),
    ensures
        draws_fit(holes, spawners, delta, draws.take(j)),
    decreases draws.len(),
{
    if j == draws.len() {
        assert(draws.take(j) =~= draws);
    } else {
        assert(draws.drop_last().take(j) =~= draws.take(j));
        lemma_fit_prefix(holes, spawners, delta, draws.drop_last(), j);
    }
}

/// A round that is over stays as it is: a frame changes nothing, plays
/// no sound, and reports that the round is over.
pub proof fn lemma_over_is_absorbing(rv: RoundView, input: InputView, draws: Seq<Draw>)
    requires
        is_over(rv),
    ensures
        frame_result(rv, input, draws).0 == rv,
        frame_result(rv, input, draws).1 == (OutputView {
            game_over: true,
            displays: Seq::empty(),
            sounds: Seq::empty(),
        }),
{
}

/// Once no life is left, collision events change nothing, within a frame
/// too.
pub proof fn lemma_no_event_after_the_end(rv: RoundView, events: Seq<EventView>)
    requires
        is_over(rv),
    ensures
        resolved(rv, events) == (rv, Seq::<Sound>::empty()),
    decreases events.len(),
{
    if events.len() > 0 {
        lemma_no_event_after_the_end(rv, events.drop_last());
    }
}

/// The end of an overlap changes nothing and plays no sound, whatever the
/// pair.
pub proof fn lemma_end_event_changes_nothing(rv: RoundView, e: EventView)
    requires
        e.ended,
    ensures
        applied(rv, e) == (rv, None::<Sound>),
{
}

/// Events that are all ends of overlaps change nothing and play no sound.
pub proof fn lemma_end_events_change_nothing(rv: RoundView, events: Seq<EventView>)
    requires
        forall|i: int| 0 <= i < events.len() ==> (#[trigger] events[i]).ended,
    ensures
        resolved(rv, events) == (rv, Seq::<Sound>::empty()),
    decreases events.len(),
{
    if events.len() > 0 {
        assert forall|i: int| 0 <= i < events.drop_last().len() implies (
        #[trigger] events.drop_last()[i]).ended by {
            assert(events.drop_last()[i] == events[i]);
        }
        lemma_end_events_change_nothing(rv, events.drop_last());
        assert(events.last() == events[events.len() - 1]);
    }
}

/// An event in which the striker takes no part changes nothing.
pub proof fn lemma_foreign_event_changes_nothing(rv: RoundView, e: EventView)
    requires
        struck_name(e) is None,
    ensures
        applied(rv, e) == (rv, None::<Sound>),
{
}

/// One event moves the counters by at most one step: it either leaves
/// both alone, or scores, or costs one life, and it plays a sound exactly
/// when it moved one; the striker is never touched.
pub proof fn lemma_event_moves_one_counter(rv: RoundView, e: EventView)
    ensures
        applied(rv, e).0.striker == rv.striker,
        applied(rv, e).1 is None ==> applied(rv, e).0 == rv,
        applied(rv, e).1 == Some(Sound::Impact) ==> applied(rv, e).0.score == bumped(rv.score)
            && applied(rv, e).0.lives == rv.lives,
        applied(rv, e).1 == Some(Sound::Miss) ==> applied(rv, e).0.score == rv.score && applied(
            rv,
            e,
        ).0.lives == rv.lives - 1 && applied(rv, e).0.holes == rv.holes && applied(
            rv,
            e,
        ).0.spawners == rv.spawners,
{
}

/// One collision event keeps the round's invariant.
pub proof fn lemma_applied_keeps_wf(rv: RoundView, e: EventView)
    requires
        round_wf(rv),
    ensures
        round_wf(applied(rv, e).0),
{
    if !(rv.lives == 0 || e.ended) {
        if let Some(name) = struck_name(e) {
            if let Some(k) = spawner_named(rv.spawners.len(), name) {
                assert(names_spawner(rv.spawners.len(), name, k));
                lemma_strike_keeps_match(rv.holes, rv.spawners, k as int);
            }
        }
    }
}

/// A frame's collision events keep the round's invariant; lives are never
/// won back and the score is never taken away.
pub proof fn lemma_resolved_keeps_wf(rv: RoundView, events: Seq<EventView>)
    requires
        round_wf(rv),
    ensures
        round_wf(resolved(rv, events).0),
        resolved(rv, events).0.lives <= rv.lives,
        resolved(rv, events).0.score >= rv.score,
        resolved(rv, events).0.striker == rv.striker,
        resolved(rv, events).1.len() <= events.len(),
    decreases events.len(),
{
    if events.len() > 0 {
        lemma_resolved_keeps_wf(rv, events.drop_last());
        lemma_applied_keeps_wf(resolved(rv, events.drop_last()).0, events.last());
        lemma_event_moves_one_counter(resolved(rv, events.drop_last()).0, events.last());
    }
}

/// Advancing the spawners with draws that fit keeps the pool well formed,
/// the spawners numbered, and the correspondence between them.
pub proof fn lemma_ticked_keeps_wf(
    holes: Seq<Hole>,
    spawners: Seq<Spawner>,
    delta: u64,
    draws: Seq<Draw>,
)
    requires
        holes_wf(holes),
        matched(holes, spawners),
        forall|k: int| 0 <= k < spawners.len() ==> (#[trigger] spawners[k]).id == k,
        draws_fit(holes, spawners, delta, draws),
    ensures
        holes_wf(ticked(holes, spawners, delta, draws).1),
        matched(ticked(holes, spawners, delta, draws).1, ticked(holes, spawners, delta, draws).0),
        ticked(holes, spawners, delta, draws).1.len() == holes.len(),
        ticked(holes, spawners, delta, draws).0.len() == spawners.len(),
        forall|k: int|
            0 <= k < spawners.len() ==> (#[trigger] ticked(holes, spawners, delta, draws).0[k]).id
                == k,
    decreases draws.len(),
{
    if draws.len() > 0 {
        let k = draws.len() - 1;
        let (sps, hs) = ticked(holes, spawners, delta, draws.drop_last());
        lemma_ticked_keeps_wf(holes, spawners, delta, draws.drop_last());
        lemma_advance_keeps_match(hs, sps, k, delta, draws.last());
    }
}

/// A frame keeps the round's invariant.
pub proof fn lemma_frame_keeps_wf(rv: RoundView, input: InputView, draws: Seq<Draw>)
    requires
        round_wf(rv),
        !is_over(rv) ==> draws_fit(rv.holes, rv.spawners, input.delta, draws),
    ensures
        round_wf(frame_result(rv, input, draws).0),
{
    if !is_over(rv) {
        lemma_ticked_keeps_wf(rv.holes, rv.spawners, input.delta, draws);
        lemma_resolved_keeps_wf(midframe(rv, input, draws), input.events);
    }
}

} // verus!
