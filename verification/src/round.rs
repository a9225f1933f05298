//! The round: the aggregate that owns the striker, the pool and the
//! spawners, and steps them frame by frame.

use vstd::prelude::*;
use vstd::string::*;
use crate::collision::{CollisionEvent, event_views};
use crate::display::{DisplayRecord, Sound};
use crate::holes::{Hole, HolePool, HoleState, distinct_points, hole_record};
use crate::label::{decimal, decimal_text, enemy_label, enemy_text, lemma_labels_injective};
use crate::occupancy::{
    lemma_advance_keeps_match, lemma_hidden_finds_free, lemma_opening_is_matched,
    lemma_strike_keeps_match,
};
use crate::point::Point;
use crate::rules::{
    InputView, OutputView, RoundView, applied, delays_in_range, draws_fit, enemy_records,
    frame_result, fresh_spawners, lemma_fit_prefix, lemma_ticked_keeps_wf,
    lemma_ticked_leaves_rest, names_spawner, opening, rendered, resolved, round_wf, spawner_named,
    standard_positions, steered, ticked, STANDARD_ENEMIES, STARTING_LIVES,
};
use crate::spawner::{Draw, Spawner, SpawnerState, is_up, random_delay, MAX_DELAY, MIN_DELAY};
use crate::striker::Striker;

verus! {

/// What the host supplies for one frame.
#[derive(Debug)]
pub struct FrameInput {
    /// Nanoseconds since the last frame.
    pub delta: u64,
    /// Where the cursor is, if the host knows.
    pub cursor: Option<Point>,
    /// Whether the primary button is down.
    pub pressed: bool,
    /// The collision events since the last frame, in order.
    pub events: Vec<CollisionEvent>,
}

impl View for FrameInput {
    type V = InputView;

    open spec fn view(&self) -> InputView {
        InputView {
            delta: self.delta,
            cursor: self.cursor,
            pressed: self.pressed,
            events: event_views(self.events@),
        }
    }
}

/// What one frame hands to the host.
#[derive(Debug)]
pub struct FrameOutput {
    /// The round was over when the frame began; nothing was done.
    pub game_over: bool,
    /// Every entity to draw, lowest concern first: spawners that show,
    /// holes, striker. A spawner that is not listed must not be drawn.
    pub displays: Vec<DisplayRecord>,
    /// The sound effects to play, in order.
    pub sounds: Vec<Sound>,
}

impl View for FrameOutput {
    type V = OutputView;

    open spec fn view(&self) -> OutputView {
        OutputView { game_over: self.game_over, displays: self.displays@, sounds: self.sounds@ }
    }
}

/// A round in play.
pub struct RoundState {
    striker: Striker,
    pool: HolePool,
    spawners: Vec<Spawner>,
    score: u32,
    lives: u32,
}

impl View for RoundState {
    type V = RoundView;

    closed spec fn view(&self) -> RoundView {
        RoundView {
            striker: self.striker,
            holes: self.pool@,
            spawners: self.spawners@,
            score: self.score,
            lives: self.lives,
        }
    }
}

impl RoundState {
    /// The round's invariant.
    pub open spec fn wf(&self) -> bool {
        round_wf(self@)
    }

    /// Starts a round with one hole at each of `positions` and one hidden
    /// spawner for each of `delays`, which give the nanoseconds until each
    /// spawner's first toggle.
    pub fn with_delays(positions: Vec<Point>, delays: &Vec<u64>, lives: u32) -> (round: RoundState)
        requires
            distinct_points(positions@),
            delays@.len() <= positions@.len(),
        ensures
            round.wf(),
            round@ == opening(positions@, delays@, lives),
    {
        let pool = HolePool::new(positions);
        let mut spawners: Vec<Spawner> = Vec::new();
        let mut k: usize = 0;
        while k < delays.len()
            invariant
                k <= delays@.len(),
                spawners@.len() == k,
                forall|j: int| 0 <= j < k ==> spawners@[j] == fresh_spawners(delays@)[j],
            decreases delays@.len() - k,
        {
            spawners.push(Spawner::new(k, delays[k]));
            k = k + 1;
        }
        proof {
            assert(spawners@ =~= fresh_spawners(delays@));
            lemma_opening_is_matched(pool@, spawners@);
        }
        RoundState { striker: Striker::new(), pool, spawners, score: 0, lives }
    }

    /// Starts a round with one hole at each of `positions` and `enemies`
    /// hidden spawners, each with a first delay drawn at random.
    pub fn new(positions: Vec<Point>, enemies: usize, lives: u32) -> (round: RoundState)
        requires
            distinct_points(positions@),
            enemies <= positions@.len(),
        ensures
            round.wf(),
            exists|delays: Seq<u64>|
                #![trigger opening(positions@, delays, lives)]
                delays.len() == enemies && round@ == opening(positions@, delays, lives) && forall|
                    k: int,
                |
                    0 <= k < enemies ==> MIN_DELAY <= #[trigger] delays[k] < MAX_DELAY,
    {
        let mut delays: Vec<u64> = Vec::new();
        let mut k: usize = 0;
        while k < enemies
            invariant
                k <= enemies,
                delays@.len() == k,
                forall|j: int| 0 <= j < k ==> MIN_DELAY <= #[trigger] delays@[j] < MAX_DELAY,
            decreases enemies - k,
        {
            delays.push(random_delay());
            k = k + 1;
        }
        RoundState::with_delays(positions, &delays, lives)
    }

    /// The positions of the holes of a standard round.
    pub fn standard_layout() -> (positions: Vec<Point>)
        ensures
            positions@ == standard_positions(),
            distinct_points(positions@),
    {
        let mut positions: Vec<Point> = Vec::new();
        positions.push(Point::new(-300, 200));
        positions.push(Point::new(0, 200));
        positions.push(Point::new(300, 200));
        positions.push(Point::new(-150, 0));
        positions.push(Point::new(150, 0));
        assert(positions@ =~= standard_positions());
        positions
    }

    /// Starts a standard round: five holes, four spawners with first delays
    /// drawn at random, three lives.
    pub fn standard() -> (round: RoundState)
        ensures
            round.wf(),
            exists|delays: Seq<u64>|
                #![trigger opening(standard_positions(), delays, STARTING_LIVES)]
                delays.len() == STANDARD_ENEMIES && round@ == opening(
                    standard_positions(),
                    delays,
                    STARTING_LIVES,
                ) && forall|k: int|
                    0 <= k < STANDARD_ENEMIES ==> MIN_DELAY <= #[trigger] delays[k] < MAX_DELAY,
    {
        RoundState::new(RoundState::standard_layout(), STANDARD_ENEMIES, STARTING_LIVES)
    }

    /// The score so far.
    pub fn score(&self) -> (n: u32)
        ensures
            n == self@.score,
    {
        self.score
    }

    /// The lives left.
    pub fn lives(&self) -> (n: u32)
        ensures
            n == self@.lives,
    {
        self.lives
    }

    /// Whether the round is over: it is exactly when no life is left.
    pub fn is_over(&self) -> (over: bool)
        ensures
            over == (self@.lives == 0),
    {
        self.lives == 0
    }

    /// The striker.
    pub fn striker(&self) -> (s: Striker)
        ensures
            s == self@.striker,
    {
        self.striker
    }

    /// The number of holes.
    pub fn hole_count(&self) -> (n: usize)
        ensures
            n == self@.holes.len(),
    {
        self.pool.len()
    }

    /// The hole with the given index.
    pub fn hole(&self, index: usize) -> (h: Hole)
        requires
            index < self@.holes.len(),
        ensures
            h == self@.holes[index as int],
    {
        self.pool.hole(index)
    }

    /// The number of spawners.
    pub fn spawner_count(&self) -> (n: usize)
        ensures
            n == self@.spawners.len(),
    {
        self.spawners.len()
    }

    /// The spawner with the given index.
    pub fn spawner(&self, index: usize) -> (sp: Spawner)
        requires
            index < self@.spawners.len(),
        ensures
            sp == self@.spawners[index as int],
    {
        self.spawners[index]
    }

    /// The score as the host shows it.
    pub fn score_text(&self) -> (s: String)
        ensures
            s@ == "Score: "@ + decimal(self@.score as nat),
    {
        let mut s = String::from_str("Score: ");
        let digits = decimal_text(self.score as u64);
        s.append(digits.as_str());
        s
    }

    /// The lives as the host shows them.
    pub fn lives_text(&self) -> (s: String)
        ensures
            s@ == "Lives: "@ + decimal(self@.lives as nat),
    {
        let mut s = String::from_str("Lives: ");
        let digits = decimal_text(self.lives as u64);
        s.append(digits.as_str());
        s
    }

    /// The message the host shows once the round is over.
    pub fn terminal_text() -> (s: &'static str)
        ensures
            s@ == "GAME OVER: The UN condemn you"@,
    {
        "GAME OVER: The UN condemn you"
    }

    /// Everything there is to draw right now.
    pub fn render(&self) -> (out: Vec<DisplayRecord>)
        ensures
            out@ == rendered(self@),
    {
        let mut out: Vec<DisplayRecord> = Vec::new();
        let mut k: usize = 0;
        assert(self.spawners@.take(0) =~= Seq::<Spawner>::empty());
        while k < self.spawners.len()
            invariant
                k <= self.spawners@.len(),
                out@ == enemy_records(self.spawners@.take(k as int)),
            decreases self.spawners@.len() - k,
        {
            assert(self.spawners@.take(k + 1).drop_last() =~= self.spawners@.take(k as int));
            match self.spawners[k].display() {
                Some(r) => {
                    out.push(r);
                },
                None => {},
            }
            k = k + 1;
        }
        assert(self.spawners@.take(k as int) =~= self.spawners@);
        let ghost enemies = out@;
        let n = self.pool.len();
        let mut i: usize = 0;
        while i < n
            invariant
                i <= n,
                n == self.pool@.len(),
                out@ =~= enemies + Seq::new(i as nat, |j: int| hole_record(self.pool@[j])),
            decreases n - i,
        {
            let h = self.pool.hole(i);
            out.push(h.display());
            i = i + 1;
        }
        out.push(self.striker.display());
        assert(out@ =~= rendered(self@));
        out
    }

    /// The index of the spawner that `name` is the label of.
    pub fn find_spawner(&self, name: &str) -> (found: Option<usize>)
        ensures
            found is Some <==> spawner_named(self@.spawners.len(), name@) is Some,
            found matches Some(k) ==> spawner_named(self@.spawners.len(), name@) == Some(k as nat),
    {
        let wanted = String::from_str(name);
        let n = self.spawners.len();
        let mut k: usize = 0;
        while k < n
            invariant
                k <= n,
                n == self.spawners@.len(),
                wanted@ == name@,
                forall|j: nat| j < k ==> name@ != #[trigger] enemy_label(j),
            decreases n - k,
        {
            let label = enemy_text(k);
            if label == wanted {
                proof {
                    assert(names_spawner(n as nat, name@, k as nat));
                    let c = choose|c: nat| names_spawner(n as nat, name@, c);
                    lemma_labels_injective(c, k as nat);
                }
                return Some(k);
            }
            k = k + 1;
        }
        proof {
            assert forall|c: nat| !names_spawner(n as nat, name@, c) by {
                if c < n {
                    assert(name@ != enemy_label(c));
                }
            }
        }
        None
    }

    /// Applies one collision event and returns the sound it calls for.
    pub fn apply_event(&mut self, event: &CollisionEvent) -> (sound: Option<Sound>)
        requires
            old(self).wf(),
        ensures
            final(self).wf(),
            (final(self)@, sound) == applied(old(self)@, event@),
    {
        if self.lives == 0 || event.ended {
            return None;
        }
        match event.striker_target() {
            None => None,
            Some(name) => match self.find_spawner(name) {
                Some(k) => {
                    let mut sp = self.spawners[k];
                    if sp.is_showing() {
                        proof {
                            lemma_strike_keeps_match(self.pool@, self.spawners@, k as int);
                        }
                        sp.hit(&mut self.pool);
                        self.spawners.set(k, sp);
                        if self.score < u32::MAX {
                            self.score = self.score + 1;
                        }
                        Some(Sound::Impact)
                    } else {
                        None
                    }
                },
                None => {
                    if self.pool.hit(name) {
                        self.lives = self.lives - 1;
                        Some(Sound::Miss)
                    } else {
                        None
                    }
                },
            },
        }
    }

    /// Applies a frame's collision events in order and returns the sounds
    /// they call for.
    pub fn resolve(&mut self, events: &Vec<CollisionEvent>) -> (sounds: Vec<Sound>)
        requires
            old(self).wf(),
        ensures
            final(self).wf(),
            (final(self)@, sounds@) == resolved(old(self)@, event_views(events@)),
    {
        let ghost start = self@;
        let ghost all = event_views(events@);
        let mut sounds: Vec<Sound> = Vec::new();
        let mut i: usize = 0;
        assert(all.take(0) =~= Seq::empty());
        while i < events.len()
            invariant
                i <= events@.len(),
                all == event_views(events@),
                self.wf(),
                (self@, sounds@) == resolved(start, all.take(i as int)),
            decreases events@.len() - i,
        {
            assert(all.take(i + 1).drop_last() =~= all.take(i as int));
            assert(all.take(i + 1).last() == events@[i as int]@);
            match self.apply_event(&events[i]) {
                Some(s) => {
                    sounds.push(s);
                },
                None => {},
            }
            i = i + 1;
        }
        assert(all.take(i as int) =~= all);
        sounds
    }

    /// Feeds one frame's cursor and button to the striker.
    pub fn steer(&mut self, cursor: Option<Point>, pressed: bool)
        ensures
            final(self)@ == (RoundView {
                striker: steered(old(self)@.striker, cursor, pressed),
                holes: old(self)@.holes,
                spawners: old(self)@.spawners,
                score: old(self)@.score,
                lives: old(self)@.lives,
            }),
    {
        match cursor {
            Some(p) => {
                self.striker.set_position(p);
            },
            None => {},
        }
        self.striker.set_pressed(pressed);
    }

    /// Advances every spawner by `delta` nanoseconds, in order. With a
    /// script, spawner `k` toggles with the script's draw `k`; without,
    /// chance decides. Returns the draws used, one per spawner.
    fn tick_spawners(&mut self, delta: u64, script: Option<&Vec<Draw>>) -> (used: Vec<Draw>)
        requires
            old(self).wf(),
            script matches Some(s) ==> s@.len() == old(self)@.spawners.len() && draws_fit(
                old(self)@.holes,
                old(self)@.spawners,
                delta,
                s@,
            ),
        ensures
            final(self).wf(),
            script matches Some(s) ==> used@ == s@,
            script is None ==> delays_in_range(old(self)@.spawners, delta, used@),
            used@.len() == old(self)@.spawners.len(),
            draws_fit(old(self)@.holes, old(self)@.spawners, delta, used@),
            final(self)@ == (RoundView {
                striker: old(self)@.striker,
                holes: ticked(old(self)@.holes, old(self)@.spawners, delta, used@).1,
                spawners: ticked(old(self)@.holes, old(self)@.spawners, delta, used@).0,
                score: old(self)@.score,
                lives: old(self)@.lives,
            }),
    {
        let ghost holes0 = self.pool@;
        let ghost spawners0 = self.spawners@;
        let ghost start = self@;
        let n = self.spawners.len();
        let mut used: Vec<Draw> = Vec::new();
        let mut k: usize = 0;
        while k < n
            invariant
                k <= n,
                n == spawners0.len(),
                self.spawners@.len() == n,
                used@.len() == k,
                self.wf(),
                self@.striker == start.striker,
                self@.score == start.score,
                self@.lives == start.lives,
                (self.spawners@, self.pool@) == ticked(holes0, spawners0, delta, used@),
                draws_fit(holes0, spawners0, delta, used@),
                forall|j: int| k <= j < n ==> self.spawners@[j] == spawners0[j],
                script is None ==> forall|j: int|
                    0 <= j < k && (#[trigger] spawners0[j]).timer.fires(delta) ==> MIN_DELAY
                        <= used@[j].delay < MAX_DELAY,
                script matches Some(s) ==> s@.len() == n && draws_fit(holes0, spawners0, delta, s@)
                    && used@ == s@.take(k as int),
            decreases n - k,
        {
            let ghost before = used@;
            let ghost holes1 = self.pool@;
            let ghost spawners1 = self.spawners@;
            let mut sp = self.spawners[k];
            let draw = match script {
                Some(s) => {
                    let d = s[k];
                    proof {
                        lemma_fit_prefix(holes0, spawners0, delta, s@, k + 1);
                        assert(s@.take(k + 1).drop_last() =~= s@.take(k as int));
                    }
                    sp.tick_with(delta, &mut self.pool, d);
                    d
                },
                None => {
                    proof {
                        if !is_up(sp) {
                            lemma_hidden_finds_free(holes1, spawners1, k as int);
                        }
                    }
                    match sp.tick(delta, &mut self.pool) {
                        Some(d) => d,
                        None => Draw { hole: 0, delay: 0 },
                    }
                },
            };
            proof {
                lemma_advance_keeps_match(holes1, spawners1, k as int, delta, draw);
            }
            self.spawners.set(k, sp);
            used.push(draw);
            proof {
                assert(used@.drop_last() =~= before);
                assert(used@.last() == draw);
                if script is Some {
                    assert(used@ =~= script.unwrap()@.take(k + 1));
                }
            }
            k = k + 1;
        }
        used
    }

    /// Steps the round by one frame, by the script if there is one and by
    /// chance if not, and returns the output and the draws used.
    fn play(&mut self, input: &FrameInput, script: Option<&Vec<Draw>>) -> (played: (
        FrameOutput,
        Vec<Draw>,
    ))
        requires
            old(self).wf(),
            old(self)@.lives > 0 ==> (script matches Some(s) ==> s@.len() == old(
                self,
            )@.spawners.len() && draws_fit(
                old(self)@.holes,
                old(self)@.spawners,
                input.delta,
                s@,
            )),
        ensures
            final(self).wf(),
            (final(self)@, played.0@) == frame_result(old(self)@, input@, played.1@),
            old(self)@.lives > 0 ==> {
                &&& played.1@.len() == old(self)@.spawners.len()
                &&& draws_fit(old(self)@.holes, old(self)@.spawners, input.delta, played.1@)
                &&& script matches Some(s) ==> played.1@ == s@
                &&& script is None ==> delays_in_range(
                    old(self)@.spawners,
                    input.delta,
                    played.1@,
                )
            },
    {
        if self.lives == 0 {
            return (
                FrameOutput { game_over: true, displays: Vec::new(), sounds: Vec::new() },
                Vec::new(),
            );
        }
        self.steer(input.cursor, input.pressed);
        let used = self.tick_spawners(input.delta, script);
        let displays = self.render();
        let sounds = self.resolve(&input.events);
        (FrameOutput { game_over: false, displays, sounds }, used)
    }

    /// Whether `draws` can stand in for chance in a frame of `delta`
    /// nanoseconds: there is one for each spawner, and each hidden spawner
    /// that toggles in the frame is given a hole that is free at its turn.
    pub fn accepts(&self, delta: u64, draws: &Vec<Draw>) -> (ok: bool)
        requires
            self.wf(),
        ensures
            ok == (draws@.len() == self@.spawners.len() && draws_fit(
                self@.holes,
                self@.spawners,
                delta,
                draws@,
            )),
    {
        let n = self.spawners.len();
        if draws.len() != n {
            return false;
        }
        let ghost holes0 = self.pool@;
        let ghost spawners0 = self.spawners@;
        let mut pool = self.pool.duplicate();
        let mut k: usize = 0;
        assert(draws@.take(0) =~= Seq::<Draw>::empty());
        while k < n
            invariant
                k <= n,
                n == spawners0.len(),
                n == draws@.len(),
                spawners0 == self.spawners@,
                holes0 == self.pool@,
                round_wf(self@),
                pool@ == ticked(holes0, spawners0, delta, draws@.take(k as int)).1,
                draws_fit(holes0, spawners0, delta, draws@.take(k as int)),
            decreases n - k,
        {
            let ghost prefix = draws@.take(k as int);
            let ghost longer = draws@.take(k + 1);
            proof {
                lemma_ticked_keeps_wf(holes0, spawners0, delta, prefix);
                lemma_ticked_leaves_rest(holes0, spawners0, delta, prefix);
                assert(longer.drop_last() =~= prefix);
                assert(longer.last() == draws@[k as int]);
            }
            let mut sp = self.spawners[k];
            let draw = draws[k];
            let fires = !sp.timer.finished && delta >= sp.timer.remaining;
            let blocked = match sp.state {
                SpawnerState::Hidden => !(draw.hole < pool.len() && pool.hole(draw.hole).state
                    == HoleState::Free),
                SpawnerState::Showing(_) => false,
            };
            if fires && blocked {
                proof {
                    assert(!draws_fit(holes0, spawners0, delta, longer));
                    if draws_fit(holes0, spawners0, delta, draws@) {
                        lemma_fit_prefix(holes0, spawners0, delta, draws@, k + 1);
                    }
                }
                return false;
            }
            assert(draws_fit(holes0, spawners0, delta, longer));
            sp.tick_with(delta, &mut pool, draw);
            k = k + 1;
        }
        assert(draws@.take(k as int) =~= draws@);
        true
    }

    /// Steps the round by one frame, with `draws` in place of chance:
    /// spawner `k`, if it toggles in this frame, does so with `draws[k]`.
    /// Whether the draws can be used is what `accepts` tells.
    pub fn frame_with(&mut self, input: &FrameInput, draws: &Vec<Draw>) -> (out: FrameOutput)
        requires
            old(self).wf(),
            old(self)@.lives > 0 ==> draws@.len() == old(self)@.spawners.len() && draws_fit(
                old(self)@.holes,
                old(self)@.spawners,
                input.delta,
                draws@,
            ),
        ensures
            final(self).wf(),
            (final(self)@, out@) == frame_result(old(self)@, input@, draws@),
    {
        let (out, _) = self.play(input, Some(draws));
        out
    }

    /// Steps the round by one frame and returns, beside the output, what
    /// chance decided: one draw per spawner, of which those of the spawners
    /// that toggled in this frame were used.
    ///
    /// Whatever chance decided, the frame is the one that `frame_with`
    /// plays with the draws returned.
    pub fn frame(&mut self, input: &FrameInput) -> (played: (FrameOutput, Vec<Draw>))
        requires
            old(self).wf(),
        ensures
            final(self).wf(),
            (final(self)@, played.0@) == frame_result(old(self)@, input@, played.1@),
            old(self)@.lives > 0 ==> {
                &&& played.1@.len() == old(self)@.spawners.len()
                &&& draws_fit(old(self)@.holes, old(self)@.spawners, input.delta, played.1@)
                &&& delays_in_range(old(self)@.spawners, input.delta, played.1@)
            },
    {
        self.play(input, None)
    }
}

} // verus!
