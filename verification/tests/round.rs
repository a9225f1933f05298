use whack_core::collision::CollisionEvent;
use whack_core::countdown::Countdown;
use whack_core::display::{DisplayRecord, Pose, Sound};
use whack_core::holes::HoleState;
use whack_core::label::Entity;
use whack_core::point::Point;
use whack_core::round::{FrameInput, RoundState};
use whack_core::spawner::{Draw, Spawner, SpawnerState, MAX_DELAY, MIN_DELAY};
use whack_core::striker::StrikerState;

const SECOND: u64 = 1_000_000_000;

fn layout() -> Vec<Point> {
    vec![
        Point::new(-300, 200),
        Point::new(0, 200),
        Point::new(300, 200),
        Point::new(-150, 0),
        Point::new(150, 0),
    ]
}

fn round_of_four(lives: u32) -> RoundState {
    RoundState::with_delays(layout(), &vec![SECOND, 5 * SECOND, 5 * SECOND, 5 * SECOND], lives)
}

fn quiet(delta: u64) -> FrameInput {
    FrameInput { delta, cursor: None, pressed: false, events: Vec::new() }
}

fn with_events(events: Vec<CollisionEvent>) -> FrameInput {
    FrameInput { delta: 0, cursor: None, pressed: false, events }
}

fn begin(first: &str, second: &str) -> CollisionEvent {
    CollisionEvent::new(first, second, false)
}

fn end(first: &str, second: &str) -> CollisionEvent {
    CollisionEvent::new(first, second, true)
}

fn unused() -> Vec<Draw> {
    vec![Draw { hole: 0, delay: 0 }; 4]
}

fn first_comes_up_in(hole: usize) -> Vec<Draw> {
    vec![
        Draw { hole, delay: 2 * SECOND },
        Draw { hole: 0, delay: 0 },
        Draw { hole: 0, delay: 0 },
        Draw { hole: 0, delay: 0 },
    ]
}

fn hole_states(round: &RoundState) -> Vec<HoleState> {
    (0..round.hole_count()).map(|i| round.hole(i).state).collect()
}

fn spawners(round: &RoundState) -> Vec<Spawner> {
    (0..round.spawner_count()).map(|k| round.spawner(k)).collect()
}

fn all_free() -> Vec<HoleState> {
    vec![HoleState::Free; 5]
}

#[test]
fn round_starts_with_everything_at_rest() {
    let round = round_of_four(3);
    assert_eq!(round.score(), 0);
    assert_eq!(round.lives(), 3);
    assert!(!round.is_over());
    assert_eq!(round.striker().position, Point::new(0, 0));
    assert_eq!(round.striker().state, StrikerState::Hold);
    assert_eq!(round.hole_count(), 5);
    assert_eq!(hole_states(&round), all_free());
    assert_eq!(round.spawner_count(), 4);
    for (k, delay) in [SECOND, 5 * SECOND, 5 * SECOND, 5 * SECOND].into_iter().enumerate() {
        assert_eq!(
            round.spawner(k),
            Spawner { id: k, state: SpawnerState::Hidden, timer: Countdown { remaining: delay, finished: false } }
        );
    }
}

#[test]
fn new_round_draws_first_delays_in_range() {
    let round = RoundState::new(layout(), 4, 3);
    assert_eq!(round.score(), 0);
    assert_eq!(round.lives(), 3);
    assert_eq!(round.hole_count(), 5);
    assert_eq!(hole_states(&round), all_free());
    assert_eq!(round.spawner_count(), 4);
    for k in 0..4 {
        let sp = round.spawner(k);
        assert_eq!(sp.id, k);
        assert_eq!(sp.state, SpawnerState::Hidden);
        assert!(!sp.timer.finished);
        assert!(MIN_DELAY <= sp.timer.remaining && sp.timer.remaining < MAX_DELAY);
    }
}

#[test]
fn round_without_spawners_or_holes_just_runs() {
    let mut round = RoundState::new(Vec::new(), 0, 3);
    let (out, draws) = round.frame(&with_events(vec![begin("player", "hole_0"), begin("player", "enemy_0")]));
    assert!(draws.is_empty());
    assert!(!out.game_over);
    assert_eq!(out.displays.len(), 1);
    assert_eq!(out.displays[0].entity, Entity::Striker);
    assert!(out.sounds.is_empty());
    assert_eq!(round.lives(), 3);
    assert_eq!(round.score(), 0);
}

#[test]
fn struck_enemy_scores_hides_and_frees_its_hole() {
    let mut round = round_of_four(3);
    let out = round.frame_with(&quiet(SECOND), &first_comes_up_in(1));
    assert!(out.sounds.is_empty());
    assert_eq!(round.spawner(0).state, SpawnerState::Showing(Point::new(0, 200)));
    assert_eq!(round.hole(1).state, HoleState::Occupied);
    assert_eq!(round.score(), 0);

    let out = round.frame_with(&with_events(vec![begin("player", "enemy_0")]), &unused());
    assert_eq!(round.score(), 1);
    assert_eq!(round.lives(), 3);
    assert_eq!(round.spawner(0).state, SpawnerState::Hidden);
    assert_eq!(round.hole(1).state, HoleState::Free);
    assert_eq!(hole_states(&round), all_free());
    assert_eq!(out.sounds, vec![Sound::Impact]);
    assert!(!out.game_over);
}

#[test]
fn struck_enemy_scores_whichever_side_names_the_striker() {
    let mut round = round_of_four(3);
    round.frame_with(&quiet(SECOND), &first_comes_up_in(1));
    let out = round.frame_with(&with_events(vec![begin("enemy_0", "player")]), &unused());
    assert_eq!(round.score(), 1);
    assert_eq!(out.sounds, vec![Sound::Impact]);
}

#[test]
fn strike_on_a_free_hole_costs_a_life() {
    let mut round = round_of_four(3);
    let out = round.frame_with(&with_events(vec![begin("player", "hole_2")]), &unused());
    assert_eq!(round.lives(), 2);
    assert_eq!(round.score(), 0);
    assert_eq!(out.sounds, vec![Sound::Miss]);
    assert_eq!(hole_states(&round), all_free());
}

#[test]
fn strike_on_an_occupied_hole_costs_nothing() {
    let mut round = round_of_four(3);
    round.frame_with(&quiet(SECOND), &first_comes_up_in(2));
    assert_eq!(round.hole(2).state, HoleState::Occupied);
    let out = round.frame_with(&with_events(vec![begin("player", "hole_2")]), &unused());
    assert_eq!(round.lives(), 3);
    assert_eq!(round.score(), 0);
    assert!(out.sounds.is_empty());
    assert_eq!(round.hole(2).state, HoleState::Occupied);
    assert_eq!(round.spawner(0).state, SpawnerState::Showing(Point::new(300, 200)));
}

#[test]
fn round_that_is_over_no_longer_changes() {
    let mut round = round_of_four(1);
    round.frame_with(&quiet(SECOND), &first_comes_up_in(3));
    let out = round.frame_with(
        &FrameInput {
            delta: 0,
            cursor: Some(Point::new(40, 50)),
            pressed: true,
            events: vec![begin("player", "hole_0")],
        },
        &unused(),
    );
    assert!(!out.game_over);
    assert_eq!(out.sounds, vec![Sound::Miss]);
    assert_eq!(round.lives(), 0);
    assert!(round.is_over());

    let striker = round.striker();
    let holes = hole_states(&round);
    let enemies = spawners(&round);
    for _ in 0..5 {
        let out = round.frame_with(
            &FrameInput {
                delta: 10 * SECOND,
                cursor: Some(Point::new(-7, 7)),
                pressed: false,
                events: vec![begin("player", "enemy_0"), begin("player", "hole_1")],
            },
            &first_comes_up_in(0),
        );
        assert!(out.game_over);
        assert!(out.displays.is_empty());
        assert!(out.sounds.is_empty());
        assert_eq!(round.lives(), 0);
        assert_eq!(round.score(), 0);
        assert_eq!(round.striker(), striker);
        assert_eq!(hole_states(&round), holes);
        assert_eq!(spawners(&round), enemies);
        assert!(round.is_over());
    }
    let (out, draws) = round.frame(&quiet(10 * SECOND));
    assert!(out.game_over);
    assert!(out.displays.is_empty());
    assert!(out.sounds.is_empty());
    assert!(draws.is_empty());
    assert_eq!(spawners(&round), enemies);
    assert_eq!(RoundState::terminal_text(), "GAME OVER: The UN condemn you");
}

#[test]
fn round_started_without_lives_is_over_at_once() {
    let mut round = round_of_four(0);
    assert!(round.is_over());
    let out = round.frame_with(&quiet(SECOND), &first_comes_up_in(0));
    assert!(out.game_over);
    assert_eq!(round.spawner(0).state, SpawnerState::Hidden);
    assert_eq!(round.spawner(0).timer.remaining, SECOND);
}

#[test]
fn events_after_the_last_life_are_ignored() {
    let mut round = round_of_four(1);
    round.frame_with(&quiet(SECOND), &first_comes_up_in(1));
    let out = round.frame_with(
        &with_events(vec![begin("player", "hole_0"), begin("player", "enemy_0"), begin("player", "hole_2")]),
        &unused(),
    );
    assert_eq!(out.sounds, vec![Sound::Miss]);
    assert_eq!(round.lives(), 0);
    assert_eq!(round.score(), 0);
    assert_eq!(round.spawner(0).state, SpawnerState::Showing(Point::new(0, 200)));
    assert_eq!(round.hole(1).state, HoleState::Occupied);
}

#[test]
fn end_of_overlap_changes_nothing() {
    let mut round = round_of_four(3);
    round.frame_with(&quiet(SECOND), &first_comes_up_in(1));
    let holes = hole_states(&round);
    let enemies = spawners(&round);
    let out = round.frame_with(
        &with_events(vec![
            end("player", "enemy_0"),
            end("enemy_0", "player"),
            end("player", "hole_0"),
            end("hole_4", "player"),
            end("enemy_0", "hole_1"),
            end("player", "player"),
            end("", ""),
        ]),
        &unused(),
    );
    assert!(out.sounds.is_empty());
    assert_eq!(round.score(), 0);
    assert_eq!(round.lives(), 3);
    assert_eq!(hole_states(&round), holes);
    assert_eq!(spawners(&round), enemies);
    assert_eq!(round.striker().state, StrikerState::Hold);
}

#[test]
fn events_without_the_striker_are_ignored() {
    let mut round = round_of_four(3);
    round.frame_with(&quiet(SECOND), &first_comes_up_in(1));
    let out = round.frame_with(
        &with_events(vec![begin("enemy_0", "hole_1"), begin("hole_0", "hole_2"), begin("enemy_0", "enemy_0")]),
        &unused(),
    );
    assert!(out.sounds.is_empty());
    assert_eq!(round.score(), 0);
    assert_eq!(round.lives(), 3);
    assert_eq!(round.spawner(0).state, SpawnerState::Showing(Point::new(0, 200)));
}

#[test]
fn unknown_labels_are_ignored() {
    let mut round = round_of_four(3);
    round.frame_with(&quiet(SECOND), &first_comes_up_in(1));
    let out = round.frame_with(
        &with_events(vec![
            begin("player", "enemy_4"),
            begin("player", "enemy_00"),
            begin("player", "enemy"),
            begin("player", "enemy_"),
            begin("player", "hole_5"),
            begin("player", "hole_02"),
            begin("player", "hole"),
            begin("player", "rock"),
            begin("player", "player"),
            begin("player", ""),
        ]),
        &unused(),
    );
    assert!(out.sounds.is_empty());
    assert_eq!(round.score(), 0);
    assert_eq!(round.lives(), 3);
}

#[test]
fn hidden_enemy_cannot_be_hit() {
    let mut round = round_of_four(3);
    let out = round.frame_with(&with_events(vec![begin("player", "enemy_0"), begin("player", "enemy_3")]), &unused());
    assert!(out.sounds.is_empty());
    assert_eq!(round.score(), 0);
    assert_eq!(hole_states(&round), all_free());
}

#[test]
fn second_hit_on_the_same_enemy_does_not_score() {
    let mut round = round_of_four(3);
    round.frame_with(&quiet(SECOND), &first_comes_up_in(4));
    let out = round.frame_with(
        &with_events(vec![begin("player", "enemy_0"), begin("player", "enemy_0"), begin("enemy_0", "player")]),
        &unused(),
    );
    assert_eq!(out.sounds, vec![Sound::Impact]);
    assert_eq!(round.score(), 1);
    assert_eq!(hole_states(&round), all_free());
}

#[test]
fn enemy_and_its_hole_are_judged_one_after_the_other() {
    let mut round = round_of_four(3);
    round.frame_with(&quiet(SECOND), &first_comes_up_in(1));
    let out = round.frame_with(
        &with_events(vec![begin("player", "hole_1"), begin("player", "enemy_0")]),
        &unused(),
    );
    assert_eq!(out.sounds, vec![Sound::Impact]);
    assert_eq!(round.score(), 1);
    assert_eq!(round.lives(), 3);

    let mut round = round_of_four(3);
    round.frame_with(&quiet(SECOND), &first_comes_up_in(1));
    let out = round.frame_with(
        &with_events(vec![begin("player", "enemy_0"), begin("player", "hole_1")]),
        &unused(),
    );
    assert_eq!(out.sounds, vec![Sound::Impact, Sound::Miss]);
    assert_eq!(round.score(), 1);
    assert_eq!(round.lives(), 2);
}

#[test]
fn frame_applies_input_to_the_striker() {
    let mut round = round_of_four(3);
    let mut input = quiet(0);
    input.cursor = Some(Point::new(120, -80));
    input.pressed = true;
    round.frame_with(&input, &unused());
    assert_eq!(round.striker().position, Point::new(120, -80));
    assert_eq!(round.striker().state, StrikerState::Hit);
    input.cursor = None;
    round.frame_with(&input, &unused());
    assert_eq!(round.striker().position, Point::new(120, -80));
    assert_eq!(round.striker().state, StrikerState::Pressed);
    input.pressed = false;
    round.frame_with(&input, &unused());
    assert_eq!(round.striker().position, Point::new(120, -80));
    assert_eq!(round.striker().state, StrikerState::Hold);
}

#[test]
fn spawners_are_advanced_in_order() {
    let mut round = RoundState::with_delays(layout(), &vec![SECOND, SECOND, 3 * SECOND, SECOND], 3);
    let draws = vec![
        Draw { hole: 4, delay: 10 },
        Draw { hole: 0, delay: 20 },
        Draw { hole: 1, delay: 30 },
        Draw { hole: 2, delay: 40 },
    ];
    round.frame_with(&quiet(SECOND), &draws);
    assert_eq!(
        spawners(&round),
        vec![
            Spawner {
                id: 0,
                state: SpawnerState::Showing(Point::new(150, 0)),
                timer: Countdown { remaining: 10, finished: false }
            },
            Spawner {
                id: 1,
                state: SpawnerState::Showing(Point::new(-300, 200)),
                timer: Countdown { remaining: 20, finished: false }
            },
            Spawner { id: 2, state: SpawnerState::Hidden, timer: Countdown { remaining: 2 * SECOND, finished: false } },
            Spawner {
                id: 3,
                state: SpawnerState::Showing(Point::new(300, 200)),
                timer: Countdown { remaining: 40, finished: false }
            },
        ]
    );
    assert_eq!(
        hole_states(&round),
        vec![HoleState::Occupied, HoleState::Free, HoleState::Occupied, HoleState::Free, HoleState::Occupied]
    );
    let draws = vec![
        Draw { hole: 0, delay: 50 },
        Draw { hole: 4, delay: 60 },
        Draw { hole: 0, delay: 0 },
        Draw { hole: 0, delay: 0 },
    ];
    round.frame_with(&quiet(25), &draws);
    assert_eq!(round.spawner(0).state, SpawnerState::Hidden);
    assert_eq!(round.spawner(0).timer.remaining, 50);
    assert_eq!(round.spawner(1).state, SpawnerState::Hidden);
    assert_eq!(round.spawner(1).timer.remaining, 60);
    assert_eq!(round.spawner(2).timer.remaining, 2 * SECOND - 25);
    assert_eq!(round.spawner(3).state, SpawnerState::Showing(Point::new(300, 200)));
    assert_eq!(round.spawner(3).timer.remaining, 15);
    assert_eq!(
        hole_states(&round),
        vec![HoleState::Free, HoleState::Free, HoleState::Occupied, HoleState::Free, HoleState::Free]
    );
}

#[test]
fn hole_freed_by_one_spawner_serves_the_next_in_the_same_frame() {
    let mut round = RoundState::with_delays(vec![Point::new(1, 1)], &vec![SECOND], 3);
    round.frame_with(&quiet(SECOND), &vec![Draw { hole: 0, delay: SECOND }]);
    assert_eq!(round.spawner(0).state, SpawnerState::Showing(Point::new(1, 1)));
    round.frame_with(&quiet(SECOND), &vec![Draw { hole: 0, delay: SECOND }]);
    assert_eq!(round.spawner(0).state, SpawnerState::Hidden);
    round.frame_with(&quiet(SECOND), &vec![Draw { hole: 0, delay: SECOND }]);
    assert_eq!(round.spawner(0).state, SpawnerState::Showing(Point::new(1, 1)));
    assert_eq!(round.hole(0).state, HoleState::Occupied);
}

#[test]
fn displays_list_enemies_then_holes_then_striker() {
    let mut round = RoundState::with_delays(layout(), &vec![SECOND, 9 * SECOND, SECOND, 9 * SECOND], 3);
    let draws = vec![
        Draw { hole: 3, delay: SECOND },
        Draw { hole: 0, delay: 0 },
        Draw { hole: 0, delay: SECOND },
        Draw { hole: 0, delay: 0 },
    ];
    let mut input = quiet(SECOND);
    input.cursor = Some(Point::new(5, 6));
    input.pressed = true;
    let out = round.frame_with(&input, &draws);
    let fixture = |entity: Entity, position: Point, layer: u32, collidable: bool| DisplayRecord {
        entity,
        position,
        layer,
        scale_percent: 50,
        pose: Pose::Neutral,
        collidable,
    };
    assert_eq!(
        out.displays,
        vec![
            fixture(Entity::Enemy(0), Point::new(-150, 0), 2, true),
            fixture(Entity::Enemy(2), Point::new(-300, 200), 2, true),
            fixture(Entity::Hole(0), Point::new(-300, 200), 1, false),
            fixture(Entity::Hole(1), Point::new(0, 200), 1, true),
            fixture(Entity::Hole(2), Point::new(300, 200), 1, true),
            fixture(Entity::Hole(3), Point::new(-150, 0), 1, false),
            fixture(Entity::Hole(4), Point::new(150, 0), 1, true),
            DisplayRecord {
                entity: Entity::Striker,
                position: Point::new(5, 6),
                layer: 3,
                scale_percent: 60,
                pose: Pose::Raised,
                collidable: true,
            },
        ]
    );
    assert_eq!(round.render(), out.displays);
}

#[test]
fn displays_show_the_round_before_collisions_are_applied() {
    let mut round = round_of_four(3);
    round.frame_with(&quiet(SECOND), &first_comes_up_in(1));
    let out = round.frame_with(&with_events(vec![begin("player", "enemy_0")]), &unused());
    assert_eq!(out.displays.len(), 7);
    assert_eq!(out.displays[0].entity, Entity::Enemy(0));
    assert!(!out.displays[2].collidable);
    let now = round.render();
    assert_eq!(now.len(), 6);
    assert!(now.iter().all(|r| r.entity != Entity::Enemy(0)));
    assert!(now[1].collidable);
    let out = round.frame_with(&quiet(0), &unused());
    assert_eq!(out.displays, now);
}

#[test]
fn texts_spell_score_and_lives() {
    let mut round = round_of_four(3);
    assert_eq!(round.score_text(), "Score: 0");
    assert_eq!(round.lives_text(), "Lives: 3");
    round.frame_with(&quiet(SECOND), &first_comes_up_in(1));
    round.frame_with(&with_events(vec![begin("player", "enemy_0"), begin("player", "hole_4")]), &unused());
    assert_eq!(round.score_text(), "Score: 1");
    assert_eq!(round.lives_text(), "Lives: 2");
    let round = RoundState::with_delays(Vec::new(), &Vec::new(), 4_294_967_295);
    assert_eq!(round.lives_text(), "Lives: 4294967295");
}

#[test]
fn many_hits_add_up() {
    let mut round = RoundState::with_delays(vec![Point::new(0, 0)], &vec![0], 3);
    for n in 1..=12u32 {
        round.frame_with(&quiet(0), &vec![Draw { hole: 0, delay: SECOND }]);
        assert_eq!(round.spawner(0).state, SpawnerState::Showing(Point::new(0, 0)));
        round.frame_with(&with_events(vec![begin("player", "enemy_0")]), &vec![Draw { hole: 0, delay: 0 }]);
        assert_eq!(round.score(), n);
        round.frame_with(&quiet(SECOND), &vec![Draw { hole: 0, delay: 0 }]);
        assert_eq!(round.spawner(0).state, SpawnerState::Showing(Point::new(0, 0)));
        round.frame_with(&quiet(0), &vec![Draw { hole: 0, delay: 0 }]);
        assert_eq!(round.spawner(0).state, SpawnerState::Hidden);
    }
    assert_eq!(round.score_text(), "Score: 12");
}

#[test]
fn find_spawner_reads_enemy_labels() {
    let round = round_of_four(3);
    assert_eq!(round.find_spawner("enemy_0"), Some(0));
    assert_eq!(round.find_spawner("enemy_3"), Some(3));
    assert_eq!(round.find_spawner("enemy_4"), None);
    assert_eq!(round.find_spawner("enemy_03"), None);
    assert_eq!(round.find_spawner("enemy"), None);
    assert_eq!(round.find_spawner("hole_0"), None);
    assert_eq!(round.find_spawner(""), None);
}

#[test]
fn apply_event_reports_the_sound() {
    let mut round = round_of_four(2);
    assert_eq!(round.apply_event(&begin("player", "hole_3")), Some(Sound::Miss));
    assert_eq!(round.apply_event(&end("player", "hole_3")), None);
    assert_eq!(round.apply_event(&begin("player", "enemy_1")), None);
    assert_eq!(round.apply_event(&begin("hole_3", "player")), Some(Sound::Miss));
    assert_eq!(round.apply_event(&begin("hole_3", "player")), None);
    assert_eq!(round.lives(), 0);
}

#[test]
fn resolve_applies_events_in_order() {
    let mut round = round_of_four(3);
    round.frame_with(&quiet(SECOND), &first_comes_up_in(0));
    let sounds = round.resolve(&vec![
        begin("player", "hole_0"),
        begin("player", "hole_1"),
        end("player", "hole_2"),
        begin("player", "enemy_0"),
        begin("player", "hole_0"),
    ]);
    assert_eq!(sounds, vec![Sound::Miss, Sound::Impact, Sound::Miss]);
    assert_eq!(round.lives(), 1);
    assert_eq!(round.score(), 1);
}

#[test]
fn steer_moves_only_the_striker() {
    let mut round = round_of_four(3);
    round.steer(Some(Point::new(1, 2)), true);
    assert_eq!(round.striker().position, Point::new(1, 2));
    assert_eq!(round.striker().state, StrikerState::Hit);
    assert_eq!(round.score(), 0);
    assert_eq!(round.lives(), 3);
    assert_eq!(hole_states(&round), all_free());
}

fn check_correspondence(round: &RoundState) {
    let showing: Vec<Point> = spawners(round)
        .iter()
        .filter_map(|sp| match sp.state {
            SpawnerState::Showing(p) => Some(p),
            SpawnerState::Hidden => None,
        })
        .collect();
    let occupied: Vec<Point> = (0..round.hole_count())
        .map(|i| round.hole(i))
        .filter(|h| h.state == HoleState::Occupied)
        .map(|h| h.pos)
        .collect();
    assert_eq!(showing.len(), occupied.len());
    for p in &showing {
        assert!(occupied.contains(p));
        assert_eq!(showing.iter().filter(|q| *q == p).count(), 1);
    }
    for k in 0..round.spawner_count() {
        assert_eq!(round.spawner(k).id, k);
        assert!(!round.spawner(k).timer.finished);
    }
}

#[test]
fn chance_keeps_spawners_and_holes_in_step() {
    let mut round = RoundState::new(layout(), 4, 1_000_000);
    let mut toggles = 0;
    for frame in 0..3_000u32 {
        let mut events = Vec::new();
        if frame % 7 == 0 {
            events.push(begin("player", "enemy_1"));
            events.push(begin("hole_2", "player"));
            events.push(end("player", "enemy_0"));
        }
        let before = spawners(&round);
        let input = FrameInput {
            delta: SECOND / 10,
            cursor: Some(Point::new(frame as i32, 0)),
            pressed: frame % 3 == 0,
            events,
        };
        let (out, draws) = round.frame(&input);
        assert!(!out.game_over);
        assert_eq!(draws.len(), 4);
        for k in 0..4 {
            if before[k].timer.remaining <= SECOND / 10 {
                toggles += 1;
                assert!(MIN_DELAY <= draws[k].delay && draws[k].delay < MAX_DELAY);
            }
        }
        check_correspondence(&round);
        assert_eq!(out.displays.last().unwrap().entity, Entity::Striker);
    }
    assert!(toggles > 300);
    assert!(round.score() > 0);
}

#[test]
fn full_house_never_asks_for_a_sixth_hole() {
    let mut round = RoundState::new(layout(), 5, 3);
    for _ in 0..3_000 {
        round.frame(&quiet(SECOND / 4));
        check_correspondence(&round);
    }
}

#[test]
fn frame_can_be_played_again_from_its_draws() {
    let delays = vec![SECOND, 2 * SECOND, SECOND / 2, 3 * SECOND];
    let mut live = RoundState::with_delays(layout(), &delays, 50);
    let mut replay = RoundState::with_delays(layout(), &delays, 50);
    for frame in 0..600u32 {
        let mut events = Vec::new();
        if frame % 5 == 0 {
            events.push(begin("player", "enemy_2"));
            events.push(begin("player", "hole_0"));
        }
        let input = FrameInput { delta: SECOND / 5, cursor: None, pressed: frame % 2 == 0, events };
        let (out, draws) = live.frame(&input);
        let again = replay.frame_with(&input, &draws);
        assert_eq!(out.game_over, again.game_over);
        assert_eq!(out.displays, again.displays);
        assert_eq!(out.sounds, again.sounds);
        assert_eq!(spawners(&live), spawners(&replay));
        assert_eq!(hole_states(&live), hole_states(&replay));
        assert_eq!(live.score(), replay.score());
        assert_eq!(live.lives(), replay.lives());
        assert_eq!(live.striker(), replay.striker());
    }
    assert!(live.is_over());
}

#[test]
fn accepts_tells_whether_draws_fit() {
    let round = round_of_four(3);
    assert!(round.accepts(SECOND, &first_comes_up_in(1)));
    assert!(round.accepts(SECOND, &first_comes_up_in(4)));
    assert!(!round.accepts(SECOND, &first_comes_up_in(5)));
    assert!(!round.accepts(SECOND, &first_comes_up_in(usize::MAX)));
    assert!(round.accepts(SECOND - 1, &first_comes_up_in(5)));
    assert!(round.accepts(0, &unused()));
    assert!(!round.accepts(0, &Vec::new()));
    assert!(!round.accepts(0, &vec![Draw { hole: 0, delay: 0 }; 3]));
    assert!(!round.accepts(0, &vec![Draw { hole: 0, delay: 0 }; 5]));
}

#[test]
fn accepts_follows_the_holes_through_the_frame() {
    let round = RoundState::with_delays(layout(), &vec![SECOND, SECOND, 5 * SECOND, 5 * SECOND], 3);
    let both = |a: usize, b: usize| {
        vec![
            Draw { hole: a, delay: SECOND },
            Draw { hole: b, delay: 2 * SECOND },
            Draw { hole: 9, delay: 0 },
            Draw { hole: 9, delay: 0 },
        ]
    };
    assert!(round.accepts(SECOND, &both(1, 2)));
    assert!(round.accepts(SECOND, &both(2, 1)));
    assert!(!round.accepts(SECOND, &both(1, 1)));
    assert!(!round.accepts(SECOND, &both(1, 5)));

    let mut round = round;
    round.frame_with(&quiet(SECOND), &both(1, 2));
    assert_eq!(round.spawner(0).state, SpawnerState::Showing(Point::new(0, 200)));
    assert_eq!(round.spawner(1).state, SpawnerState::Showing(Point::new(300, 200)));
    // Spawner 0 hides after one more second and gives hole 1 back; nobody
    // comes up, so no hole is asked for.
    assert!(round.accepts(SECOND, &both(9, 9)));
    round.frame_with(&quiet(SECOND), &both(9, 9));
    assert_eq!(round.spawner(0).state, SpawnerState::Hidden);
    assert_eq!(round.spawner(1).timer.remaining, SECOND);
    // Now spawner 1 hides and frees hole 2 after spawner 0 has had its
    // turn: hole 2 is still taken when spawner 0 comes up.
    assert!(!round.accepts(SECOND, &both(2, 9)));
    assert!(round.accepts(SECOND, &both(1, 9)));
}

#[test]
fn accepts_leaves_the_round_alone() {
    let round = round_of_four(3);
    let before = spawners(&round);
    assert!(round.accepts(10 * SECOND, &vec![
        Draw { hole: 0, delay: 1 },
        Draw { hole: 1, delay: 1 },
        Draw { hole: 2, delay: 1 },
        Draw { hole: 3, delay: 1 },
    ]));
    assert_eq!(spawners(&round), before);
    assert_eq!(hole_states(&round), all_free());
}

#[test]
fn draws_of_a_played_frame_are_accepted() {
    let mut live = RoundState::new(layout(), 4, 3);
    let mut shadow_delays = Vec::new();
    for k in 0..4 {
        shadow_delays.push(live.spawner(k).timer.remaining);
    }
    let mut shadow = RoundState::with_delays(layout(), &shadow_delays, 3);
    for _ in 0..500 {
        let input = quiet(SECOND / 3);
        let (_, draws) = live.frame(&input);
        assert!(shadow.accepts(input.delta, &draws));
        shadow.frame_with(&input, &draws);
        assert_eq!(spawners(&live), spawners(&shadow));
        assert_eq!(hole_states(&live), hole_states(&shadow));
    }
}

#[test]
fn standard_round_has_five_holes_four_enemies_three_lives() {
    assert_eq!(RoundState::standard_layout(), layout());
    let round = RoundState::standard();
    assert_eq!(round.lives(), 3);
    assert_eq!(round.score(), 0);
    assert_eq!(round.score_text(), "Score: 0");
    assert_eq!(round.lives_text(), "Lives: 3");
    assert_eq!(round.hole_count(), 5);
    for (i, p) in layout().into_iter().enumerate() {
        assert_eq!(round.hole(i).id, i);
        assert_eq!(round.hole(i).pos, p);
        assert_eq!(round.hole(i).state, HoleState::Free);
    }
    assert_eq!(round.spawner_count(), 4);
    for k in 0..4 {
        let sp = round.spawner(k);
        assert_eq!(sp.id, k);
        assert_eq!(sp.state, SpawnerState::Hidden);
        assert!(!sp.timer.finished);
        assert!(MIN_DELAY <= sp.timer.remaining && sp.timer.remaining < MAX_DELAY);
    }
}
