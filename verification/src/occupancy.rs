//! The bookkeeping that ties spawners to holes: the spawners that show and
//! the holes that are occupied correspond one to one.

use vstd::prelude::*;
use crate::holes::{
    Hole, HoleState, any_free, free_count, holes_wf, lemma_all_free, lemma_free_count_bound,
    lemma_occupy_facts, lemma_release_occupied, occupied_at,
};
use crate::point::Point;
use crate::spawner::{
    Draw, Spawner, SpawnerState, admissible, advanced, is_up, place, struck, toggled,
};

verus! {

/// Some spawner shows at `p`.
pub open spec fn shown_at(spawners: Seq<Spawner>, p: Point) -> bool {
    exists|k: int|
        0 <= k < spawners.len() && (#[trigger] spawners[k]).state == SpawnerState::Showing(p)
}

/// How many spawners show.
pub open spec fn showing_count(spawners: Seq<Spawner>) -> nat
    decreases spawners.len(),
{
    if spawners.len() == 0 {
        0
    } else {
        showing_count(spawners.drop_last()) + if is_up(spawners.last()) {
            1nat
        } else {
            0nat
        }
    }
}

/// The spawners that show and the holes that are occupied correspond one
/// to one: every showing spawner sits at an occupied hole, no two sit at
/// the same place, every occupied hole has its spawner, and so there are
/// as many of the one as of the other.
pub open spec fn matched(holes: Seq<Hole>, spawners: Seq<Spawner>) -> bool {
    &&& forall|k: int|
        0 <= k < spawners.len() && is_up(#[trigger] spawners[k]) ==> occupied_at(
            holes,
            place(spawners[k]),
        )
    &&& forall|j: int, k: int|
        0 <= j < k < spawners.len() && is_up(#[trigger] spawners[j]) && is_up(
            #[trigger] spawners[k],
        ) ==> place(spawners[j]) != place(spawners[k])
    &&& forall|i: int|
        0 <= i < holes.len() && (#[trigger] holes[i]).state == HoleState::Occupied ==> shown_at(
            spawners,
            holes[i].pos,
        )
    &&& showing_count(spawners) + free_count(holes) == holes.len()
}

/// Replacing one spawner changes the number that show by the difference
/// between the new one and the old one.
pub proof fn lemma_showing_update(s: Seq<Spawner>, k: int, sp: Spawner)
    requires
        0 <= k < s.len(),
    ensures
        showing_count(s.update(k, sp)) + (if is_up(s[k]) {
            1nat
        } else {
            0nat
        }) == showing_count(s) + (if is_up(sp) {
            1nat
        } else {
            0nat
        }),
    decreases s.len(),
{
    let t = s.update(k, sp);
    if k == s.len() - 1 {
        assert(t.drop_last() =~= s.drop_last());
    } else {
        assert(t.drop_last() =~= s.drop_last().update(k, sp));
        lemma_showing_update(s.drop_last(), k, sp);
    }
}

/// No more spawners show than there are, and fewer if one is hidden.
pub proof fn lemma_showing_bound(s: Seq<Spawner>)
    ensures
        showing_count(s) <= s.len(),
        (exists|k: int| 0 <= k < s.len() && !is_up(#[trigger] s[k])) ==> showing_count(s)
            < s.len(),
    decreases s.len(),
{
    if s.len() > 0 {
        lemma_showing_bound(s.drop_last());
        if exists|k: int| 0 <= k < s.len() && !is_up(#[trigger] s[k]) {
            let k = choose|k: int| 0 <= k < s.len() && !is_up(#[trigger] s[k]);
            if k < s.len() - 1 {
                assert(!is_up(s.drop_last()[k]));
            }
        }
    }
}

/// While the correspondence holds and there are no more spawners than
/// holes, a hidden spawner always finds a free hole.
pub proof fn lemma_hidden_finds_free(holes: Seq<Hole>, spawners: Seq<Spawner>, k: int)
    requires
        matched(holes, spawners),
        spawners.len() <= holes.len(),
        0 <= k < spawners.len(),
        !is_up(spawners[k]),
    ensures
        any_free(holes),
{
    lemma_showing_bound(spawners);
    lemma_free_count_bound(holes);
}

/// A toggle keeps the correspondence.
pub proof fn lemma_toggle_keeps_match(holes: Seq<Hole>, spawners: Seq<Spawner>, k: int, draw: Draw)
    requires
        holes_wf(holes),
        matched(holes, spawners),
        0 <= k < spawners.len(),
        admissible(spawners[k], holes, draw),
    ensures
        holes_wf(toggled(spawners[k], holes, draw).1),
        toggled(spawners[k], holes, draw).1.len() == holes.len(),
        toggled(spawners[k], holes, draw).0.id == spawners[k].id,
        matched(
            toggled(spawners[k], holes, draw).1,
            spawners.update(k, toggled(spawners[k], holes, draw).0),
        ),
{
    let sp = spawners[k];
    let (next_sp, next_holes) = toggled(sp, holes, draw);
    let next_spawners = spawners.update(k, next_sp);
    lemma_showing_update(spawners, k, next_sp);
    match sp.state {
        SpawnerState::Hidden => {
            let i = draw.hole as int;
            let p = holes[i].pos;
            lemma_occupy_facts(holes, i);
            assert forall|j: int| 0 <= j < next_spawners.len() && is_up(#[trigger] next_spawners[j]) implies occupied_at(
                next_holes,
                place(next_spawners[j]),
            ) by {
                if j == k {
                    assert(next_holes[i].pos == p && next_holes[i].state == HoleState::Occupied);
                } else {
                    assert(is_up(spawners[j]));
                    let q = place(spawners[j]);
                    let w = choose|w: int|
                        0 <= w < holes.len() && (#[trigger] holes[w]).pos == q && holes[w].state
                            == HoleState::Occupied;
                    assert(next_holes[w].pos == q && next_holes[w].state == HoleState::Occupied);
                }
            }
            assert forall|a: int, b: int|
                0 <= a < b < next_spawners.len() && is_up(#[trigger] next_spawners[a]) && is_up(
                    #[trigger] next_spawners[b],
                ) implies place(next_spawners[a]) != place(next_spawners[b]) by {
                if a == k || b == k {
                    let j = if a == k {
                        b
                    } else {
                        a
                    };
                    assert(is_up(spawners[j]));
                    let q = place(spawners[j]);
                    let w = choose|w: int|
                        0 <= w < holes.len() && (#[trigger] holes[w]).pos == q && holes[w].state
                            == HoleState::Occupied;
                    if q == p {
                        assert(holes[w].pos == holes[i].pos);
                        assert(w == i);
                    }
                } else {
                    assert(is_up(spawners[a]) && is_up(spawners[b]));
                }
            }
            assert forall|h: int|
                0 <= h < next_holes.len() && (#[trigger] next_holes[h]).state
                    == HoleState::Occupied implies shown_at(next_spawners, next_holes[h].pos) by {
                if h == i {
                    assert(next_spawners[k].state == SpawnerState::Showing(p));
                } else {
                    assert(holes[h].state == HoleState::Occupied);
                    let j = choose|j: int|
                        0 <= j < spawners.len() && (#[trigger] spawners[j]).state
                            == SpawnerState::Showing(holes[h].pos);
                    assert(next_spawners[j].state == SpawnerState::Showing(next_holes[h].pos));
                }
            }
        },
        SpawnerState::Showing(p) => {
            assert(is_up(spawners[k]));
            let i = choose|w: int|
                0 <= w < holes.len() && (#[trigger] holes[w]).pos == p && holes[w].state
                    == HoleState::Occupied;
            lemma_release_occupied(holes, i);
            assert forall|j: int| 0 <= j < next_spawners.len() && is_up(#[trigger] next_spawners[j]) implies occupied_at(
                next_holes,
                place(next_spawners[j]),
            ) by {
                assert(j != k);
                assert(is_up(spawners[j]));
                let q = place(spawners[j]);
                let w = choose|w: int|
                    0 <= w < holes.len() && (#[trigger] holes[w]).pos == q && holes[w].state
                        == HoleState::Occupied;
                assert(q != p) by {
                    if j < k {
                        assert(place(spawners[j]) != place(spawners[k]));
                    } else {
                        assert(place(spawners[k]) != place(spawners[j]));
                    }
                }
                assert(next_holes[w].pos == q && next_holes[w].state == HoleState::Occupied);
            }
            assert forall|a: int, b: int|
                0 <= a < b < next_spawners.len() && is_up(#[trigger] next_spawners[a]) && is_up(
                    #[trigger] next_spawners[b],
                ) implies place(next_spawners[a]) != place(next_spawners[b]) by {
                assert(a != k && b != k);
                assert(is_up(spawners[a]) && is_up(spawners[b]));
            }
            assert forall|h: int|
                0 <= h < next_holes.len() && (#[trigger] next_holes[h]).state
                    == HoleState::Occupied implies shown_at(next_spawners, next_holes[h].pos) by {
                assert(h != i);
                assert(holes[h].state == HoleState::Occupied);
                let j = choose|j: int|
                    0 <= j < spawners.len() && (#[trigger] spawners[j]).state
                        == SpawnerState::Showing(holes[h].pos);
                assert(j != k) by {
                    if j == k {
                        assert(holes[h].pos == holes[i].pos);
                    }
                }
                assert(next_spawners[j].state == SpawnerState::Showing(next_holes[h].pos));
            }
        },
    }
}

/// A strike at a spawner keeps the correspondence.
pub proof fn lemma_strike_keeps_match(holes: Seq<Hole>, spawners: Seq<Spawner>, k: int)
    requires
        holes_wf(holes),
        matched(holes, spawners),
        0 <= k < spawners.len(),
    ensures
        holes_wf(struck(spawners[k], holes).1),
        struck(spawners[k], holes).1.len() == holes.len(),
        struck(spawners[k], holes).0.id == spawners[k].id,
        matched(struck(spawners[k], holes).1, spawners.update(k, struck(spawners[k], holes).0)),
{
    let sp = spawners[k];
    match sp.state {
        SpawnerState::Hidden => {
            assert(spawners.update(k, sp) =~= spawners);
        },
        SpawnerState::Showing(p) => {
            let draw = Draw { hole: 0, delay: 0 };
            lemma_toggle_keeps_match(holes, spawners, k, draw);
            lemma_timer_is_immaterial(
                toggled(sp, holes, draw).1,
                spawners.update(k, toggled(sp, holes, draw).0),
                k,
                struck(sp, holes).0,
            );
            assert(spawners.update(k, toggled(sp, holes, draw).0).update(k, struck(sp, holes).0)
                =~= spawners.update(k, struck(sp, holes).0));
        },
    }
}

/// The correspondence does not look at countdowns: a spawner may be
/// replaced by one in the same state.
pub proof fn lemma_timer_is_immaterial(
    holes: Seq<Hole>,
    spawners: Seq<Spawner>,
    k: int,
    sp: Spawner,
)
    requires
        matched(holes, spawners),
        0 <= k < spawners.len(),
        sp.state == spawners[k].state,
    ensures
        matched(holes, spawners.update(k, sp)),
{
    let next_spawners = spawners.update(k, sp);
    lemma_showing_update(spawners, k, sp);
    assert forall|j: int| 0 <= j < next_spawners.len() && is_up(#[trigger] next_spawners[j]) implies occupied_at(
        holes,
        place(next_spawners[j]),
    ) by {
        assert(is_up(spawners[j]));
        assert(place(next_spawners[j]) == place(spawners[j]));
    }
    assert forall|a: int, b: int|
        0 <= a < b < next_spawners.len() && is_up(#[trigger] next_spawners[a]) && is_up(
            #[trigger] next_spawners[b],
        ) implies place(next_spawners[a]) != place(next_spawners[b]) by {
        assert(is_up(spawners[a]) && is_up(spawners[b]));
        assert(place(next_spawners[a]) == place(spawners[a]));
        assert(place(next_spawners[b]) == place(spawners[b]));
    }
    assert forall|h: int|
        0 <= h < holes.len() && (#[trigger] holes[h]).state == HoleState::Occupied implies shown_at(
        next_spawners,
        holes[h].pos,
    ) by {
        let j = choose|j: int|
            0 <= j < spawners.len() && (#[trigger] spawners[j]).state == SpawnerState::Showing(
                holes[h].pos,
            );
        assert(next_spawners[j].state == SpawnerState::Showing(holes[h].pos));
    }
}

/// The passing of time keeps the correspondence, whether the spawner
/// toggles or not.
pub proof fn lemma_advance_keeps_match(
    holes: Seq<Hole>,
    spawners: Seq<Spawner>,
    k: int,
    delta: u64,
    draw: Draw,
)
    requires
        holes_wf(holes),
        matched(holes, spawners),
        0 <= k < spawners.len(),
        spawners[k].timer.fires(delta) ==> admissible(spawners[k], holes, draw),
    ensures
        holes_wf(advanced(spawners[k], holes, delta, draw).1),
        advanced(spawners[k], holes, delta, draw).1.len() == holes.len(),
        advanced(spawners[k], holes, delta, draw).0.id == spawners[k].id,
        matched(
            advanced(spawners[k], holes, delta, draw).1,
            spawners.update(k, advanced(spawners[k], holes, delta, draw).0),
        ),
{
    if spawners[k].timer.fires(delta) {
        lemma_toggle_keeps_match(holes, spawners, k, draw);
    } else {
        lemma_timer_is_immaterial(holes, spawners, k, advanced(spawners[k], holes, delta, draw).0);
    }
}

/// Where every hole is free and every spawner hidden, the correspondence
/// holds.
pub proof fn lemma_opening_is_matched(holes: Seq<Hole>, spawners: Seq<Spawner>)
    requires
        forall|i: int| 0 <= i < holes.len() ==> (#[trigger] holes[i]).state == HoleState::Free,
        forall|k: int| 0 <= k < spawners.len() ==> !is_up(#[trigger] spawners[k]),
    ensures
        matched(holes, spawners),
{
    lemma_all_free(holes);
    lemma_all_hidden(spawners);
}

/// Where every spawner is hidden, none shows.
pub proof fn lemma_all_hidden(spawners: Seq<Spawner>)
    requires
        forall|k: int| 0 <= k < spawners.len() ==> !is_up(#[trigger] spawners[k]),
    ensures
        showing_count(spawners) == 0,
    decreases spawners.len(),
{
    if spawners.len() > 0 {
        assert forall|k: int| 0 <= k < spawners.drop_last().len() implies !is_up(
            #[trigger] spawners.drop_last()[k],
        ) by {
            assert(spawners.drop_last()[k] == spawners[k]);
        }
        lemma_all_hidden(spawners.drop_last());
    }
}

} // verus!
