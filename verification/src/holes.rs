//! The pool of holes: a fixed set of spawn slots that are granted to
//! spawners and given back.

use vstd::prelude::*;
use vstd::string::*;
use crate::chance::pick_one;
use crate::display::{DisplayRecord, Pose, FIXTURE_SCALE, HOLE_LAYER};
use crate::label::{Entity, hole_label, hole_text, lemma_labels_injective};
use crate::point::Point;

verus! {

/// Whether a hole is available.
#[derive(Clone, Copy, Debug, PartialEq, Eq, Structural)]
pub enum HoleState {
    Free,
    Occupied,
}

/// One spawn slot.
#[derive(Clone, Copy, Debug, PartialEq, Eq, Structural)]
pub struct Hole {
    pub id: usize,
    pub pos: Point,
    pub state: HoleState,
}

/// The record under which a hole is drawn: it can be struck while free.
pub open spec fn hole_record(h: Hole) -> DisplayRecord {
    DisplayRecord {
        entity: Entity::Hole(h.id),
        position: h.pos,
        layer: HOLE_LAYER,
        scale_percent: FIXTURE_SCALE,
        pose: Pose::Neutral,
        collidable: h.state == HoleState::Free,
    }
}

impl Hole {
    /// A free hole.
    pub fn new(id: usize, pos: Point) -> (h: Hole)
        ensures
            h == (Hole { id, pos, state: HoleState::Free }),
    {
        Hole { id, pos, state: HoleState::Free }
    }

    /// The record under which the hole is drawn.
    pub fn display(&self) -> (r: DisplayRecord)
        ensures
            r == hole_record(*self),
    {
        DisplayRecord {
            entity: Entity::Hole(self.id),
            position: self.pos,
            layer: HOLE_LAYER,
            scale_percent: FIXTURE_SCALE,
            pose: Pose::Neutral,
            collidable: self.state == HoleState::Free,
        }
    }
}

/// No point occurs twice in `ps`.
pub open spec fn distinct_points(ps: Seq<Point>) -> bool {
    forall|i: int, j: int| 0 <= i < j < ps.len() ==> ps[i] != ps[j]
}

/// The holes of a pool that was just laid out at `ps`: all free, numbered
/// in order.
pub open spec fn fresh_holes(ps: Seq<Point>) -> Seq<Hole> {
    Seq::new(ps.len(), |i: int| Hole { id: i as usize, pos: ps[i], state: HoleState::Free })
}

/// Every hole carries its index as id, and no two holes share a position.
pub open spec fn holes_wf(s: Seq<Hole>) -> bool {
    &&& forall|i: int| 0 <= i < s.len() ==> (#[trigger] s[i]).id == i
    &&& forall|i: int, j: int|
        0 <= i < j < s.len() ==> (#[trigger] s[i]).pos != (#[trigger] s[j]).pos
}

/// Hole `i` exists and is free.
pub open spec fn free_at(s: Seq<Hole>, i: int) -> bool {
    0 <= i < s.len() && s[i].state == HoleState::Free
}

/// Some hole is free.
pub open spec fn any_free(s: Seq<Hole>) -> bool {
    exists|i: int| free_at(s, i)
}

/// Some hole at `p` is occupied.
pub open spec fn occupied_at(s: Seq<Hole>, p: Point) -> bool {
    exists|i: int| 0 <= i < s.len() && (#[trigger] s[i]).pos == p && s[i].state == HoleState::Occupied
}

/// The holes after hole `i` was granted.
pub open spec fn with_occupied(s: Seq<Hole>, i: int) -> Seq<Hole> {
    s.update(i, Hole { id: s[i].id, pos: s[i].pos, state: HoleState::Occupied })
}

/// The holes after position `p` was given back: the hole there is free, all
/// others are as before.
pub open spec fn with_released(s: Seq<Hole>, p: Point) -> Seq<Hole> {
    Seq::new(
        s.len(),
        |i: int|
            if s[i].pos == p {
                Hole { id: s[i].id, pos: s[i].pos, state: HoleState::Free }
            } else {
                s[i]
            },
    )
}

/// How many holes are free.
pub open spec fn free_count(s: Seq<Hole>) -> nat
    decreases s.len(),
{
    if s.len() == 0 {
        0
    } else {
        free_count(s.drop_last()) + if s.last().state == HoleState::Free {
            1nat
        } else {
            0nat
        }
    }
}

/// `name` is the label of a hole that exists and is free.
pub open spec fn names_free_hole(s: Seq<Hole>, name: Seq<char>) -> bool {
    exists|i: nat| free_at(s, i as int) && name == #[trigger] hole_label(i)
}

/// Whether no two of the given points coincide.
pub fn all_distinct(positions: &Vec<Point>) -> (ok: bool)
    ensures
        ok == distinct_points(positions@),
{
    let n = positions.len();
    let mut j: usize = 0;
    while j < n
        invariant
            j <= n,
            n == positions@.len(),
            forall|a: int, b: int| 0 <= a < b < j ==> positions@[a] != positions@[b],
        decreases n - j,
    {
        let mut i: usize = 0;
        while i < j
            invariant
                i <= j,
                j < n,
                n == positions@.len(),
                forall|a: int| 0 <= a < i ==> positions@[a] != positions@[j as int],
            decreases j - i,
        {
            if positions[i] == positions[j] {
                return false;
            }
            i = i + 1;
        }
        j = j + 1;
    }
    true
}

/// The allocator over the holes.
pub struct HolePool {
    holes: Vec<Hole>,
}

impl View for HolePool {
    type V = Seq<Hole>;

    closed spec fn view(&self) -> Seq<Hole> {
        self.holes@
    }
}

impl HolePool {
    /// The pool's invariant: ids are indices and positions are distinct.
    pub open spec fn wf(&self) -> bool {
        holes_wf(self@)
    }

    /// Lays out a pool with one free hole at each of `positions`.
    pub fn new(positions: Vec<Point>) -> (pool: HolePool)
        requires
            distinct_points(positions@),
        ensures
            pool.wf(),
            pool@ == fresh_holes(positions@),
    {
        let mut holes: Vec<Hole> = Vec::new();
        let n = positions.len();
        let mut i: usize = 0;
        while i < n
            invariant
                i <= n,
                n == positions@.len(),
                holes@.len() == i,
                forall|k: int|
                    0 <= k < i ==> holes@[k] == (Hole {
                        id: k as usize,
                        pos: positions@[k],
                        state: HoleState::Free,
                    }),
            decreases n - i,
        {
            holes.push(Hole::new(i, positions[i]));
            i = i + 1;
        }
        assert(holes@ =~= fresh_holes(positions@));
        HolePool { holes }
    }

    /// A second pool in the same state.
    pub fn duplicate(&self) -> (copy: HolePool)
        ensures
            copy@ == self@,
    {
        let mut holes: Vec<Hole> = Vec::new();
        let mut i: usize = 0;
        while i < self.holes.len()
            invariant
                i <= self.holes@.len(),
                holes@ == self.holes@.take(i as int),
            decreases self.holes@.len() - i,
        {
            holes.push(self.holes[i]);
            assert(holes@ =~= self.holes@.take(i + 1));
            i = i + 1;
        }
        assert(self.holes@.take(i as int) =~= self.holes@);
        HolePool { holes }
    }

    /// The number of holes.
    pub fn len(&self) -> (n: usize)
        ensures
            n == self@.len(),
    {
        self.holes.len()
    }

    /// The hole with the given index.
    pub fn hole(&self, index: usize) -> (h: Hole)
        requires
            index < self@.len(),
        ensures
            h == self@[index as int],
    {
        self.holes[index]
    }

    /// How many holes are free.
    pub fn count_free(&self) -> (n: usize)
        ensures
            n == free_count(self@),
    {
        let mut n: usize = 0;
        let mut i: usize = 0;
        assert(self.holes@.take(0) =~= Seq::<Hole>::empty());
        while i < self.holes.len()
            invariant
                i <= self.holes@.len(),
                n <= i,
                n == free_count(self.holes@.take(i as int)),
            decreases self.holes@.len() - i,
        {
            assert(self.holes@.take(i + 1).drop_last() =~= self.holes@.take(i as int));
            if self.holes[i].state == HoleState::Free {
                n = n + 1;
            }
            i = i + 1;
        }
        assert(self.holes@.take(i as int) =~= self.holes@);
        n
    }

    /// Whether some hole is free.
    pub fn has_free(&self) -> (b: bool)
        ensures
            b == any_free(self@),
    {
        let mut i: usize = 0;
        while i < self.holes.len()
            invariant
                i <= self.holes@.len(),
                forall|k: int| 0 <= k < i ==> !free_at(self.holes@, k),
            decreases self.holes@.len() - i,
        {
            if self.holes[i].state == HoleState::Free {
                assert(free_at(self@, i as int));
                return true;
            }
            i = i + 1;
        }
        false
    }

    /// The indices of the free holes, in order.
    pub fn free_indices(&self) -> (free: Vec<usize>)
        ensures
            forall|k: int| 0 <= k < free@.len() ==> free_at(self@, #[trigger] free@[k] as int),
            forall|i: int| free_at(self@, i) ==> free@.contains(i as usize),
            forall|a: int, b: int| 0 <= a < b < free@.len() ==> free@[a] < free@[b],
    {
        let mut free: Vec<usize> = Vec::new();
        let mut i: usize = 0;
        while i < self.holes.len()
            invariant
                i <= self.holes@.len(),
                forall|k: int|
                    0 <= k < free@.len() ==> free_at(self.holes@, #[trigger] free@[k] as int),
                forall|j: int| 0 <= j < i && free_at(self.holes@, j) ==> free@.contains(j as usize),
                forall|k: int| 0 <= k < free@.len() ==> #[trigger] free@[k] < i,
                forall|a: int, b: int| 0 <= a < b < free@.len() ==> free@[a] < free@[b],
            decreases self.holes@.len() - i,
        {
            if self.holes[i].state == HoleState::Free {
                let ghost before = free@;
                free.push(i);
                assert(free@[before.len() as int] == i);
                assert forall|j: int| 0 <= j < i + 1 && free_at(self.holes@, j) implies free@.contains(
                    j as usize,
                ) by {
                    if j < i {
                        let k = choose|k: int| 0 <= k < before.len() && before[k] == j as usize;
                        assert(free@[k] == j as usize);
                    }
                }
            }
            i = i + 1;
        }
        free
    }

    /// Grants the free hole with the given index and returns its position.
    pub fn occupy_at(&mut self, index: usize) -> (p: Point)
        requires
            old(self).wf(),
            free_at(old(self)@, index as int),
        ensures
            final(self).wf(),
            final(self)@ == with_occupied(old(self)@, index as int),
            p == old(self)@[index as int].pos,
    {
        let hole = self.holes[index];
        self.holes.set(index, Hole { id: hole.id, pos: hole.pos, state: HoleState::Occupied });
        hole.pos
    }

    /// Grants a free hole chosen at random and returns its position.
    ///
    /// The position returned was free before the call, so nobody else holds
    /// it; apart from that hole the pool is unchanged.
    pub fn occupy(&mut self) -> (p: Point)
        requires
            old(self).wf(),
            any_free(old(self)@),
        ensures
            final(self).wf(),
            exists|i: int|
                #![trigger free_at(old(self)@, i)]
                free_at(old(self)@, i) && final(self)@ == with_occupied(old(self)@, i) && p == old(
                    self,
                )@[i].pos,
            !occupied_at(old(self)@, p),
            occupied_at(final(self)@, p),
            free_count(final(self)@) == free_count(old(self)@) - 1,
    {
        let index = self.pick_free();
        proof {
            lemma_occupy_facts(self@, index as int);
        }
        self.occupy_at(index)
    }

    /// Chooses a free hole at random.
    pub fn pick_free(&self) -> (index: usize)
        requires
            any_free(self@),
        ensures
            free_at(self@, index as int),
    {
        let free = self.free_indices();
        proof {
            let w = choose|i: int| free_at(self@, i);
            assert(free@.contains(w as usize));
        }
        match pick_one(&free) {
            Some(index) => index,
            // Not reached: the list holds at least the free hole that is
            // known to exist.
            None => 0,
        }
    }

    /// Gives the hole at `pos` back. A position that no hole has is ignored.
    pub fn release(&mut self, pos: Point)
        requires
            old(self).wf(),
        ensures
            final(self).wf(),
            final(self)@ == with_released(old(self)@, pos),
    {
        let mut i: usize = 0;
        while i < self.holes.len()
            invariant
                i <= self.holes@.len(),
                self.holes@ == old(self).holes@,
                holes_wf(self.holes@),
                forall|k: int| 0 <= k < i ==> self.holes@[k].pos != pos,
            decreases self.holes@.len() - i,
        {
            let hole = self.holes[i];
            if hole.pos == pos {
                self.holes.set(i, Hole { id: hole.id, pos: hole.pos, state: HoleState::Free });
                assert(self.holes@ =~= with_released(old(self).holes@, pos));
                return;
            }
            i = i + 1;
        }
        assert(self.holes@ =~= with_released(old(self).holes@, pos));
    }

    /// Looks a hole up by its label.
    pub fn find(&self, name: &str) -> (found: Option<Hole>)
        requires
            self.wf(),
        ensures
            match found {
                Some(h) => h.id < self@.len() && self@[h.id as int] == h && name@ == hole_label(
                    h.id as nat,
                ),
                None => forall|i: nat| i < self@.len() ==> name@ != #[trigger] hole_label(i),
            },
    {
        let wanted = String::from_str(name);
        let mut i: usize = 0;
        while i < self.holes.len()
            invariant
                i <= self.holes@.len(),
                wanted@ == name@,
                holes_wf(self.holes@),
                forall|k: nat| k < i ==> name@ != #[trigger] hole_label(k),
            decreases self.holes@.len() - i,
        {
            let label = hole_text(i);
            if label == wanted {
                return Some(self.holes[i]);
            }
            i = i + 1;
        }
        None
    }

    /// Whether `name` is the label of a hole that is free: a strike there
    /// met bare ground.
    pub fn hit(&self, name: &str) -> (miss: bool)
        requires
            self.wf(),
        ensures
            miss == names_free_hole(self@, name@),
    {
        match self.find(name) {
            Some(h) => {
                proof {
                    if h.state == HoleState::Free {
                        assert(free_at(self@, h.id as nat as int));
                    } else {
                        assert forall|i: nat| free_at(self@, i as int) implies name@
                            != #[trigger] hole_label(i) by {
                            lemma_labels_injective(i, h.id as nat);
                        }
                    }
                }
                h.state == HoleState::Free
            },
            None => false,
        }
    }
}

/// Granting a free hole takes exactly one from the number of free holes,
/// and turns its position from not occupied to occupied.
pub proof fn lemma_occupy_facts(s: Seq<Hole>, i: int)
    requires
        holes_wf(s),
        free_at(s, i),
    ensures
        holes_wf(with_occupied(s, i)),
        free_count(with_occupied(s, i)) == free_count(s) - 1,
        !occupied_at(s, s[i].pos),
        occupied_at(with_occupied(s, i), s[i].pos),
{
    let t = with_occupied(s, i);
    assert(t[i].pos == s[i].pos && t[i].state == HoleState::Occupied);
    lemma_occupy_count(s, i);
}

/// Granting a free hole takes exactly one from the number of free holes.
pub proof fn lemma_occupy_count(s: Seq<Hole>, i: int)
    requires
        free_at(s, i),
    ensures
        free_count(with_occupied(s, i)) == free_count(s) - 1,
    decreases s.len(),
{
    let t = with_occupied(s, i);
    if i == s.len() - 1 {
        assert(t.drop_last() =~= s.drop_last());
    } else {
        assert(t.drop_last() =~= with_occupied(s.drop_last(), i));
        lemma_occupy_count(s.drop_last(), i);
    }
}

/// No more holes are free than there are, and where the count is not zero
/// some hole is free.
pub proof fn lemma_free_count_bound(s: Seq<Hole>)
    ensures
        free_count(s) <= s.len(),
        free_count(s) > 0 <==> any_free(s),
    decreases s.len(),
{
    if s.len() > 0 {
        lemma_free_count_bound(s.drop_last());
        if free_count(s) > 0 {
            if s.last().state == HoleState::Free {
                assert(free_at(s, s.len() - 1));
            } else {
                let i = choose|i: int| free_at(s.drop_last(), i);
                assert(free_at(s, i));
            }
        }
        if any_free(s) {
            let i = choose|i: int| free_at(s, i);
            if i < s.len() - 1 {
                assert(free_at(s.drop_last(), i));
            }
        }
    } else {
        if any_free(s) {
            let i = choose|i: int| free_at(s, i);
        }
    }
}

/// Giving back a position at which no hole lies changes nothing.
pub proof fn lemma_release_unknown(s: Seq<Hole>, p: Point)
    requires
        forall|i: int| 0 <= i < s.len() ==> (#[trigger] s[i]).pos != p,
    ensures
        with_released(s, p) == s,
{
    assert(with_released(s, p) =~= s);
}

/// Giving back the position of a free hole changes nothing: a second
/// release is harmless.
pub proof fn lemma_release_free(s: Seq<Hole>, i: int)
    requires
        holes_wf(s),
        free_at(s, i),
    ensures
        with_released(s, s[i].pos) == s,
{
    assert(with_released(s, s[i].pos) =~= s);
}

/// Giving back the position of an occupied hole frees that hole alone, and
/// adds one to the number of free holes.
pub proof fn lemma_release_occupied(s: Seq<Hole>, i: int)
    requires
        holes_wf(s),
        0 <= i < s.len(),
        s[i].state == HoleState::Occupied,
    ensures
        with_released(s, s[i].pos) == s.update(
            i,
            Hole { id: s[i].id, pos: s[i].pos, state: HoleState::Free },
        ),
        holes_wf(with_released(s, s[i].pos)),
        free_count(with_released(s, s[i].pos)) == free_count(s) + 1,
{
    let freed = Hole { id: s[i].id, pos: s[i].pos, state: HoleState::Free };
    assert(with_released(s, s[i].pos) =~= s.update(i, freed));
    lemma_free_update(s, i, freed);
}

/// Replacing one hole changes the number of free holes by the difference
/// between the new one and the old one.
pub proof fn lemma_free_update(s: Seq<Hole>, i: int, h: Hole)
    requires
        0 <= i < s.len(),
    ensures
        free_count(s.update(i, h)) + (if s[i].state == HoleState::Free {
            1nat
        } else {
            0nat
        }) == free_count(s) + (if h.state == HoleState::Free {
            1nat
        } else {
            0nat
        }),
    decreases s.len(),
{
    let t = s.update(i, h);
    if i == s.len() - 1 {
        assert(t.drop_last() =~= s.drop_last());
    } else {
        assert(t.drop_last() =~= s.drop_last().update(i, h));
        lemma_free_update(s.drop_last(), i, h);
    }
}

/// Where every hole is free, the number of free holes is the number of
/// holes.
pub proof fn lemma_all_free(holes: Seq<Hole>)
    requires
        forall|i: int| 0 <= i < holes.len() ==> (#[trigger] holes[i]).state == HoleState::Free,
    ensures
        free_count(holes) == holes.len(),
    decreases holes.len(),
{
    if holes.len() > 0 {
        assert forall|i: int| 0 <= i < holes.drop_last().len() implies (
        #[trigger] holes.drop_last()[i]).state == HoleState::Free by {
            assert(holes.drop_last()[i] == holes[i]);
        }
        lemma_all_free(holes.drop_last());
    }
}

/// A hole that was given back can be granted again at once, and the grant
/// returns the very position that was given back.
pub proof fn lemma_released_hole_is_reusable(s: Seq<Hole>, i: int)
    requires
        holes_wf(s),
        0 <= i < s.len(),
    ensures
        holes_wf(with_released(s, s[i].pos)),
        free_at(with_released(s, s[i].pos), i),
        any_free(with_released(s, s[i].pos)),
        with_released(s, s[i].pos)[i].pos == s[i].pos,
        with_occupied(with_released(s, s[i].pos), i) == with_occupied(s, i),
{
    let r = with_released(s, s[i].pos);
    assert(free_at(r, i));
    assert(with_occupied(r, i) =~= with_occupied(s, i));
}

/// Giving a granted hole back undoes the grant.
pub proof fn lemma_release_undoes_occupy(s: Seq<Hole>, i: int)
    requires
        holes_wf(s),
        free_at(s, i),
    ensures
        with_released(with_occupied(s, i), s[i].pos) == s,
{
    assert(with_released(with_occupied(s, i), s[i].pos) =~= s);
}

/// The holes after the holes `picks` were granted one after another.
pub open spec fn granted(s: Seq<Hole>, picks: Seq<int>) -> Seq<Hole>
    decreases picks.len(),
{
    if picks.len() == 0 {
        s
    } else {
        with_occupied(granted(s, picks.drop_last()), picks.last())
    }
}

/// Every one of the grants `picks`, made one after another with nothing
/// given back in between, took a hole that was free at its time.
pub open spec fn grants_allowed(s: Seq<Hole>, picks: Seq<int>) -> bool
    decreases picks.len(),
{
    picks.len() == 0 || (grants_allowed(s, picks.drop_last()) && free_at(
        granted(s, picks.drop_last()),
        picks.last(),
    ))
}

/// Each grant in a run uses up one free hole, so a run is never longer
/// than the number of holes that were free at its start.
pub proof fn lemma_grants_use_up(s: Seq<Hole>, picks: Seq<int>)
    requires
        holes_wf(s),
        grants_allowed(s, picks),
    ensures
        holes_wf(granted(s, picks)),
        granted(s, picks).len() == s.len(),
        free_count(granted(s, picks)) + picks.len() == free_count(s),
        picks.len() <= s.len(),
    decreases picks.len(),
{
    lemma_free_count_bound(s);
    if picks.len() > 0 {
        lemma_grants_use_up(s, picks.drop_last());
        lemma_occupy_facts(granted(s, picks.drop_last()), picks.last());
    }
}

/// A pool newly laid out at distinct positions is well formed.
pub proof fn lemma_fresh_is_wf(positions: Seq<Point>)
    requires
        distinct_points(positions),
        positions.len() <= usize::MAX,
    ensures
        holes_wf(fresh_holes(positions)),
        free_count(fresh_holes(positions)) == positions.len(),
{
    lemma_all_free(fresh_holes(positions));
}

/// After as many grants as a newly laid out pool has holes, with nothing
/// given back, no hole is free: one more grant cannot be made.
pub proof fn lemma_pool_runs_dry(positions: Seq<Point>, picks: Seq<int>)
    requires
        distinct_points(positions),
        positions.len() <= usize::MAX,
        grants_allowed(fresh_holes(positions), picks),
        picks.len() == positions.len(),
    ensures
        !any_free(granted(fresh_holes(positions), picks)),
        forall|next: int| !grants_allowed(fresh_holes(positions), #[trigger] picks.push(next)),
{
    let s = fresh_holes(positions);
    lemma_fresh_is_wf(positions);
    lemma_grants_use_up(s, picks);
    lemma_free_count_bound(granted(s, picks));
    assert forall|next: int| !grants_allowed(s, #[trigger] picks.push(next)) by {
        assert(picks.push(next).drop_last() =~= picks);
    }
}

} // verus!
