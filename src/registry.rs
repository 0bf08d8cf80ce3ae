use vstd::prelude::*;
use crate::merge::{merge_pairs, merge_pass, merge_step_spec};
use crate::movement::{movement_pass, moved_spec, PlayerInput};
use crate::split::{born, split_pass, split_step_spec};
use crate::sync::{scale_pass, scaled_spec};
use crate::fixed::is_scale_of;
use crate::laws::{
    ids_from, merge_keeps_ids_fresh, merge_pass_conserves_mass, split_keeps_ids_fresh,
    split_pass_conserves_mass,
};
use crate::unit::{Slime, COORD_LIMIT, SPLIT_KICK};

verus! {

/// Ids strictly increase along `s`, and all lie below `next`.
pub open spec fn ids_ordered(s: Seq<Slime>, next: u64) -> bool {
    &&& forall|i: int, j: int| 0 <= i < j < s.len() ==> s[i].id < s[j].id
    &&& forall|i: int| 0 <= i < s.len() ==> s[i].id < next
}

/// Sum of the masses of the units in `s`.
pub open spec fn total_mass(s: Seq<Slime>) -> int
    decreases s.len(),
{
    if s.len() == 0 {
        0
    } else {
        total_mass(s.drop_last()) + s.last().mass
    }
}

/// Any two distinct units together weigh no more than all of them.
pub proof fn lemma_pair_mass_le_total(s: Seq<Slime>, i: int, j: int)
    requires
        0 <= i < s.len(),
        0 <= j < s.len(),
        i != j,
    ensures
        s[i].mass + s[j].mass <= total_mass(s),
    decreases s.len(),
{
    let k = s.len() - 1;
    if i == k {
        lemma_mass_le_total(s.drop_last(), j);
    } else if j == k {
        lemma_mass_le_total(s.drop_last(), i);
    } else {
        lemma_pair_mass_le_total(s.drop_last(), i, j);
    }
}

/// No unit weighs more than all of them together.
pub proof fn lemma_mass_le_total(s: Seq<Slime>, i: int)
    requires
        0 <= i < s.len(),
    ensures
        s[i].mass <= total_mass(s),
    decreases s.len(),
{
    if i < s.len() - 1 {
        lemma_mass_le_total(s.drop_last(), i);
    } else {
        lemma_total_mass_nonneg(s.drop_last());
    }
}

/// A total mass is never negative.
pub proof fn lemma_total_mass_nonneg(s: Seq<Slime>)
    ensures
        total_mass(s) >= 0,
    decreases s.len(),
{
    if s.len() > 0 {
        lemma_total_mass_nonneg(s.drop_last());
    }
}

/// The units after the movement phase.
pub open spec fn movement_spec(s: Seq<Slime>, input: PlayerInput, dt: u64) -> Seq<Slime> {
    s.map_values(|u: Slime| moved_spec(u, input, dt))
}

/// The units after the scale phase.
pub open spec fn scale_spec(s: Seq<Slime>) -> Seq<Slime> {
    s.map_values(|u: Slime| scaled_spec(u))
}

/// The units and the next fresh id after a merge phase.
pub open spec fn merge_phase(s: Seq<Slime>, next: u64) -> (Seq<Slime>, u64) {
    (merge_step_spec(s, next), (next + merge_pairs(s).len()) as u64)
}

/// The units and the next fresh id after a split phase.
pub open spec fn split_phase(s: Seq<Slime>, next: u64) -> (Seq<Slime>, u64) {
    (split_step_spec(s, next), (next + born(s, next, s.len() as int).len()) as u64)
}

/// One whole step: movement, then merge, then split, then scale.
pub open spec fn step_spec(s: Seq<Slime>, next: u64, input: PlayerInput, dt: u64) -> (Seq<Slime>, u64) {
    let moved = movement_spec(s, input, dt);
    let (merged, next1) = merge_phase(moved, next);
    let (split, next2) = split_phase(merged, next1);
    (scale_spec(split), next2)
}

/// Every unit is well formed.
pub open spec fn all_wf(s: Seq<Slime>) -> bool {
    forall|i: int| 0 <= i < s.len() ==> #[trigger] s[i].wf()
}

/// A step can run on these units without leaving the integer ranges: the
/// units are well formed, their masses sum within `u64`, and enough ids are
/// left.
pub open spec fn step_ready(s: Seq<Slime>, next: u64) -> bool {
    &&& all_wf(s)
    &&& total_mass(s) <= u64::MAX
    &&& next + 5 * s.len() <= u64::MAX
}

/// Moving units does not change their masses.
pub proof fn lemma_movement_keeps_mass(s: Seq<Slime>, input: PlayerInput, dt: u64)
    ensures
        total_mass(movement_spec(s, input, dt)) == total_mass(s),
    decreases s.len(),
{
    if s.len() > 0 {
        assert(movement_spec(s, input, dt).drop_last() =~= movement_spec(s.drop_last(), input, dt));
        lemma_movement_keeps_mass(s.drop_last(), input, dt);
    }
}

/// Recomputing scales does not change masses.
pub proof fn lemma_scale_keeps_mass(s: Seq<Slime>)
    ensures
        total_mass(scale_spec(s)) == total_mass(s),
    decreases s.len(),
{
    if s.len() > 0 {
        assert(scale_spec(s).drop_last() =~= scale_spec(s.drop_last()));
        lemma_scale_keeps_mass(s.drop_last());
    }
}

/// The mass of a prefix is at most the mass of the whole.
pub proof fn lemma_prefix_mass_le_total(s: Seq<Slime>, k: int)
    requires
        0 <= k <= s.len(),
    ensures
        total_mass(s.take(k)) <= total_mass(s),
    decreases s.len() - k,
{
    if k < s.len() {
        lemma_prefix_mass_le_total(s, k + 1);
        assert(s.take(k + 1).drop_last() =~= s.take(k));
    } else {
        assert(s.take(k) =~= s);
    }
}

fn coord_in_range(v: &crate::unit::Vec3) -> (r: bool)
    ensures
        r == crate::unit::within(*v, COORD_LIMIT as int),
{
    -COORD_LIMIT <= v.x && v.x <= COORD_LIMIT && -COORD_LIMIT <= v.y && v.y <= COORD_LIMIT
        && -COORD_LIMIT <= v.z && v.z <= COORD_LIMIT
}

fn unit_in_range(u: &Slime) -> (r: bool)
    ensures
        r == u.wf(),
{
    let role_ok = match u.role {
        crate::unit::Role::Enemy(e) => {
            let d = e.wander_direction;
            -1000 <= d.x && d.x <= 1000 && -1000 <= d.y && d.y <= 1000 && -1000 <= d.z && d.z
                <= 1000
        },
        _ => true,
    };
    u.mass > 0 && u.merge_radius > 0 && u.split_threshold > 0 && coord_in_range(&u.position)
        && coord_in_range(&u.velocity) && role_ok
}

/// The live units in insertion order, and the id that the next created unit
/// receives. Ids are never issued twice.
pub struct Registry {
    pub(crate) units: Vec<Slime>,
    pub(crate) next_id: u64,
}

impl Registry {
    pub closed spec fn units_view(&self) -> Seq<Slime> {
        self.units@
    }

    pub closed spec fn next_id_view(&self) -> u64 {
        self.next_id
    }

    /// Every id issued so far is below `next_id_view`, and the live units are
    /// held in increasing id order, which is insertion order.
    pub open spec fn inv(&self) -> bool {
        ids_ordered(self.units_view(), self.next_id_view())
    }

    /// An empty registry.
    pub fn new() -> (r: Registry)
        ensures
            r.inv(),
            r.units_view() == Seq::<Slime>::empty(),
            r.next_id_view() == 0,
    {
        Registry { units: Vec::new(), next_id: 0 }
    }

    /// The live units, in insertion order.
    pub fn units(&self) -> (r: &Vec<Slime>)
        ensures
            r@ == self.units_view(),
    {
        &self.units
    }

    /// The number of live units.
    pub fn len(&self) -> (r: usize)
        ensures
            r == self.units_view().len(),
    {
        self.units.len()
    }

    /// The id that the next created unit receives.
    pub fn next_id(&self) -> (r: u64)
        ensures
            r == self.next_id_view(),
    {
        self.next_id
    }

    /// Adds `unit` under a fresh id, which is returned; the id carried by
    /// `unit` is ignored.
    pub fn insert(&mut self, unit: Slime) -> (id: u64)
        requires
            old(self).inv(),
            old(self).next_id_view() < u64::MAX,
        ensures
            final(self).inv(),
            id == old(self).next_id_view(),
            final(self).next_id_view() == old(self).next_id_view() + 1,
            final(self).units_view() == old(self).units_view().push(Slime { id, ..unit }),
    {
        let id = self.next_id;
        self.units.push(Slime { id, ..unit });
        self.next_id = id + 1;
        id
    }

    /// The movement phase: each unit's velocity (and an enemy's wander
    /// state) as `moved_spec` gives.
    pub fn slime_movement(&mut self, input: PlayerInput, dt: u64)
        requires
            old(self).inv(),
            all_wf(old(self).units_view()),
        ensures
            final(self).inv(),
            all_wf(final(self).units_view()),
            final(self).units_view() == movement_spec(old(self).units_view(), input, dt),
            final(self).next_id_view() == old(self).next_id_view(),
    {
        let moved = movement_pass(&self.units, input, dt);
        self.units = moved;
    }

    /// The merge phase; see `merge_pass`.
    pub fn slime_merge(&mut self)
        requires
            old(self).inv(),
            all_wf(old(self).units_view()),
            total_mass(old(self).units_view()) <= u64::MAX,
            old(self).next_id_view() + old(self).units_view().len() <= u64::MAX,
        ensures
            final(self).inv(),
            all_wf(final(self).units_view()),
            (final(self).units_view(), final(self).next_id_view()) == merge_phase(
                old(self).units_view(),
                old(self).next_id_view(),
            ),
            final(self).next_id_view() <= old(self).next_id_view() + old(self).units_view().len(),
            final(self).units_view().len() <= 2 * old(self).units_view().len(),
            final(self).next_id_view() >= old(self).next_id_view(),
    {
        let (units, next) = merge_pass(&self.units, self.next_id);
        self.units = units;
        self.next_id = next;
    }

    /// The split phase; see `split_pass`.
    pub fn slime_split(&mut self)
        requires
            old(self).inv(),
            all_wf(old(self).units_view()),
            old(self).next_id_view() + 2 * old(self).units_view().len() <= u64::MAX,
        ensures
            final(self).inv(),
            forall|i: int| 0 <= i < final(self).units_view().len()
                ==> #[trigger] final(self).units_view()[i].fits(COORD_LIMIT + SPLIT_KICK),
            final(self).next_id_view() >= old(self).next_id_view(),
            (final(self).units_view(), final(self).next_id_view()) == split_phase(
                old(self).units_view(),
                old(self).next_id_view(),
            ),
    {
        let (units, next) = split_pass(&self.units, self.next_id);
        self.units = units;
        self.next_id = next;
    }

    /// The scale phase: every unit's scale becomes the cube root of its mass.
    pub fn update_slime_scale(&mut self)
        requires
            old(self).inv(),
        ensures
            final(self).inv(),
            final(self).units_view() == scale_spec(old(self).units_view()),
            final(self).next_id_view() == old(self).next_id_view(),
            forall|i: int| 0 <= i < final(self).units_view().len() ==> is_scale_of(
                (#[trigger] final(self).units_view()[i]).mass as int,
                final(self).units_view()[i].scale as int,
            ),
    {
        let units = scale_pass(&self.units);
        self.units = units;
        assert forall|x: int, y: int| 0 <= x < y < self.units@.len() implies self.units@[x].id < self.units@[y].id by {
            assert(self.units@[x].id == old(self).units@[x].id);
            assert(self.units@[y].id == old(self).units@[y].id);
        }
    }

    /// One simulation step: movement, merge, split and scale, in this order.
    pub fn step(&mut self, input: PlayerInput, dt: u64)
        requires
            old(self).inv(),
            step_ready(old(self).units_view(), old(self).next_id_view()),
        ensures
            final(self).inv(),
            (final(self).units_view(), final(self).next_id_view()) == step_spec(
                old(self).units_view(),
                old(self).next_id_view(),
                input,
                dt,
            ),
            final(self).next_id_view() >= old(self).next_id_view(),
            ids_from(final(self).units_view(), old(self).units_view(), old(self).next_id_view()),
            total_mass(final(self).units_view()) == total_mass(old(self).units_view()),
            forall|i: int| 0 <= i < final(self).units_view().len() ==> {
                &&& is_scale_of(
                    (#[trigger] final(self).units_view()[i]).mass as int,
                    final(self).units_view()[i].scale as int,
                )
                &&& final(self).units_view()[i].fits(COORD_LIMIT + SPLIT_KICK)
            },
    {
        let ghost s0 = self.units_view();
        let ghost next0 = self.next_id_view();
        proof {
            lemma_movement_keeps_mass(self.units@, input, dt);
        }
        self.slime_movement(input, dt);
        let ghost s1 = self.units_view();
        proof {
            merge_keeps_ids_fresh(s1, next0);
            merge_pass_conserves_mass(s1, next0);
        }
        self.slime_merge();
        let ghost s2 = self.units_view();
        let ghost next1 = self.next_id_view();
        proof {
            split_keeps_ids_fresh(s2, next1, next0);
            split_pass_conserves_mass(s2, next1);
            lemma_scale_keeps_mass(split_step_spec(s2, next1));
        }
        self.slime_split();
        let ghost before = self.units_view();
        self.update_slime_scale();
        let ghost s4 = self.units_view();
        assert forall|i: int| #![trigger s4[i]] 0 <= i < s4.len() && s4[i].id < next0 implies exists|j: int|
            0 <= j < s0.len() && s0[j].id == s4[i].id by {
            assert(s4[i].id == before[i].id);
            let j2 = choose|j: int| 0 <= j < s2.len() && s2[j].id == before[i].id;
            let j1 = choose|j: int| 0 <= j < s1.len() && s1[j].id == s2[j2].id;
            assert(s1[j1].id == s0[j1].id);
        }
        assert forall|i: int| 0 <= i < self.units_view().len() implies (#[trigger] self.units_view()[i]).fits(
            COORD_LIMIT + SPLIT_KICK,
        ) by {
            assert(before[i].fits(COORD_LIMIT + SPLIT_KICK));
            assert(self.units_view()[i] == scaled_spec(before[i]));
        }
    }

    /// Whether `step` may run on the registry as it stands; see `step_ready`.
    pub fn ready_for_step(&self) -> (r: bool)
        ensures
            r == step_ready(self.units_view(), self.next_id_view()),
    {
        let n = self.units.len();
        let mut total: u64 = 0;
        let mut i: usize = 0;
        while i < n
            invariant
                n == self.units@.len(),
                i <= n,
                total == total_mass(self.units@.take(i as int)),
                forall|q: int| 0 <= q < i ==> #[trigger] self.units@[q].wf(),
            decreases n - i,
        {
            let u = &self.units[i];
            proof {
                assert(self.units@.take(i + 1).drop_last() =~= self.units@.take(i as int));
            }
            if !unit_in_range(u) {
                return false;
            }
            match total.checked_add(u.mass) {
                Some(t) => total = t,
                None => {
                    proof {
                        lemma_prefix_mass_le_total(self.units@, i + 1);
                    }
                    return false;
                },
            }
            i = i + 1;
        }
        assert(self.units@.take(n as int) =~= self.units@);
        (n as u64) <= u64::MAX / 5 && self.next_id <= u64::MAX - 5 * (n as u64)
    }

    /// Runs `step` when `ready_for_step` holds, and reports whether it did;
    /// otherwise the registry is left as it is.
    pub fn try_step(&mut self, input: PlayerInput, dt: u64) -> (r: bool)
        requires
            old(self).inv(),
        ensures
            final(self).inv(),
            r == step_ready(old(self).units_view(), old(self).next_id_view()),
            r ==> (final(self).units_view(), final(self).next_id_view()) == step_spec(
                old(self).units_view(),
                old(self).next_id_view(),
                input,
                dt,
            ),
            !r ==> final(self).units_view() == old(self).units_view()
                && final(self).next_id_view() == old(self).next_id_view(),
    {
        if self.ready_for_step() {
            self.step(input, dt);
            true
        } else {
            false
        }
    }

    /// The position of the unit with id `id`, if it is live.
    fn find(&self, id: u64) -> (r: Option<usize>)
        ensures
            match r {
                Some(i) => i < self.units_view().len() && self.units_view()[i as int].id == id,
                None => forall|i: int|
                    0 <= i < self.units_view().len() ==> self.units_view()[i].id != id,
            },
    {
        let mut i: usize = 0;
        while i < self.units.len()
            invariant
                i <= self.units@.len(),
                forall|k: int| 0 <= k < i ==> self.units@[k].id != id,
            decreases self.units@.len() - i,
        {
            if self.units[i].id == id {
                return Some(i);
            }
            i = i + 1;
        }
        None
    }

    /// Removes the unit with id `id`; false when no live unit has it.
    pub fn remove(&mut self, id: u64) -> (r: bool)
        requires
            old(self).inv(),
        ensures
            final(self).inv(),
            final(self).next_id_view() == old(self).next_id_view(),
            r == exists|i: int|
                0 <= i < old(self).units_view().len() && old(self).units_view()[i].id == id,
            r ==> exists|i: int|
                0 <= i < old(self).units_view().len() && old(self).units_view()[i].id == id
                    && final(self).units_view() == old(self).units_view().remove(i),
            !r ==> final(self).units_view() == old(self).units_view(),
    {
        match self.find(id) {
            Some(i) => {
                self.units.remove(i);
                true
            },
            None => false,
        }
    }

    /// The live unit with id `id`, if any.
    pub fn get(&self, id: u64) -> (r: Option<Slime>)
        ensures
            match r {
                Some(s) => s.id == id && exists|i: int|
                    0 <= i < self.units_view().len() && self.units_view()[i] == s,
                None => forall|i: int|
                    0 <= i < self.units_view().len() ==> self.units_view()[i].id != id,
            },
    {
        match self.find(id) {
            Some(i) => Some(self.units[i]),
            None => None,
        }
    }
}

} // verus!
