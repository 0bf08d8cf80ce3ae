use vstd::prelude::*;
use crate::merge::{
    first_partner, lemma_first_partner, pairing, lemma_pairing, lemma_unpaired, merge_pairs, merge_step_spec, merge_used, merged_units, unpaired,
};
use crate::registry::{
    all_wf, ids_ordered, lemma_pair_mass_le_total, step_spec, total_mass, Registry,
};
use crate::movement::PlayerInput;
use crate::split::{born, lemma_born, split_marks, split_step_spec};
use crate::unit::{can_merge_spec, must_split, offspring_spec, Slime};

verus! {

/// Mass is conserved by merging: each unit that a merge pass creates weighs
/// exactly what the two units of its pair weighed together.
pub proof fn merge_conserves_mass(s: Seq<Slime>, next: u64)
    requires
        all_wf(s),
        total_mass(s) <= u64::MAX,
    ensures
        forall|k: int| #![trigger merged_units(s, next)[k]]
            0 <= k < merge_pairs(s).len() ==> merged_units(s, next)[k].mass
                == s[merge_pairs(s)[k].0].mass + s[merge_pairs(s)[k].1].mass,
{
    lemma_pairing(s, s.len() as int);
    assert forall|k: int| #![trigger merged_units(s, next)[k]]
        0 <= k < merge_pairs(s).len() implies merged_units(s, next)[k].mass
            == s[merge_pairs(s)[k].0].mass + s[merge_pairs(s)[k].1].mass by {
        let (a, b) = merge_pairs(s)[k];
        lemma_pair_mass_le_total(s, a, b);
    }
}

/// Mass is conserved by splitting: the two offspring of a splitting unit
/// weigh what it weighed, half each (the first one rounds down).
pub proof fn split_conserves_mass(p: Slime, id1: u64, id2: u64)
    requires
        p.wf(),
        must_split(p),
    ensures
        offspring_spec(p, id1, true).mass + offspring_spec(p, id2, false).mass == p.mass,
        offspring_spec(p, id1, true).mass == p.mass / 2,
        p.mass % 2 == 0 ==> offspring_spec(p, id2, false).mass == p.mass / 2,
{
}

/// The mass of two sequences of units put end to end is the sum of theirs.
pub proof fn lemma_total_mass_concat(a: Seq<Slime>, b: Seq<Slime>)
    ensures
        total_mass(a + b) == total_mass(a) + total_mass(b),
    decreases b.len(),
{
    if b.len() > 0 {
        assert((a + b).drop_last() =~= a + b.drop_last());
        lemma_total_mass_concat(a, b.drop_last());
    } else {
        assert(a + b =~= a);
    }
}

proof fn lemma_split_prefix_mass(s: Seq<Slime>, next: u64, k: int)
    requires
        all_wf(s),
        0 <= k <= s.len(),
    ensures
        total_mass(unpaired(s, split_marks(s), k)) + total_mass(born(s, next, k)) == total_mass(
            s.take(k),
        ),
    decreases k,
{
    if k > 0 {
        lemma_split_prefix_mass(s, next, k - 1);
        assert(s.take(k).drop_last() =~= s.take(k - 1));
        assert(s[k - 1].wf());
        assert(total_mass(s.take(k)) == total_mass(s.take(k - 1)) + s[k - 1].mass);
        let b = born(s, next, k - 1);
        assert(split_marks(s)[k - 1] == must_split(s[k - 1]));
        if must_split(s[k - 1]) {
            let b1 = b.push(offspring_spec(s[k - 1], (next + b.len()) as u64, true));
            let b2 = b1.push(offspring_spec(s[k - 1], (next + b.len() + 1) as u64, false));
            assert(b2.drop_last() =~= b1);
            assert(b1.drop_last() =~= b);
            assert(born(s, next, k) == b2);
            assert(unpaired(s, split_marks(s), k) == unpaired(s, split_marks(s), k - 1));
            assert(total_mass(b2) == total_mass(b1) + b2.last().mass);
            assert(total_mass(b1) == total_mass(b) + b1.last().mass);
            assert(b1.last().mass + b2.last().mass == s[k - 1].mass);
        } else {
            let u = unpaired(s, split_marks(s), k - 1);
            assert(u.push(s[k - 1]).drop_last() =~= u);
        }
    }
}

/// Mass is conserved by a whole split pass.
pub proof fn split_pass_conserves_mass(s: Seq<Slime>, next: u64)
    requires
        all_wf(s),
    ensures
        total_mass(split_step_spec(s, next)) == total_mass(s),
{
    lemma_split_prefix_mass(s, next, s.len() as int);
    lemma_total_mass_concat(unpaired(s, split_marks(s), s.len() as int), born(s, next, s.len() as int));
    assert(s.take(s.len() as int) =~= s);
}

/// Total mass of the units that the pairs in `pairs` take from `s`.
pub open spec fn pair_mass(s: Seq<Slime>, pairs: Seq<(int, int)>) -> int
    decreases pairs.len(),
{
    if pairs.len() == 0 {
        0
    } else {
        pair_mass(s, pairs.drop_last()) + s[pairs.last().0].mass + s[pairs.last().1].mass
    }
}

proof fn lemma_total_mass_push(a: Seq<Slime>, x: Slime)
    ensures
        total_mass(a.push(x)) == total_mass(a) + x.mass,
{
    assert(a.push(x).drop_last() =~= a);
}

/// Taking one more unit out of the unpaired ones lowers their mass by its own.
proof fn lemma_unpaired_take(s: Seq<Slime>, used: Seq<bool>, i: int, k: int)
    requires
        used.len() == s.len(),
        0 <= i < s.len(),
        !used[i],
        0 <= k <= s.len(),
    ensures
        total_mass(unpaired(s, used.update(i, true), k)) + (if i < k { s[i].mass as int } else { 0 })
            == total_mass(unpaired(s, used, k)),
    decreases k,
{
    if k > 0 {
        lemma_unpaired_take(s, used, i, k - 1);
        let u2 = used.update(i, true);
        if !used[k - 1] {
            lemma_total_mass_push(unpaired(s, used, k - 1), s[k - 1]);
        }
        if !u2[k - 1] {
            lemma_total_mass_push(unpaired(s, u2, k - 1), s[k - 1]);
        }
    }
}

proof fn lemma_unpaired_none(s: Seq<Slime>, k: int)
    requires
        0 <= k <= s.len(),
    ensures
        unpaired(s, Seq::new(s.len(), |i: int| false), k) == s.take(k),
    decreases k,
{
    if k > 0 {
        lemma_unpaired_none(s, k - 1);
        assert(s.take(k) =~= s.take(k - 1).push(s[k - 1]));
    }
}

proof fn lemma_pairing_mass(s: Seq<Slime>, k: int)
    requires
        0 <= k <= s.len(),
    ensures
        total_mass(unpaired(s, pairing(s, k).0, s.len() as int)) + pair_mass(s, pairing(s, k).1)
            == total_mass(s),
    decreases k,
{
    if k == 0 {
        lemma_unpaired_none(s, s.len() as int);
        assert(s.take(s.len() as int) =~= s);
    } else {
        lemma_pairing_mass(s, k - 1);
        lemma_pairing(s, k - 1);
        let (used, pairs) = pairing(s, k - 1);
        let i = k - 1;
        if !used[i] {
            lemma_first_partner(s, used, i, i + 1);
            let p = first_partner(s, used, i, i + 1);
            if p >= 0 {
                let u1 = used.update(i, true);
                lemma_unpaired_take(s, used, i, s.len() as int);
                lemma_unpaired_take(s, u1, p, s.len() as int);
                let pairs2 = pairs.push((i, p));
                assert(pairs2.drop_last() =~= pairs);
            }
        }
    }
}

proof fn lemma_merged_mass(s: Seq<Slime>, next: u64, m: int)
    requires
        total_mass(s) <= u64::MAX,
        0 <= m <= merge_pairs(s).len(),
    ensures
        total_mass(merged_units(s, next).take(m)) == pair_mass(s, merge_pairs(s).take(m)),
    decreases m,
{
    if m > 0 {
        lemma_merged_mass(s, next, m - 1);
        lemma_pairing(s, s.len() as int);
        let pairs = merge_pairs(s);
        let (a, b) = pairs[m - 1];
        lemma_pair_mass_le_total(s, a, b);
        assert(merged_units(s, next).take(m) =~= merged_units(s, next).take(m - 1).push(
            merged_units(s, next)[m - 1],
        ));
        lemma_total_mass_push(merged_units(s, next).take(m - 1), merged_units(s, next)[m - 1]);
        assert(pairs.take(m).drop_last() =~= pairs.take(m - 1));
    }
}

/// Mass is conserved by a whole merge pass: the units after it weigh what
/// the units before it weighed.
pub proof fn merge_pass_conserves_mass(s: Seq<Slime>, next: u64)
    requires
        total_mass(s) <= u64::MAX,
    ensures
        total_mass(merge_step_spec(s, next)) == total_mass(s),
{
    lemma_pairing(s, s.len() as int);
    lemma_pairing_mass(s, s.len() as int);
    lemma_merged_mass(s, next, merge_pairs(s).len() as int);
    assert(merged_units(s, next).take(merge_pairs(s).len() as int) =~= merged_units(s, next));
    assert(merge_pairs(s).take(merge_pairs(s).len() as int) =~= merge_pairs(s));
    lemma_total_mass_concat(unpaired(s, merge_used(s), s.len() as int), merged_units(s, next));
}

proof fn lemma_no_partner(s: Seq<Slime>, used: Seq<bool>, i: int, j: int, x: int)
    requires
        used.len() == s.len(),
        first_partner(s, used, i, j) == -1,
        0 <= j <= x < s.len(),
    ensures
        used[x] || !can_merge_spec(s[i], s[x]),
    decreases x - j,
{
    if j < x {
        lemma_no_partner(s, used, i, j + 1, x);
    }
}

proof fn lemma_pairing_grows(s: Seq<Slime>, k1: int, k2: int, x: int)
    requires
        0 <= k1 <= k2 <= s.len(),
        0 <= x < s.len(),
        pairing(s, k1).0[x],
    ensures
        pairing(s, k2).0[x],
    decreases k2 - k1,
{
    if k1 < k2 {
        lemma_pairing(s, k2 - 1);
        lemma_pairing_grows(s, k1, k2 - 1, x);
        let (used, pairs) = pairing(s, k2 - 1);
        if !used[k2 - 1] {
            lemma_first_partner(s, used, k2 - 1, k2);
        }
    }
}

/// A merge pass leaves no eligible pair behind: of any two units that no
/// pair took, the earlier one cannot merge with the later one.
pub proof fn merge_pass_is_maximal(s: Seq<Slime>, i: int, j: int)
    requires
        0 <= i < j < s.len(),
        !merge_used(s)[i],
        !merge_used(s)[j],
    ensures
        !can_merge_spec(s[i], s[j]),
{
    let n = s.len() as int;
    lemma_pairing(s, i);
    lemma_pairing(s, i + 1);
    let (used, pairs) = pairing(s, i);
    if used[i] {
        lemma_pairing_grows(s, i, n, i);
    } else {
        let p = first_partner(s, used, i, i + 1);
        lemma_first_partner(s, used, i, i + 1);
        if p >= 0 {
            assert(pairing(s, i + 1).0[i]);
            lemma_pairing_grows(s, i + 1, n, i);
        } else {
            if used[j] {
                lemma_pairing_grows(s, i, n, j);
            }
            lemma_no_partner(s, used, i, i + 1, j);
        }
    }
}

/// Every unit of `r` whose id is below `next` carries the id of a unit of
/// `s`: no id issued before is handed to a new unit.
pub open spec fn ids_from(r: Seq<Slime>, s: Seq<Slime>, next: u64) -> bool {
    forall|i: int| #![trigger r[i]]
        0 <= i < r.len() && r[i].id < next ==> exists|j: int| 0 <= j < s.len() && s[j].id == r[i].id
}

/// A merge pass gives new units fresh ids only.
pub proof fn merge_keeps_ids_fresh(s: Seq<Slime>, next: u64)
    requires
        ids_ordered(s, next),
        next + s.len() <= u64::MAX,
    ensures
        ids_from(merge_step_spec(s, next), s, next),
{
    let used = merge_used(s);
    lemma_pairing(s, s.len() as int);
    lemma_unpaired(s, used, next, s.len() as int);
    let u = unpaired(s, used, s.len() as int);
    let r = merge_step_spec(s, next);
    assert forall|i: int| #![trigger r[i]] 0 <= i < r.len() && r[i].id < next implies exists|j: int|
        0 <= j < s.len() && s[j].id == r[i].id by {
        if i < u.len() {
            assert(r[i] == u[i]);
            let j = choose|j: int| 0 <= j < s.len() && #[trigger] u[i] == s[j];
            assert(s[j].id == r[i].id);
        } else {
            assert(r[i] == merged_units(s, next)[i - u.len()]);
        }
    }
}

/// A split pass gives new units fresh ids only.
pub proof fn split_keeps_ids_fresh(s: Seq<Slime>, next: u64, before: u64)
    requires
        ids_ordered(s, next),
        all_wf(s),
        next + 2 * s.len() <= u64::MAX,
        before <= next,
    ensures
        ids_from(split_step_spec(s, next), s, before),
{
    let marks = split_marks(s);
    lemma_unpaired(s, marks, next, s.len() as int);
    lemma_born(s, next, s.len() as int);
    let u = unpaired(s, marks, s.len() as int);
    let r = split_step_spec(s, next);
    assert forall|i: int| #![trigger r[i]] 0 <= i < r.len() && r[i].id < before implies exists|j: int|
        0 <= j < s.len() && s[j].id == r[i].id by {
        if i < u.len() {
            assert(r[i] == u[i]);
            let j = choose|j: int| 0 <= j < s.len() && #[trigger] u[i] == s[j];
            assert(s[j].id == r[i].id);
        } else {
            assert(r[i] == born(s, next, s.len() as int)[i - u.len()]);
        }
    }
}

/// Runs of a step are reproducible: two registries holding the same units
/// and the same next id, given the same input and elapsed time, step to the
/// same units and the same next id.
pub proof fn step_is_deterministic(a: Registry, b: Registry, input: PlayerInput, dt: u64)
    requires
        a.units_view() == b.units_view(),
        a.next_id_view() == b.next_id_view(),
    ensures
        step_spec(a.units_view(), a.next_id_view(), input, dt) == step_spec(
            b.units_view(),
            b.next_id_view(),
            input,
            dt,
        ),
{
}

} // verus!
