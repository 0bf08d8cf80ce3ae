use vstd::prelude::*;
use crate::registry::{ids_ordered, lemma_pair_mass_le_total, total_mass};
use crate::unit::{can_merge, can_merge_spec, merge_pair, merged_spec, Slime};

verus! {

/// The first index from `j` on that is not yet taken and with which unit `i`
/// may merge; -1 when there is none.
pub open spec fn first_partner(s: Seq<Slime>, used: Seq<bool>, i: int, j: int) -> int
    decreases s.len() - j,
{
    if j < 0 || j >= s.len() {
        -1
    } else if !used[j] && can_merge_spec(s[i], s[j]) {
        j
    } else {
        first_partner(s, used, i, j + 1)
    }
}

/// Pair selection over the first `k` units of the snapshot `s`: which units
/// are taken, and the committed pairs in the order they were found. Each
/// unit not yet taken is paired with the first later unit, not yet taken,
/// that it may merge with.
pub open spec fn pairing(s: Seq<Slime>, k: int) -> (Seq<bool>, Seq<(int, int)>)
    decreases k,
{
    if k <= 0 {
        (Seq::new(s.len(), |i: int| false), Seq::empty())
    } else {
        let (used, pairs) = pairing(s, k - 1);
        let i = k - 1;
        if used[i] {
            (used, pairs)
        } else {
            let p = first_partner(s, used, i, i + 1);
            if p < 0 {
                (used, pairs)
            } else {
                (used.update(i, true).update(p, true), pairs.push((i, p)))
            }
        }
    }
}

/// The units of `s` that no pair took, in their order.
pub open spec fn unpaired(s: Seq<Slime>, used: Seq<bool>, k: int) -> Seq<Slime>
    decreases k,
{
    if k <= 0 {
        Seq::empty()
    } else if used[k - 1] {
        unpaired(s, used, k - 1)
    } else {
        unpaired(s, used, k - 1).push(s[k - 1])
    }
}

pub open spec fn merge_pairs(s: Seq<Slime>) -> Seq<(int, int)> {
    pairing(s, s.len() as int).1
}

pub open spec fn merge_used(s: Seq<Slime>) -> Seq<bool> {
    pairing(s, s.len() as int).0
}

/// The units that the committed pairs of `s` become, with ids from `next` on.
pub open spec fn merged_units(s: Seq<Slime>, next: u64) -> Seq<Slime> {
    let pairs = merge_pairs(s);
    Seq::new(
        pairs.len(),
        |k: int| merged_spec(s[pairs[k].0], s[pairs[k].1], (next + k) as u64),
    )
}

/// The units after one merge pass over `s`: the unpaired ones in their
/// order, then one new unit per committed pair.
pub open spec fn merge_step_spec(s: Seq<Slime>, next: u64) -> Seq<Slime> {
    unpaired(s, merge_used(s), s.len() as int) + merged_units(s, next)
}

/// A partner that the search finds is later, free and eligible.
pub proof fn lemma_first_partner(s: Seq<Slime>, used: Seq<bool>, i: int, j: int)
    requires
        used.len() == s.len(),
    ensures
        first_partner(s, used, i, j) == -1 || (j <= first_partner(s, used, i, j) < s.len()
            && !used[first_partner(s, used, i, j)]
            && can_merge_spec(s[i], s[first_partner(s, used, i, j)])),
    decreases s.len() - j,
{
    if j >= 0 && j < s.len() && !(!used[j] && can_merge_spec(s[i], s[j])) {
        lemma_first_partner(s, used, i, j + 1);
    }
}

/// Shape of the pair selection: every pair is an eligible, ordered pair of
/// taken units, and no unit is in two pairs.
pub proof fn lemma_pairing(s: Seq<Slime>, k: int)
    requires
        0 <= k <= s.len(),
    ensures
        pairing(s, k).0.len() == s.len(),
        pairing(s, k).1.len() <= k,
        forall|m: int| #![trigger pairing(s, k).1[m]]
            0 <= m < pairing(s, k).1.len() ==> {
                let (a, b) = pairing(s, k).1[m];
                &&& 0 <= a < b < s.len()
                &&& a < k
                &&& pairing(s, k).0[a]
                &&& pairing(s, k).0[b]
                &&& can_merge_spec(s[a], s[b])
            },
        forall|i: int| k <= i < s.len() && pairing(s, k).0[i] ==> exists|m: int|
            0 <= m < pairing(s, k).1.len() && pairing(s, k).1[m].1 == i,
    decreases k,
{
    if k > 0 {
        lemma_pairing(s, k - 1);
        let (used, pairs) = pairing(s, k - 1);
        let i = k - 1;
        if !used[i] {
            lemma_first_partner(s, used, i, i + 1);
            let p = first_partner(s, used, i, i + 1);
            if p >= 0 {
                let (used2, pairs2) = pairing(s, k);
                assert forall|m: int| #![trigger pairs2[m]]
                    0 <= m < pairs2.len() implies {
                        let (a, b) = pairs2[m];
                        &&& 0 <= a < b < s.len()
                        &&& a < k
                        &&& used2[a]
                        &&& used2[b]
                        &&& can_merge_spec(s[a], s[b])
                    } by {
                    if m < pairs.len() {
                        assert(pairs2[m] == pairs[m]);
                    }
                }
                assert forall|x: int| k <= x < s.len() && used2[x] implies exists|m: int|
                    0 <= m < pairs2.len() && pairs2[m].1 == x by {
                    if x == p {
                        assert(pairs2[pairs.len() as int].1 == x);
                    } else {
                        let m = choose|m: int| 0 <= m < pairs.len() && pairs[m].1 == x;
                        assert(pairs2[m] == pairs[m]);
                    }
                }
            }
        }
    }
}

pub open spec fn id_bound(s: Seq<Slime>, next: u64, k: int) -> int {
    if k < s.len() {
        s[k].id as int
    } else {
        next as int
    }
}

/// The unpaired units keep the order of their ids, stay below the id of the
/// next unit of the snapshot, and are well formed when the snapshot is.
pub proof fn lemma_unpaired(s: Seq<Slime>, used: Seq<bool>, next: u64, k: int)
    requires
        ids_ordered(s, next),
        used.len() == s.len(),
        0 <= k <= s.len(),
    ensures
        ids_ordered(unpaired(s, used, k), id_bound(s, next, k) as u64),
        unpaired(s, used, k).len() <= k,
        forall|m: int| 0 <= m < unpaired(s, used, k).len() ==> exists|i: int|
            0 <= i < k && #[trigger] unpaired(s, used, k)[m] == s[i],
        (forall|i: int| 0 <= i < s.len() ==> #[trigger] s[i].wf()) ==> (forall|m: int|
            0 <= m < unpaired(s, used, k).len() ==> #[trigger] unpaired(s, used, k)[m].wf()),
    decreases k,
{
    if k > 0 {
        lemma_unpaired(s, used, next, k - 1);
        let u = unpaired(s, used, k - 1);
        assert(id_bound(s, next, k - 1) <= id_bound(s, next, k));
        if !used[k - 1] {
            let u2 = u.push(s[k - 1]);
            assert(u2.last() == s[k - 1]);
            assert forall|m: int| 0 <= m < u2.len() implies exists|i: int|
                0 <= i < k && #[trigger] u2[m] == s[i] by {
                if m == u.len() {
                    assert(u2[m] == s[k - 1]);
                } else {
                    assert(u2[m] == u[m]);
                }
            }
        }
    }
}

/// One merge pass over the snapshot `units`, whose next fresh id is `next`:
/// pairs are chosen as `pairing` says, and each committed pair is replaced
/// by the unit that `merged_spec` gives, with a fresh id. Unpaired units stay
/// in order, and the new units follow them. Returns the new units and the
/// next fresh id.
pub fn merge_pass(units: &Vec<Slime>, next: u64) -> (r: (Vec<Slime>, u64))
    requires
        ids_ordered(units@, next),
        forall|i: int| 0 <= i < units@.len() ==> #[trigger] units@[i].wf(),
        total_mass(units@) <= u64::MAX,
        next + units@.len() <= u64::MAX,
    ensures
        ids_ordered(r.0@, r.1),
        r.0@ == merge_step_spec(units@, next),
        r.1 == next + merge_pairs(units@).len(),
        merge_pairs(units@).len() <= units@.len(),
        r.0@.len() <= 2 * units@.len(),
        forall|i: int| 0 <= i < r.0@.len() ==> #[trigger] r.0@[i].wf(),
{
        let ghost s = units@;
        let n = units.len();
        let mut used: Vec<bool> = Vec::new();
        let mut z: usize = 0;
        while z < n
            invariant
                z <= n,
                used@ == Seq::new(z as nat, |i: int| false),
            decreases n - z,
        {
            used.push(false);
            z = z + 1;
        }
        assert(used@ =~= pairing(s, 0).0);
        let mut pairs: Vec<(usize, usize)> = Vec::new();
        let mut i: usize = 0;
        while i < n
            invariant
                n == s.len(),
                units@ == s,
                i <= n,
                used@ == pairing(s, i as int).0,
                pairs@.len() == pairing(s, i as int).1.len(),
                forall|m: int| 0 <= m < pairs@.len() ==>
                    (#[trigger] pairs@[m]).0 == pairing(s, i as int).1[m].0
                    && pairs@[m].1 == pairing(s, i as int).1[m].1,
                forall|q: int| 0 <= q < n ==> #[trigger] s[q].wf(),
            decreases n - i,
        {
            proof {
                lemma_pairing(s, i as int);
            }
            if !used[i] {
                let mut found: usize = n;
                let mut j: usize = i + 1;
                while j < n && found == n
                    invariant
                        n == s.len(),
                        units@ == s,
                        i < n,
                        i + 1 <= j <= n,
                        used@.len() == n,
                        found == n || found == first_partner(s, used@, i as int, i + 1),
                        found == n ==> first_partner(s, used@, i as int, i + 1) == first_partner(
                            s,
                            used@,
                            i as int,
                            j as int,
                        ),
                        forall|q: int| 0 <= q < n ==> #[trigger] s[q].wf(),
                    decreases n - j,
                {
                    if !used[j] && can_merge(&units[i], &units[j]) {
                        found = j;
                    }
                    j = j + 1;
                }
                proof {
                    lemma_first_partner(s, used@, i as int, i + 1);
                }
                if found < n {
                    used.set(i, true);
                    used.set(found, true);
                    pairs.push((i, found));
                }
            }
            i = i + 1;
        }
        proof {
            lemma_pairing(s, n as int);
            lemma_unpaired(s, used@, next, n as int);
        }
        let mut out: Vec<Slime> = Vec::new();
        let mut k: usize = 0;
        while k < n
            invariant
                n == s.len(),
                units@ == s,
                k <= n,
                used@ == merge_used(s),
                used@.len() == n,
                out@ == unpaired(s, used@, k as int),
            decreases n - k,
        {
            if !used[k] {
                out.push(units[k]);
            }
            k = k + 1;
        }
        let ghost survivors = out@;
        let np = pairs.len();
        let mut m: usize = 0;
        while m < np
            invariant
                n == s.len(),
                units@ == s,
                m <= np,
                np == pairs@.len(),
                np == merge_pairs(s).len(),
                np <= n,
                next + n <= u64::MAX,
                total_mass(s) <= u64::MAX,
                forall|q: int| 0 <= q < n ==> #[trigger] s[q].wf(),
                forall|q: int| 0 <= q < pairs@.len() ==>
                    (#[trigger] pairs@[q]).0 == merge_pairs(s)[q].0
                    && pairs@[q].1 == merge_pairs(s)[q].1,
                forall|q: int| #![trigger merge_pairs(s)[q]]
                    0 <= q < merge_pairs(s).len() ==> {
                        let (a, b) = merge_pairs(s)[q];
                        0 <= a < b < s.len()
                    },
                out@ == survivors + merged_units(s, next).take(m as int),
            decreases np - m,
        {
            let (a, b) = pairs[m];
            assert(merge_pairs(s)[m as int].0 == a);
            proof {
                lemma_pair_mass_le_total(s, a as int, b as int);
            }
            let unit = merge_pair(&units[a], &units[b], next + m as u64);
            proof {
                assert(merged_units(s, next).take(m + 1) =~= merged_units(s, next).take(m as int).push(unit));
            }
            out.push(unit);
            m = m + 1;
        }
        assert(merged_units(s, next).take(np as int) =~= merged_units(s, next));
        let ghost merged = merged_units(s, next);
        assert forall|x: int| 0 <= x < merged.len() implies #[trigger] merged[x].wf() && merged[x].id == next + x by {
            let (a, b) = merge_pairs(s)[x];
            assert(s[a].wf() && s[b].wf());
            lemma_pair_mass_le_total(s, a, b);
            crate::unit::lemma_merged_wf(s[a], s[b], (next + x) as u64);
        }
        let new_next: u64 = next + np as u64;
        assert forall|x: int, y: int| 0 <= x < y < out@.len() implies out@[x].id < out@[y].id by {
            if y >= survivors.len() {
                assert(out@[y] == merged[y - survivors.len()]);
                if x >= survivors.len() {
                    assert(out@[x] == merged[x - survivors.len()]);
                }
            }
        }
        assert forall|x: int| 0 <= x < out@.len() implies #[trigger] out@[x].wf() && out@[x].id < new_next by {
            if x >= survivors.len() {
                assert(out@[x] == merged[x - survivors.len()]);
            }
        }
        (out, new_next)
}

} // verus!
