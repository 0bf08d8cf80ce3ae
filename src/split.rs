use vstd::prelude::*;
use crate::merge::{lemma_unpaired, unpaired};
use crate::registry::ids_ordered;
use crate::unit::{must_split, offspring_spec, split_pair, Slime, COORD_LIMIT, SPLIT_KICK};

verus! {

/// Which units of `s` split.
pub open spec fn split_marks(s: Seq<Slime>) -> Seq<bool> {
    Seq::new(s.len(), |i: int| must_split(s[i]))
}

/// The offspring of the first `k` units of `s`, two per splitting unit, in
/// order, with ids from `next` on.
pub open spec fn born(s: Seq<Slime>, next: u64, k: int) -> Seq<Slime>
    decreases k,
{
    if k <= 0 {
        Seq::empty()
    } else {
        let b = born(s, next, k - 1);
        if must_split(s[k - 1]) {
            b.push(offspring_spec(s[k - 1], (next + b.len()) as u64, true)).push(
                offspring_spec(s[k - 1], (next + b.len() + 1) as u64, false),
            )
        } else {
            b
        }
    }
}

/// The units after one split pass over `s`: those that do not split, in
/// their order, then the offspring.
pub open spec fn split_step_spec(s: Seq<Slime>, next: u64) -> Seq<Slime> {
    unpaired(s, split_marks(s), s.len() as int) + born(s, next, s.len() as int)
}

/// The offspring carry consecutive ids from `next` on.
pub proof fn lemma_born(s: Seq<Slime>, next: u64, k: int)
    requires
        0 <= k <= s.len(),
        forall|i: int| 0 <= i < s.len() ==> #[trigger] s[i].wf(),
        next + 2 * s.len() <= u64::MAX,
    ensures
        born(s, next, k).len() <= 2 * k,
        forall|m: int| 0 <= m < born(s, next, k).len() ==> {
            &&& (#[trigger] born(s, next, k)[m]).id == next + m
            &&& born(s, next, k)[m].fits(COORD_LIMIT + SPLIT_KICK)
        },
    decreases k,
{
    if k > 0 {
        lemma_born(s, next, k - 1);
        let b = born(s, next, k - 1);
        let p = s[k - 1];
        if must_split(p) {
            assert(p.wf());
            crate::unit::lemma_offspring_fits(p, (next + b.len()) as u64, true);
            crate::unit::lemma_offspring_fits(p, (next + b.len() + 1) as u64, false);
        }
    }
}

/// One split pass over the snapshot `units`, whose next fresh id is `next`:
/// every unit whose mass exceeds its split threshold is replaced by its two
/// offspring (see `offspring_spec`). Returns the new units and the next
/// fresh id.
pub fn split_pass(units: &Vec<Slime>, next: u64) -> (r: (Vec<Slime>, u64))
    requires
        ids_ordered(units@, next),
        forall|i: int| 0 <= i < units@.len() ==> #[trigger] units@[i].wf(),
        next + 2 * units@.len() <= u64::MAX,
    ensures
        ids_ordered(r.0@, r.1),
        r.0@ == split_step_spec(units@, next),
        r.1 == next + born(units@, next, units@.len() as int).len(),
        forall|i: int| 0 <= i < r.0@.len() ==> #[trigger] r.0@[i].fits(COORD_LIMIT + SPLIT_KICK),
{
    let ghost s = units@;
    let ghost marks = split_marks(s);
    let n = units.len();
    let mut kept: Vec<Slime> = Vec::new();
    let mut i: usize = 0;
    while i < n
        invariant
            n == s.len(),
            units@ == s,
            marks == split_marks(s),
            i <= n,
            kept@ == unpaired(s, marks, i as int),
        decreases n - i,
    {
        if !(units[i].mass > units[i].split_threshold) {
            kept.push(units[i]);
        }
        i = i + 1;
    }
    proof {
        lemma_unpaired(s, marks, next, n as int);
    }
    let mut out: Vec<Slime> = Vec::new();
    let mut id: u64 = next;
    let mut k: usize = 0;
    while k < n
        invariant
            n == s.len(),
            units@ == s,
            k <= n,
            forall|q: int| 0 <= q < n ==> #[trigger] s[q].wf(),
            next + 2 * n <= u64::MAX,
            out@ == born(s, next, k as int),
            id == next + out@.len(),
        decreases n - k,
    {
        proof {
            lemma_born(s, next, k as int);
        }
        if units[k].mass > units[k].split_threshold {
            let (a, b) = split_pair(&units[k], id);
            out.push(a);
            out.push(b);
            id = id + 2;
        }
        k = k + 1;
    }
    proof {
        lemma_born(s, next, n as int);
    }
    let ghost survivors = kept@;
    let ghost offspring = out@;
    let mut all = kept;
    all.append(&mut out);
    assert forall|x: int, y: int| 0 <= x < y < all@.len() implies all@[x].id < all@[y].id by {
        if y >= survivors.len() {
            assert(all@[y] == offspring[y - survivors.len()]);
            if x >= survivors.len() {
                assert(all@[x] == offspring[x - survivors.len()]);
            }
        }
    }
    assert forall|x: int| 0 <= x < all@.len() implies #[trigger] all@[x].fits(
        COORD_LIMIT + SPLIT_KICK,
    ) && all@[x].id < id by {
        if x >= survivors.len() {
            assert(all@[x] == offspring[x - survivors.len()]);
        } else {
            assert(all@[x] == survivors[x]);
            assert(survivors[x].wf());
        }
    }
    (all, id)
}

} // verus!
