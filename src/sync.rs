use vstd::prelude::*;
use crate::fixed::{is_scale_of, scale_for_mass, scale_of};
use crate::unit::Slime;

verus! {

/// `u` with its scale recomputed from its mass.
pub open spec fn scaled_spec(u: Slime) -> Slime {
    Slime { scale: scale_for_mass(u.mass as int) as u64, ..u }
}

/// Recomputes the scale of every unit from its mass; nothing else changes.
pub fn scale_pass(units: &Vec<Slime>) -> (r: Vec<Slime>)
    ensures
        r@ == units@.map_values(|u: Slime| scaled_spec(u)),
        forall|i: int| 0 <= i < r@.len() ==> is_scale_of(#[trigger] r@[i].mass as int, r@[i].scale as int),
{
    let mut out: Vec<Slime> = Vec::new();
    let mut i: usize = 0;
    while i < units.len()
        invariant
            i <= units@.len(),
            out@ == units@.take(i as int).map_values(|u: Slime| scaled_spec(u)),
            forall|q: int| 0 <= q < out@.len() ==> is_scale_of(#[trigger] out@[q].mass as int, out@[q].scale as int),
        decreases units@.len() - i,
    {
        let u = units[i];
        let s = scale_of(u.mass);
        out.push(Slime { scale: s, ..u });
        proof {
            assert(units@.take(i + 1).map_values(|u: Slime| scaled_spec(u)) =~= units@.take(
                i as int,
            ).map_values(|u: Slime| scaled_spec(u)).push(scaled_spec(units@[i as int])));
        }
        i = i + 1;
    }
    assert(units@.take(units@.len() as int) =~= units@);
    out
}

} // verus!
