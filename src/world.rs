use vstd::prelude::*;
use crate::fixed::{scale_for_mass, scale_of};
use crate::movement::{heading, heading_for};
use crate::registry::Registry;
use crate::unit::{EnemySlime, Rgb, Role, Slime, Vec3};

verus! {

/// How many enemies the world starts with.
pub const ENEMY_COUNT: u64 = 8;

/// The player as the world starts: mass 1 at (0, 5, 0), at rest.
pub open spec fn player_spec(id: u64) -> Slime {
    Slime {
        id,
        position: Vec3 { x: 0, y: 5000, z: 0 },
        velocity: Vec3 { x: 0, y: 0, z: 0 },
        mass: 1000,
        merge_radius: 2500,
        split_threshold: 3000,
        color: Rgb { r: 77, g: 204, b: 77 },
        role: Role::Player,
        scale: scale_for_mass(1000) as u64,
    }
}

/// The color of the `i`-th enemy, cycling through four.
pub open spec fn enemy_color(i: int) -> Rgb {
    let k = i % 4;
    if k == 0 {
        Rgb { r: 204, g: 77, b: 77 }
    } else if k == 1 {
        Rgb { r: 77, g: 77, b: 204 }
    } else if k == 2 {
        Rgb { r: 204, g: 204, b: 77 }
    } else {
        Rgb { r: 204, g: 77, b: 204 }
    }
}

/// Where the `i`-th enemy starts: a grid of four columns, eight units apart,
/// centred on the origin, at height 3.
pub open spec fn enemy_position(i: int) -> Vec3 {
    Vec3 { x: ((i % 4) * 8000 - 12000) as i64, y: 3000, z: ((i / 4) * 8000 - 4000) as i64 }
}

/// The `i`-th enemy as the world starts: mass 0.5, heading picked from its
/// position.
pub open spec fn enemy_spec(i: int, id: u64) -> Slime {
    Slime {
        id,
        position: enemy_position(i),
        velocity: Vec3 { x: 0, y: 0, z: 0 },
        mass: 500,
        merge_radius: 2000,
        split_threshold: 2500,
        color: enemy_color(i),
        role: Role::Enemy(
            EnemySlime { wander_timer: 0, wander_direction: heading_for(enemy_position(i)) },
        ),
        scale: scale_for_mass(500) as u64,
    }
}

/// Adds the player unit; returns its id.
pub fn spawn_player_slime(registry: &mut Registry) -> (id: u64)
    requires
        old(registry).inv(),
        old(registry).next_id_view() < u64::MAX,
    ensures
        final(registry).inv(),
        id == old(registry).next_id_view(),
        final(registry).next_id_view() == id + 1,
        final(registry).units_view() == old(registry).units_view().push(player_spec(id)),
{
    let unit = Slime {
        id: 0,
        position: Vec3 { x: 0, y: 5000, z: 0 },
        velocity: Vec3 { x: 0, y: 0, z: 0 },
        mass: 1000,
        merge_radius: 2500,
        split_threshold: 3000,
        color: Rgb { r: 77, g: 204, b: 77 },
        role: Role::Player,
        scale: scale_of(1000),
    };
    registry.insert(unit)
}

fn enemy_color_of(i: u64) -> (c: Rgb)
    ensures
        c == enemy_color(i as int),
{
    let k = i % 4;
    if k == 0 {
        Rgb { r: 204, g: 77, b: 77 }
    } else if k == 1 {
        Rgb { r: 77, g: 77, b: 204 }
    } else if k == 2 {
        Rgb { r: 204, g: 204, b: 77 }
    } else {
        Rgb { r: 204, g: 77, b: 204 }
    }
}

/// Adds the `ENEMY_COUNT` enemy units, in order.
pub fn spawn_enemy_slimes(registry: &mut Registry)
    requires
        old(registry).inv(),
        old(registry).next_id_view() + ENEMY_COUNT <= u64::MAX,
    ensures
        final(registry).inv(),
        final(registry).next_id_view() == old(registry).next_id_view() + ENEMY_COUNT,
        final(registry).units_view() == old(registry).units_view() + Seq::new(
            ENEMY_COUNT as nat,
            |i: int| enemy_spec(i, (old(registry).next_id_view() + i) as u64),
        ),
{
    let ghost start = registry.units_view();
    let ghost next = registry.next_id_view();
    let mut i: u64 = 0;
    while i < ENEMY_COUNT
        invariant
            i <= ENEMY_COUNT,
            registry.inv(),
            registry.next_id_view() == next + i,
            next + ENEMY_COUNT <= u64::MAX,
            registry.units_view() == start + Seq::new(
                i as nat,
                |k: int| enemy_spec(k, (next + k) as u64),
            ),
        decreases ENEMY_COUNT - i,
    {
        let position = Vec3 { x: ((i % 4) * 8000) as i64 - 12000, y: 3000, z: ((i / 4) * 8000) as i64 - 4000 };
        let unit = Slime {
            id: 0,
            position,
            velocity: Vec3 { x: 0, y: 0, z: 0 },
            mass: 500,
            merge_radius: 2000,
            split_threshold: 2500,
            color: enemy_color_of(i),
            role: Role::Enemy(EnemySlime { wander_timer: 0, wander_direction: heading(position) }),
            scale: scale_of(500),
        };
        let id = registry.insert(unit);
        proof {
            assert(start + Seq::new((i + 1) as nat, |k: int| enemy_spec(k, (next + k) as u64)) =~= (
            start + Seq::new(i as nat, |k: int| enemy_spec(k, (next + k) as u64))).push(
                enemy_spec(i as int, id),
            ));
        }
        i = i + 1;
    }
}

} // verus!
