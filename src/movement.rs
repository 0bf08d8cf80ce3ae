use vstd::prelude::*;
use crate::fixed::{floor_div, floor_mod, ONE};
use crate::unit::{EnemySlime, Role, Slime, Vec3};

verus! {

/// Speed (thousandths per unit of time) of a player-controlled unit.
pub const PLAYER_SPEED: i64 = 15000;

/// Horizontal wander speed of an enemy unit.
pub const ENEMY_SPEED: i64 = 8000;

/// Time (thousandths) after which an enemy picks a new heading.
pub const WANDER_INTERVAL: u64 = 2000;

/// The movement keys held during one step.
#[derive(Clone, Copy, Debug, PartialEq, Eq, Structural)]
pub struct PlayerInput {
    /// Towards negative x.
    pub forward: bool,
    /// Towards positive x.
    pub back: bool,
    /// Towards negative z.
    pub left: bool,
    /// Towards positive z.
    pub right: bool,
    /// Towards positive y.
    pub up: bool,
}

pub open spec fn flag(b: bool) -> int {
    if b {
        1
    } else {
        0
    }
}

/// The intent vector built from the held keys; each component is -1, 0 or 1.
pub open spec fn intent(i: PlayerInput) -> (int, int, int) {
    (flag(i.back) - flag(i.forward), flag(i.up), flag(i.right) - flag(i.left))
}

/// How many components of the intent are non-zero.
pub open spec fn intent_axes(i: PlayerInput) -> int {
    let (x, y, z) = intent(i);
    flag(x != 0) + flag(y != 0) + flag(z != 0)
}

/// `c` is `PLAYER_SPEED / sqrt(k)` rounded down: the size of each non-zero
/// component of the normalised intent times the speed, when `k` components
/// are non-zero.
pub open spec fn is_axis_speed(k: int, c: int) -> bool {
    &&& 0 <= c
    &&& c * c * k <= PLAYER_SPEED * PLAYER_SPEED
    &&& PLAYER_SPEED * PLAYER_SPEED < (c + 1) * (c + 1) * k
}

pub open spec fn axis_speed(k: int) -> int {
    if k <= 1 {
        15000
    } else if k == 2 {
        10606
    } else {
        8660
    }
}

/// The player's velocity after the step: the normalised intent times
/// `PLAYER_SPEED` replaces the whole velocity when the intent is non-zero;
/// otherwise the velocity is kept.
pub open spec fn player_velocity(i: PlayerInput, v: Vec3) -> Vec3 {
    let (x, y, z) = intent(i);
    let c = axis_speed(intent_axes(i));
    if intent_axes(i) == 0 {
        v
    } else {
        Vec3 { x: (x * c) as i64, y: (y * c) as i64, z: (z * c) as i64 }
    }
}

/// Cosine of `k` sixteenths of a turn, in thousandths, rounded to nearest.
pub open spec fn cos16(k: int) -> int {
    let k = k % 16;
    if k == 0 { 1000 }
    else if k == 1 { 924 }
    else if k == 2 { 707 }
    else if k == 3 { 383 }
    else if k == 4 { 0 }
    else if k == 5 { -383 }
    else if k == 6 { -707 }
    else if k == 7 { -924 }
    else if k == 8 { -1000 }
    else if k == 9 { -924 }
    else if k == 10 { -707 }
    else if k == 11 { -383 }
    else if k == 12 { 0 }
    else if k == 13 { 383 }
    else if k == 14 { 707 }
    else { 924 }
}

/// Sine of `k` sixteenths of a turn, in thousandths.
pub open spec fn sin16(k: int) -> int {
    cos16(k + 12)
}

/// Which of the sixteen headings a position picks: a fixed, spatially
/// varying function of the whole-unit x and z coordinates.
pub open spec fn heading_index(p: Vec3) -> int {
    (13 * (p.x as int / ONE as int) + 17 * (p.z as int / ONE as int)) % 16
}

/// The horizontal unit heading (thousandths) for a position.
pub open spec fn heading_for(p: Vec3) -> Vec3 {
    let k = heading_index(p);
    Vec3 { x: cos16(k) as i64, y: 0, z: sin16(k) as i64 }
}

/// An enemy's wander state after `dt`: the timer advances by `dt`; once it
/// exceeds `WANDER_INTERVAL` it restarts at zero and the heading is chosen
/// anew from the position.
pub open spec fn wander_spec(e: EnemySlime, p: Vec3, dt: u64) -> EnemySlime {
    if e.wander_timer + dt > WANDER_INTERVAL {
        EnemySlime { wander_timer: 0, wander_direction: heading_for(p) }
    } else {
        EnemySlime { wander_timer: (e.wander_timer + dt) as u64, ..e }
    }
}

/// The horizontal velocity follows the heading at `ENEMY_SPEED`; the
/// vertical one is kept.
pub open spec fn enemy_velocity(e: EnemySlime, v: Vec3) -> Vec3 {
    Vec3 {
        x: (e.wander_direction.x as int * ENEMY_SPEED / ONE as int) as i64,
        y: v.y,
        z: (e.wander_direction.z as int * ENEMY_SPEED / ONE as int) as i64,
    }
}

/// A unit after the movement phase of a step.
pub open spec fn moved_spec(u: Slime, i: PlayerInput, dt: u64) -> Slime {
    match u.role {
        Role::Player => Slime { velocity: player_velocity(i, u.velocity), ..u },
        Role::Enemy(e) => {
            let e2 = wander_spec(e, u.position, dt);
            Slime { velocity: enemy_velocity(e2, u.velocity), role: Role::Enemy(e2), ..u }
        },
        Role::Neutral => u,
    }
}

/// The table of axis speeds is exact.
pub proof fn lemma_axis_speed(k: int)
    requires
        1 <= k <= 3,
    ensures
        is_axis_speed(k, axis_speed(k)),
{
    if k == 1 {
        assert(is_axis_speed(1, 15000));
    } else if k == 2 {
        assert(is_axis_speed(2, 10606));
    } else {
        assert(is_axis_speed(3, 8660));
    }
}

/// Every heading is a unit vector up to the rounding of the table.
pub proof fn lemma_heading_unit(k: int)
    requires
        0 <= k < 16,
    ensures
        999_000 <= cos16(k) * cos16(k) + sin16(k) * sin16(k) <= 1_001_000,
{
    assert((k + 12) % 16 == if k < 4 { k + 12 } else { k - 4 });
}

fn axis_value(neg: bool, pos: bool) -> (r: i64)
    ensures
        r == flag(pos) - flag(neg),
{
    (if pos { 1i64 } else { 0i64 }) - (if neg { 1i64 } else { 0i64 })
}

/// The player's velocity after the step; see `player_velocity`.
pub fn player_move(input: PlayerInput, v: Vec3) -> (r: Vec3)
    ensures
        r == player_velocity(input, v),
        r == v || crate::unit::within(r, PLAYER_SPEED as int),
{
    let x = axis_value(input.forward, input.back);
    let y: i64 = if input.up { 1 } else { 0 };
    let z = axis_value(input.left, input.right);
    let k: i64 = (if x != 0 { 1i64 } else { 0 }) + (if y != 0 { 1i64 } else { 0 }) + (if z != 0 { 1i64 } else { 0 });
    if k == 0 {
        v
    } else {
        let c: i64 = if k == 1 {
            15000
        } else if k == 2 {
            10606
        } else {
            8660
        };
        assert(-1 <= x <= 1 && 0 <= y <= 1 && -1 <= z <= 1);
        assert(-15000 <= x * c <= 15000) by (nonlinear_arith)
            requires -1 <= x <= 1, 0 <= c <= 15000;
        assert(-15000 <= y * c <= 15000) by (nonlinear_arith)
            requires 0 <= y <= 1, 0 <= c <= 15000;
        assert(-15000 <= z * c <= 15000) by (nonlinear_arith)
            requires -1 <= z <= 1, 0 <= c <= 15000;
        Vec3 { x: x * c, y: y * c, z: z * c }
    }
}

fn cos_table(k: i128) -> (r: i64)
    requires
        0 <= k < 16,
    ensures
        r == cos16(k as int),
{
    let t: [i64; 16] = [
        1000, 924, 707, 383, 0, -383, -707, -924, -1000, -924, -707, -383, 0, 383, 707, 924,
    ];
    t[k as usize]
}

/// The heading an enemy at `p` picks; see `heading_for`.
pub fn heading(p: Vec3) -> (r: Vec3)
    ensures
        r == heading_for(p),
        999_000 <= r.x * r.x + r.z * r.z <= 1_001_000,
        r.y == 0,
{
    let ax = floor_div(p.x as i128, ONE as i128);
    let az = floor_div(p.z as i128, ONE as i128);
    let k = floor_mod(13 * ax + 17 * az, 16);
    let r = Vec3 { x: cos_table(k), y: 0, z: cos_table(floor_mod(k + 12, 16)) };
    assert((k + 12) % 16 == (k + 12) % 16 % 16);
    proof {
        lemma_heading_unit(k as int);
    }
    r
}

/// An enemy's wander state after `dt`; see `wander_spec`.
pub fn wander(e: EnemySlime, p: Vec3, dt: u64) -> (r: EnemySlime)
    ensures
        r == wander_spec(e, p, dt),
{
    match e.wander_timer.checked_add(dt) {
        Some(t) => {
            if t > WANDER_INTERVAL {
                EnemySlime { wander_timer: 0, wander_direction: heading(p) }
            } else {
                EnemySlime { wander_timer: t, ..e }
            }
        },
        None => EnemySlime { wander_timer: 0, wander_direction: heading(p) },
    }
}

/// A unit after the movement phase; see `moved_spec`.
pub fn move_unit(u: &Slime, input: PlayerInput, dt: u64) -> (r: Slime)
    requires
        u.wf(),
    ensures
        r == moved_spec(*u, input, dt),
        r.wf(),
{
    match u.role {
        Role::Player => Slime { velocity: player_move(input, u.velocity), ..*u },
        Role::Enemy(e) => {
            let e2 = wander(e, u.position, dt);
            let d = e2.wander_direction;
            let x = floor_div(d.x as i128 * ENEMY_SPEED as i128, ONE as i128) as i64;
            let z = floor_div(d.z as i128 * ENEMY_SPEED as i128, ONE as i128) as i64;
            Slime { velocity: Vec3 { x, y: u.velocity.y, z }, role: Role::Enemy(e2), ..*u }
        },
        Role::Neutral => *u,
    }
}

/// The movement phase over all units, in order.
pub fn movement_pass(units: &Vec<Slime>, input: PlayerInput, dt: u64) -> (r: Vec<Slime>)
    requires
        forall|i: int| 0 <= i < units@.len() ==> #[trigger] units@[i].wf(),
    ensures
        r@ == units@.map_values(|u: Slime| moved_spec(u, input, dt)),
        forall|i: int| 0 <= i < r@.len() ==> #[trigger] r@[i].wf(),
{
    let mut out: Vec<Slime> = Vec::new();
    let mut i: usize = 0;
    while i < units.len()
        invariant
            i <= units@.len(),
            forall|q: int| 0 <= q < units@.len() ==> #[trigger] units@[q].wf(),
            out@ == units@.take(i as int).map_values(|u: Slime| moved_spec(u, input, dt)),
            forall|q: int| 0 <= q < out@.len() ==> #[trigger] out@[q].wf(),
        decreases units@.len() - i,
    {
        let m = move_unit(&units[i], input, dt);
        out.push(m);
        proof {
            assert(units@.take(i + 1).map_values(|u: Slime| moved_spec(u, input, dt)) =~= units@.take(
                i as int,
            ).map_values(|u: Slime| moved_spec(u, input, dt)).push(moved_spec(units@[i as int], input, dt)));
        }
        i = i + 1;
    }
    assert(units@.take(units@.len() as int) =~= units@);
    out
}

} // verus!
