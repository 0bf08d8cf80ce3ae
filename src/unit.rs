use vstd::prelude::*;
use crate::fixed::{floor_div, is_scale_of, scale_of, scale_for_mass};

verus! {

/// Largest magnitude, in thousandths, of a position or velocity component
/// that the resolvers accept.
pub const COORD_LIMIT: i64 = 1_099_511_627_776;

/// Centre distance (thousandths) at or below which two units never merge.
pub const MIN_MERGE_DISTANCE: u64 = 100;

/// Merge radius given to every unit that a merge or split creates.
pub const DEFAULT_MERGE_RADIUS: u64 = 2500;

/// Split threshold given to every unit that a merge creates.
pub const DEFAULT_SPLIT_THRESHOLD: u64 = 3000;

/// Split threshold given to split offspring, lower than the default so that
/// regrowth splits again sooner.
pub const OFFSPRING_SPLIT_THRESHOLD: u64 = 2500;

/// Lateral offset of each split offspring from its parent, on x and on z.
pub const SPLIT_OFFSET: i64 = 500;

/// Horizontal (x) velocity kick that pushes split offspring apart.
pub const SPLIT_KICK: i64 = 3000;

/// Upward velocity kick shared by both split offspring.
pub const SPLIT_POP: i64 = 2000;

/// A point or a vector in space, each component in thousandths.
#[derive(Clone, Copy, Debug, PartialEq, Eq, Structural)]
pub struct Vec3 {
    pub x: i64,
    pub y: i64,
    pub z: i64,
}

/// A presentation color, one byte per channel.
#[derive(Clone, Copy, Debug, PartialEq, Eq, Structural)]
pub struct Rgb {
    pub r: u8,
    pub g: u8,
    pub b: u8,
}

/// The autonomous wander state of an enemy unit.
#[derive(Clone, Copy, Debug, PartialEq, Eq, Structural)]
pub struct EnemySlime {
    /// Time since the heading was last chosen, in thousandths.
    pub wander_timer: u64,
    /// Horizontal heading, a unit vector in thousandths (`y` is 0).
    pub wander_direction: Vec3,
}

/// Who controls a unit.
#[derive(Clone, Copy, Debug, PartialEq, Eq, Structural)]
pub enum Role {
    /// Steered by the player's input.
    Player,
    /// Wanders on its own.
    Enemy(EnemySlime),
    /// Produced by a merge or a split; nobody steers it.
    Neutral,
}

/// One mass-carrying unit of the simulation.
#[derive(Clone, Copy, Debug, PartialEq, Eq, Structural)]
pub struct Slime {
    pub id: u64,
    pub position: Vec3,
    pub velocity: Vec3,
    /// Mass in thousandths; always positive.
    pub mass: u64,
    pub merge_radius: u64,
    pub split_threshold: u64,
    pub color: Rgb,
    pub role: Role,
    /// Visual and collider size in thousandths; the cube root of the mass
    /// once the scale has been synchronised.
    pub scale: u64,
}

pub open spec fn within(v: Vec3, bound: int) -> bool {
    &&& -bound <= v.x <= bound
    &&& -bound <= v.y <= bound
    &&& -bound <= v.z <= bound
}

impl Slime {
    /// Positive mass, merge radius and split threshold, an enemy heading no
    /// longer than one unit on each axis, and position and velocity inside `bound`.
    pub open spec fn fits(self, bound: int) -> bool {
        &&& self.mass > 0
        &&& self.merge_radius > 0
        &&& self.split_threshold > 0
        &&& within(self.position, bound)
        &&& within(self.velocity, bound)
        &&& (self.role matches Role::Enemy(e) ==> within(e.wander_direction, 1000))
    }

    /// What the resolvers accept as input.
    pub open spec fn wf(self) -> bool {
        self.fits(COORD_LIMIT as int)
    }

    pub open spec fn is_player(self) -> bool {
        self.role is Player
    }
}

pub open spec fn sq(a: int) -> int {
    a * a
}

/// Squared distance between two points.
pub open spec fn dist_sq(a: Vec3, b: Vec3) -> int {
    sq(a.x - b.x) + sq(a.y - b.y) + sq(a.z - b.z)
}

/// A pair is eligible to merge when the distance between the centres lies
/// strictly between `MIN_MERGE_DISTANCE` and the first unit's merge radius.
pub open spec fn can_merge_spec(a: Slime, b: Slime) -> bool {
    sq(MIN_MERGE_DISTANCE as int) < dist_sq(a.position, b.position) < sq(a.merge_radius as int)
}

pub open spec fn midpoint(a: Vec3, b: Vec3) -> Vec3 {
    Vec3 {
        x: ((a.x + b.x) / 2) as i64,
        y: ((a.y + b.y) / 2) as i64,
        z: ((a.z + b.z) / 2) as i64,
    }
}

/// Mass-weighted mean of two components, rounded down.
pub open spec fn weighted(va: int, ma: int, vb: int, mb: int) -> int {
    (va * ma + vb * mb) / (ma + mb)
}

pub open spec fn weighted_velocity(a: Slime, b: Slime) -> Vec3 {
    Vec3 {
        x: weighted(a.velocity.x as int, a.mass as int, b.velocity.x as int, b.mass as int) as i64,
        y: weighted(a.velocity.y as int, a.mass as int, b.velocity.y as int, b.mass as int) as i64,
        z: weighted(a.velocity.z as int, a.mass as int, b.velocity.z as int, b.mass as int) as i64,
    }
}

pub open spec fn mean_color(a: Rgb, b: Rgb) -> Rgb {
    Rgb {
        r: ((a.r + b.r) / 2) as u8,
        g: ((a.g + b.g) / 2) as u8,
        b: ((a.b + b.b) / 2) as u8,
    }
}

/// The player keeps control of what it merges into.
pub open spec fn merged_role(a: Slime, b: Slime) -> Role {
    if a.is_player() || b.is_player() {
        Role::Player
    } else {
        Role::Neutral
    }
}

/// The unit that replaces the pair `a`, `b`.
pub open spec fn merged_spec(a: Slime, b: Slime, id: u64) -> Slime {
    Slime {
        id,
        position: midpoint(a.position, b.position),
        velocity: weighted_velocity(a, b),
        mass: (a.mass + b.mass) as u64,
        merge_radius: DEFAULT_MERGE_RADIUS,
        split_threshold: DEFAULT_SPLIT_THRESHOLD,
        color: mean_color(a.color, b.color),
        role: merged_role(a, b),
        scale: scale_for_mass(a.mass + b.mass) as u64,
    }
}

/// A unit whose mass exceeds its split threshold splits.
pub open spec fn must_split(s: Slime) -> bool {
    s.mass > s.split_threshold
}

/// One of the two offspring of `p`: the first one (`first`) is offset and
/// kicked towards positive x, the other towards negative x. The first one
/// carries the floor of half the mass, the second one the rest, and only the
/// first one keeps the player's control.
pub open spec fn offspring_spec(p: Slime, id: u64, first: bool) -> Slime {
    let sign: int = if first { 1 } else { -1 };
    let mass: int = if first { p.mass as int / 2 } else { p.mass - p.mass as int / 2 };
    Slime {
        id,
        position: Vec3 {
            x: (p.position.x + sign * SPLIT_OFFSET) as i64,
            y: p.position.y,
            z: (p.position.z + sign * SPLIT_OFFSET) as i64,
        },
        velocity: Vec3 {
            x: (p.velocity.x + sign * SPLIT_KICK) as i64,
            y: (p.velocity.y + SPLIT_POP) as i64,
            z: p.velocity.z,
        },
        mass: mass as u64,
        merge_radius: DEFAULT_MERGE_RADIUS,
        split_threshold: OFFSPRING_SPLIT_THRESHOLD,
        color: p.color,
        role: if first && p.is_player() { Role::Player } else { Role::Neutral },
        scale: scale_for_mass(mass) as u64,
    }
}

fn sq_diff(a: i64, b: i64) -> (r: u128)
    requires
        -COORD_LIMIT <= a <= COORD_LIMIT,
        -COORD_LIMIT <= b <= COORD_LIMIT,
    ensures
        r == sq(a - b),
        r <= 2199023255552int * 2199023255552int,
{
    let d: i128 = a as i128 - b as i128;
    let m: u128 = if d < 0 { (-d) as u128 } else { d as u128 };
    assert(m * m <= 2199023255552int * 2199023255552int) by (nonlinear_arith)
        requires
            m <= 2199023255552int,
    ;
    assert(m * m == sq(a - b)) by (nonlinear_arith)
        requires
            m == d || m == -d,
            d == a - b,
    ;
    m * m
}

/// Whether `a` and `b` are eligible to merge (see `can_merge_spec`).
pub fn can_merge(a: &Slime, b: &Slime) -> (r: bool)
    requires
        a.wf(),
        b.wf(),
    ensures
        r == can_merge_spec(*a, *b),
{
    let d2: u128 = sq_diff(a.position.x, b.position.x) + sq_diff(a.position.y, b.position.y)
        + sq_diff(a.position.z, b.position.z);
    let m: u128 = MIN_MERGE_DISTANCE as u128;
    let r: u128 = a.merge_radius as u128;
    assert(r * r <= 0xffff_ffff_ffff_ffffu128 * 0xffff_ffff_ffff_ffffu128) by (nonlinear_arith)
        requires
            r <= 0xffff_ffff_ffff_ffffu128,
    ;
    m * m < d2 && d2 < r * r
}

proof fn lemma_weighted_bounds(va: int, ma: int, vb: int, mb: int, bound: int)
    requires
        -bound <= va <= bound,
        -bound <= vb <= bound,
        ma >= 0,
        mb >= 0,
        ma + mb > 0,
    ensures
        -bound <= weighted(va, ma, vb, mb) <= bound,
        -bound * (ma + mb) <= va * ma + vb * mb <= bound * (ma + mb),
{
    let n = va * ma + vb * mb;
    let m = ma + mb;
    assert(-bound * m <= n <= bound * m) by (nonlinear_arith)
        requires
            -bound <= va <= bound,
            -bound <= vb <= bound,
            ma >= 0,
            mb >= 0,
            n == va * ma + vb * mb,
            m == ma + mb,
    ;
    let q = n / m;
    vstd::arithmetic::div_mod::lemma_fundamental_div_mod(n, m);
    vstd::arithmetic::div_mod::lemma_mod_bound(n, m);
    assert(-bound <= q <= bound) by (nonlinear_arith)
        requires
            -bound * m <= n <= bound * m,
            n == m * q + n % m,
            0 <= n % m < m,
            m > 0,
    ;
}

fn weighted_component(va: i64, ma: u64, vb: i64, mb: u64) -> (r: i64)
    requires
        -COORD_LIMIT <= va <= COORD_LIMIT,
        -COORD_LIMIT <= vb <= COORD_LIMIT,
        ma + mb <= u64::MAX,
        ma + mb > 0,
    ensures
        r == weighted(va as int, ma as int, vb as int, mb as int),
        -COORD_LIMIT <= r <= COORD_LIMIT,
{
    proof {
        lemma_weighted_bounds(va as int, ma as int, vb as int, mb as int, COORD_LIMIT as int);
        assert(va * ma <= 1099511627776int * 0xffff_ffff_ffff_ffffint) by (nonlinear_arith)
            requires -1099511627776int <= va <= 1099511627776int, 0 <= ma <= 0xffff_ffff_ffff_ffffint;
        assert(va * ma >= -1099511627776int * 0xffff_ffff_ffff_ffffint) by (nonlinear_arith)
            requires -1099511627776int <= va <= 1099511627776int, 0 <= ma <= 0xffff_ffff_ffff_ffffint;
        assert(vb * mb <= 1099511627776int * 0xffff_ffff_ffff_ffffint) by (nonlinear_arith)
            requires -1099511627776int <= vb <= 1099511627776int, 0 <= mb <= 0xffff_ffff_ffff_ffffint;
        assert(vb * mb >= -1099511627776int * 0xffff_ffff_ffff_ffffint) by (nonlinear_arith)
            requires -1099511627776int <= vb <= 1099511627776int, 0 <= mb <= 0xffff_ffff_ffff_ffffint;
    }
    let n: i128 = va as i128 * ma as i128 + vb as i128 * mb as i128;
    let q: i128 = floor_div(n, ma as i128 + mb as i128);
    q as i64
}

fn mid_component(a: i64, b: i64) -> (r: i64)
    requires
        -COORD_LIMIT <= a <= COORD_LIMIT,
        -COORD_LIMIT <= b <= COORD_LIMIT,
    ensures
        r == (a + b) / 2,
        -COORD_LIMIT <= r <= COORD_LIMIT,
{
    floor_div(a as i128 + b as i128, 2) as i64
}

/// The unit that replaces the eligible pair `a`, `b`: summed mass, midpoint
/// position, mass-weighted velocity, mean color, default radii.
pub fn merge_pair(a: &Slime, b: &Slime, id: u64) -> (r: Slime)
    requires
        a.wf(),
        b.wf(),
        a.mass + b.mass <= u64::MAX,
    ensures
        r == merged_spec(*a, *b, id),
        r.mass == a.mass + b.mass,
        r.wf(),
        is_scale_of(r.mass as int, r.scale as int),
{
    let mass: u64 = a.mass + b.mass;
    let position = Vec3 {
        x: mid_component(a.position.x, b.position.x),
        y: mid_component(a.position.y, b.position.y),
        z: mid_component(a.position.z, b.position.z),
    };
    let velocity = Vec3 {
        x: weighted_component(a.velocity.x, a.mass, b.velocity.x, b.mass),
        y: weighted_component(a.velocity.y, a.mass, b.velocity.y, b.mass),
        z: weighted_component(a.velocity.z, a.mass, b.velocity.z, b.mass),
    };
    let color = Rgb {
        r: ((a.color.r as u16 + b.color.r as u16) / 2) as u8,
        g: ((a.color.g as u16 + b.color.g as u16) / 2) as u8,
        b: ((a.color.b as u16 + b.color.b as u16) / 2) as u8,
    };
    let role = if matches!(a.role, Role::Player) || matches!(b.role, Role::Player) {
        Role::Player
    } else {
        Role::Neutral
    };
    Slime {
        id,
        position,
        velocity,
        mass,
        merge_radius: DEFAULT_MERGE_RADIUS,
        split_threshold: DEFAULT_SPLIT_THRESHOLD,
        color,
        role,
        scale: scale_of(mass),
    }
}

/// What `merge_pair` proves of its result, for use on the spec alone.
pub proof fn lemma_merged_wf(a: Slime, b: Slime, id: u64)
    requires
        a.wf(),
        b.wf(),
        a.mass + b.mass <= u64::MAX,
    ensures
        merged_spec(a, b, id).wf(),
        merged_spec(a, b, id).mass == a.mass + b.mass,
{
    let bound = COORD_LIMIT as int;
    lemma_weighted_bounds(a.velocity.x as int, a.mass as int, b.velocity.x as int, b.mass as int, bound);
    lemma_weighted_bounds(a.velocity.y as int, a.mass as int, b.velocity.y as int, b.mass as int, bound);
    lemma_weighted_bounds(a.velocity.z as int, a.mass as int, b.velocity.z as int, b.mass as int, bound);
}

/// What `offspring` proves of its result, for use on the spec alone.
pub proof fn lemma_offspring_fits(p: Slime, id: u64, first: bool)
    requires
        p.wf(),
        must_split(p),
    ensures
        offspring_spec(p, id, first).fits(COORD_LIMIT + SPLIT_KICK),
{
}

fn offspring(p: &Slime, id: u64, first: bool) -> (r: Slime)
    requires
        p.wf(),
        p.mass >= 2,
    ensures
        r == offspring_spec(*p, id, first),
        r.fits(COORD_LIMIT + SPLIT_KICK),
        is_scale_of(r.mass as int, r.scale as int),
{
    let half: u64 = p.mass / 2;
    let mass: u64 = if first { half } else { p.mass - half };
    let role = if first && matches!(p.role, Role::Player) {
        Role::Player
    } else {
        Role::Neutral
    };
    let (offset, kick): (i64, i64) = if first {
        (SPLIT_OFFSET, SPLIT_KICK)
    } else {
        (-SPLIT_OFFSET, -SPLIT_KICK)
    };
    Slime {
        id,
        position: Vec3 {
            x: p.position.x + offset,
            y: p.position.y,
            z: p.position.z + offset,
        },
        velocity: Vec3 { x: p.velocity.x + kick, y: p.velocity.y + SPLIT_POP, z: p.velocity.z },
        mass,
        merge_radius: DEFAULT_MERGE_RADIUS,
        split_threshold: OFFSPRING_SPLIT_THRESHOLD,
        color: p.color,
        role,
        scale: scale_of(mass),
    }
}

/// The two offspring of `p`, with ids `id` and `id + 1`; their masses add
/// up to the parent's.
pub fn split_pair(p: &Slime, id: u64) -> (r: (Slime, Slime))
    requires
        p.wf(),
        must_split(*p),
        id < u64::MAX,
    ensures
        r.0 == offspring_spec(*p, id, true),
        r.1 == offspring_spec(*p, (id + 1) as u64, false),
        r.0.mass + r.1.mass == p.mass,
        r.0.fits(COORD_LIMIT + SPLIT_KICK),
        r.1.fits(COORD_LIMIT + SPLIT_KICK),
{
    (offspring(p, id, true), offspring(p, id + 1, false))
}

} // verus!
