use slime_sim::{
    can_merge, merge_pair, scale_of, split_pair, EnemySlime, PlayerInput, Registry, Rgb, Role,
    Slime, Vec3,
};

fn v(x: i64, y: i64, z: i64) -> Vec3 {
    Vec3 { x, y, z }
}

fn unit(position: Vec3, mass: u64, merge_radius: u64, split_threshold: u64, role: Role) -> Slime {
    Slime {
        id: 0,
        position,
        velocity: v(0, 0, 0),
        mass,
        merge_radius,
        split_threshold,
        color: Rgb { r: 100, g: 100, b: 100 },
        role,
        scale: scale_of(mass),
    }
}

fn no_input() -> PlayerInput {
    PlayerInput { forward: false, back: false, left: false, right: false, up: false }
}

fn enemy(timer: u64, dir: Vec3) -> Role {
    Role::Enemy(EnemySlime { wander_timer: timer, wander_direction: dir })
}

fn is_cube_root_of_mass(mass: u64, scale: u64) -> bool {
    let n = mass as u128 * 1_000_000;
    let s = scale as u128;
    s * s * s <= n && n < (s + 1) * (s + 1) * (s + 1)
}

#[test]
fn merge_eligibility_boundary() {
    let a = unit(v(0, 0, 0), 1000, 2500, 3000, Role::Neutral);
    assert!(!can_merge(&a, &unit(v(0, 0, 50), 500, 2500, 3000, Role::Neutral)));
    assert!(can_merge(&a, &unit(v(0, 0, 1000), 500, 2500, 3000, Role::Neutral)));
    assert!(can_merge(&a, &unit(v(0, 0, 2499), 500, 2500, 3000, Role::Neutral)));
    assert!(!can_merge(&a, &unit(v(0, 0, 2500), 500, 2500, 3000, Role::Neutral)));
    assert!(!can_merge(&a, &unit(v(0, 0, 2501), 500, 2500, 3000, Role::Neutral)));
    assert!(!can_merge(&a, &unit(v(100, 0, 0), 500, 2500, 3000, Role::Neutral)));
    assert!(can_merge(&a, &unit(v(101, 0, 0), 500, 2500, 3000, Role::Neutral)));
}

#[test]
fn merge_uses_first_unit_radius() {
    let small = unit(v(0, 0, 0), 1000, 1000, 3000, Role::Neutral);
    let large = unit(v(2000, 0, 0), 1000, 2500, 3000, Role::Neutral);
    assert!(!can_merge(&small, &large));
    assert!(can_merge(&large, &small));
}

#[test]
fn merge_pair_conserves_mass_and_momentum() {
    let mut a = unit(v(0, 0, 0), 700, 2500, 3000, Role::Neutral);
    a.velocity = v(1000, 0, 10);
    a.color = Rgb { r: 10, g: 20, b: 30 };
    let mut b = unit(v(1000, 2000, -3), 1300, 2500, 3000, Role::Neutral);
    b.velocity = v(-1000, 0, 10);
    b.color = Rgb { r: 20, g: 40, b: 61 };
    let m = merge_pair(&a, &b, 42);
    assert_eq!(m.id, 42);
    assert_eq!(m.mass, 2000);
    assert_eq!(m.position, v(500, 1000, -2));
    assert_eq!(m.velocity, v(-300, 0, 10));
    assert_eq!(m.color, Rgb { r: 15, g: 30, b: 45 });
    assert_eq!(m.merge_radius, 2500);
    assert_eq!(m.split_threshold, 3000);
    assert_eq!(m.scale, 1259);
    assert_eq!(m.role, Role::Neutral);
}

#[test]
fn merge_keeps_player_role() {
    let a = unit(v(0, 0, 0), 1000, 2500, 3000, enemy(0, v(1000, 0, 0)));
    let b = unit(v(1000, 0, 0), 1000, 2500, 3000, Role::Player);
    assert_eq!(merge_pair(&a, &b, 7).role, Role::Player);
}

#[test]
fn end_to_end_merge_scenario() {
    let mut r = Registry::new();
    r.insert(unit(v(0, 5000, 0), 1000, 2500, 3000, Role::Player));
    r.insert(unit(v(1000, 5000, 500), 500, 2000, 2500, enemy(0, v(1000, 0, 0))));
    r.step(no_input(), 0);
    let units = r.units();
    assert_eq!(units.len(), 1);
    let m = units[0];
    assert_eq!(m.id, 2);
    assert_eq!(m.mass, 1500);
    assert_eq!(m.position, v(500, 5000, 250));
    assert_eq!(m.scale, 1144);
    assert!(r.get(0).is_none());
    assert!(r.get(1).is_none());
    assert_eq!(r.next_id(), 3);
}

#[test]
fn merge_momentum_in_step() {
    let mut r = Registry::new();
    let mut a = unit(v(0, 0, 0), 1000, 2500, 3000, Role::Neutral);
    a.velocity = v(3000, 0, 0);
    let mut b = unit(v(1000, 0, 0), 2000, 2500, 3000, Role::Neutral);
    b.velocity = v(0, 0, 0);
    r.insert(a);
    r.insert(b);
    r.slime_merge();
    assert_eq!(r.units()[0].velocity, v(1000, 0, 0));
    assert_eq!(r.units()[0].mass, 3000);
}

#[test]
fn first_eligible_pair_wins() {
    let mut r = Registry::new();
    r.insert(unit(v(0, 0, 0), 1000, 2500, 3000, Role::Neutral));
    r.insert(unit(v(1000, 0, 0), 1000, 2500, 3000, Role::Neutral));
    r.insert(unit(v(2000, 0, 0), 1000, 2500, 3000, Role::Neutral));
    r.slime_merge();
    let units = r.units();
    assert_eq!(units.len(), 2);
    assert_eq!(units[0].id, 2);
    assert_eq!(units[0].mass, 1000);
    assert_eq!(units[1].id, 3);
    assert_eq!(units[1].mass, 2000);
    assert_eq!(units[1].position, v(500, 0, 0));
}

#[test]
fn coincident_units_do_not_merge() {
    let mut r = Registry::new();
    r.insert(unit(v(0, 0, 0), 1000, 2500, 3000, Role::Neutral));
    r.insert(unit(v(0, 0, 0), 1000, 2500, 3000, Role::Neutral));
    r.slime_merge();
    assert_eq!(r.len(), 2);
    assert_eq!(r.next_id(), 2);
}

#[test]
fn end_to_end_split_scenario() {
    let mut r = Registry::new();
    let mut p = unit(v(0, 0, 0), 4000, 2500, 3000, Role::Neutral);
    p.velocity = v(100, 0, 0);
    r.insert(p);
    r.slime_split();
    let units = r.units();
    assert_eq!(units.len(), 2);
    assert!(r.get(0).is_none());
    assert_eq!(units[0].mass, 2000);
    assert_eq!(units[1].mass, 2000);
    assert_eq!(units[0].position, v(500, 0, 500));
    assert_eq!(units[1].position, v(-500, 0, -500));
    assert_eq!(units[0].velocity, v(3100, 2000, 0));
    assert_eq!(units[1].velocity, v(-2900, 2000, 0));
    assert_eq!(units[0].split_threshold, 2500);
    assert_eq!(units[0].scale, 1259);
    assert_eq!(units[0].id, 1);
    assert_eq!(units[1].id, 2);
}

#[test]
fn split_threshold_boundary() {
    let mut r = Registry::new();
    r.insert(unit(v(0, 0, 0), 3000, 2500, 3000, Role::Neutral));
    r.slime_split();
    assert_eq!(r.len(), 1);
    assert_eq!(r.units()[0].id, 0);

    let mut r2 = Registry::new();
    r2.insert(unit(v(0, 0, 0), 3001, 2500, 3000, Role::Neutral));
    r2.slime_split();
    assert_eq!(r2.len(), 2);
    assert_eq!(r2.units()[0].mass, 1500);
    assert_eq!(r2.units()[1].mass, 1501);
}

#[test]
fn split_pair_conserves_mass() {
    let mut p = unit(v(0, 0, 0), 5001, 2500, 3000, Role::Player);
    p.color = Rgb { r: 1, g: 2, b: 3 };
    let (a, b) = split_pair(&p, 10);
    assert_eq!(a.mass + b.mass, 5001);
    assert_eq!(a.mass, 2500);
    assert_eq!((a.id, b.id), (10, 11));
    assert_eq!(a.color, p.color);
    assert_eq!(b.color, p.color);
    assert_eq!(a.role, Role::Player);
    assert_eq!(b.role, Role::Neutral);
}

#[test]
fn scale_law_after_step() {
    let mut r = Registry::new();
    r.insert(unit(v(0, 0, 0), 1000, 2500, 3000, Role::Player));
    r.insert(unit(v(50000, 0, 0), 7000, 2500, 3000, Role::Neutral));
    r.insert(unit(v(-50000, 0, 0), 1, 2500, 3000, Role::Neutral));
    let mut stale = unit(v(0, 0, 50000), 2000, 2500, 3000, Role::Neutral);
    stale.scale = 1;
    r.insert(stale);
    r.step(no_input(), 16);
    assert_eq!(r.len(), 5);
    for u in r.units() {
        assert!(is_cube_root_of_mass(u.mass, u.scale));
    }
}

#[test]
fn scale_values() {
    assert_eq!(scale_of(1000), 1000);
    assert_eq!(scale_of(8000), 2000);
    assert_eq!(scale_of(500), 793);
    assert_eq!(scale_of(1500), 1144);
    assert_eq!(scale_of(1), 100);
    assert_eq!(scale_of(2), 125);
    assert_eq!(scale_of(0), 0);
    assert!(is_cube_root_of_mass(u64::MAX, scale_of(u64::MAX)));
}

#[test]
fn identities_are_never_reused() {
    let mut r = Registry::new();
    let a = r.insert(unit(v(0, 0, 0), 1000, 2500, 3000, Role::Neutral));
    let b = r.insert(unit(v(1000, 0, 0), 1000, 2500, 3000, Role::Neutral));
    assert_eq!((a, b), (0, 1));
    assert!(r.remove(a));
    assert!(!r.remove(a));
    let c = r.insert(unit(v(0, 0, 0), 1000, 2500, 3000, Role::Neutral));
    assert_eq!(c, 2);
    let mut seen: Vec<u64> = vec![a, b, c];
    r.insert(unit(v(900, 0, 0), 4000, 2500, 3000, Role::Neutral));
    r.step(no_input(), 0);
    for u in r.units() {
        assert!(u.id < r.next_id());
    }
    let mut events = 0;
    for u in r.units() {
        if u.id >= 4 {
            events += 1;
        }
        assert!(!seen.contains(&u.id) || u.id == b || u.id == c);
        seen.push(u.id);
    }
    assert!(events >= 1);
    let mut sorted = seen.clone();
    sorted.sort();
    sorted.dedup();
    assert_eq!(sorted.len(), seen.len());
}

#[test]
fn registry_get_and_remove() {
    let mut r = Registry::new();
    let id = r.insert(unit(v(1, 2, 3), 1000, 2500, 3000, Role::Neutral));
    let got = r.get(id).unwrap();
    assert_eq!(got.position, v(1, 2, 3));
    assert_eq!(got.id, id);
    assert!(r.get(id + 1).is_none());
    assert!(!r.remove(id + 1));
    assert!(r.remove(id));
    assert_eq!(r.len(), 0);
}

#[test]
fn step_is_reproducible() {
    let build = || {
        let mut r = Registry::new();
        r.insert(unit(v(0, 5000, 0), 1000, 2500, 3000, Role::Player));
        r.insert(unit(v(1000, 5000, 500), 500, 2000, 2500, enemy(1900, v(0, 0, 1000))));
        r.insert(unit(v(20000, 0, 0), 4000, 2500, 3000, Role::Neutral));
        r.insert(unit(v(-20000, 0, 0), 500, 2000, 2500, enemy(0, v(707, 0, 707))));
        r
    };
    let input = PlayerInput { forward: true, back: false, left: false, right: true, up: false };
    let mut a = build();
    let mut b = build();
    a.step(input, 250);
    b.step(input, 250);
    assert_eq!(a.units(), b.units());
    assert_eq!(a.next_id(), b.next_id());
    a.step(input, 250);
    b.step(input, 250);
    assert_eq!(a.units(), b.units());
}

#[test]
fn try_step_checks_ranges() {
    let mut r = Registry::new();
    r.insert(unit(v(0, 0, 0), 4000, 2500, 3000, Role::Neutral));
    assert!(r.ready_for_step());
    assert!(r.try_step(no_input(), 16));
    assert_eq!(r.len(), 2);

    let mut far = Registry::new();
    far.insert(unit(v(1i64 << 41, 0, 0), 4000, 2500, 3000, Role::Neutral));
    assert!(!far.ready_for_step());
    assert!(!far.try_step(no_input(), 16));
    assert_eq!(far.len(), 1);
    assert_eq!(far.next_id(), 1);

    let mut heavy = Registry::new();
    heavy.insert(unit(v(0, 0, 0), u64::MAX, 2500, u64::MAX, Role::Neutral));
    heavy.insert(unit(v(50000, 0, 0), 1, 2500, 3000, Role::Neutral));
    assert!(!heavy.ready_for_step());

    let mut weightless = Registry::new();
    weightless.insert(unit(v(0, 0, 0), 0, 2500, 3000, Role::Neutral));
    assert!(!weightless.try_step(no_input(), 16));
}

#[test]
fn step_conserves_total_mass() {
    let mut r = Registry::new();
    r.insert(unit(v(0, 5000, 0), 1000, 2500, 3000, Role::Player));
    r.insert(unit(v(1000, 5000, 500), 2500, 2000, 2500, enemy(0, v(1000, 0, 0))));
    r.insert(unit(v(30000, 0, 0), 4001, 2500, 3000, Role::Neutral));
    r.insert(unit(v(-30000, 0, 0), 777, 2500, 3000, Role::Neutral));
    let before: u64 = r.units().iter().map(|u| u.mass).sum();
    for _ in 0..3 {
        r.step(no_input(), 16);
        let after: u64 = r.units().iter().map(|u| u.mass).sum();
        assert_eq!(after, before);
    }
    assert!(r.units().iter().any(|u| u.mass == 3500 || u.mass == 1750));
}
