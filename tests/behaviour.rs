use slime_sim::{
    cube_root_floor, floor_div, floor_mod, heading, move_unit, player_move, scale_of,
    spawn_enemy_slimes, spawn_player_slime, update_game_stats, wander, EnemySlime, GameStats,
    PlayerInput, Registry, Rgb, Role, Slime, Vec3,
};

fn v(x: i64, y: i64, z: i64) -> Vec3 {
    Vec3 { x, y, z }
}

fn keys(forward: bool, back: bool, left: bool, right: bool, up: bool) -> PlayerInput {
    PlayerInput { forward, back, left, right, up }
}

#[test]
fn player_velocity_from_keys() {
    let old = v(5, -9810, 7);
    assert_eq!(player_move(keys(false, false, false, false, false), old), old);
    assert_eq!(player_move(keys(true, false, false, false, false), old), v(-15000, 0, 0));
    assert_eq!(player_move(keys(false, true, false, false, false), old), v(15000, 0, 0));
    assert_eq!(player_move(keys(false, false, true, false, false), old), v(0, 0, -15000));
    assert_eq!(player_move(keys(false, false, false, false, true), old), v(0, 15000, 0));
    assert_eq!(player_move(keys(true, false, false, true, false), old), v(-10606, 0, 10606));
    assert_eq!(player_move(keys(true, false, false, true, true), old), v(-8660, 8660, 8660));
    assert_eq!(player_move(keys(true, true, false, false, false), old), old);
    assert_eq!(player_move(keys(true, true, true, true, false), old), old);
}

#[test]
fn headings_follow_position() {
    assert_eq!(heading(v(0, 0, 0)), v(1000, 0, 0));
    assert_eq!(heading(v(1000, 0, 0)), v(383, 0, -924));
    assert_eq!(heading(v(0, 0, 1000)), v(924, 0, 383));
    assert_eq!(heading(v(-500, 0, 0)), v(383, 0, 924));
}

#[test]
fn wander_timer_and_heading() {
    let e = EnemySlime { wander_timer: 1500, wander_direction: v(0, 0, 1000) };
    let kept = wander(e, v(1000, 0, 0), 400);
    assert_eq!(kept, EnemySlime { wander_timer: 1900, wander_direction: v(0, 0, 1000) });
    let at_interval = wander(e, v(1000, 0, 0), 500);
    assert_eq!(at_interval.wander_timer, 2000);
    let turned = wander(e, v(1000, 0, 0), 600);
    assert_eq!(turned, EnemySlime { wander_timer: 0, wander_direction: v(383, 0, -924) });
    let huge = wander(e, v(0, 0, 0), u64::MAX);
    assert_eq!(huge, EnemySlime { wander_timer: 0, wander_direction: v(1000, 0, 0) });
}

#[test]
fn enemy_velocity_keeps_vertical() {
    let u = Slime {
        id: 3,
        position: v(1000, 0, 0),
        velocity: v(1, -4000, 2),
        mass: 500,
        merge_radius: 2000,
        split_threshold: 2500,
        color: Rgb { r: 0, g: 0, b: 0 },
        role: Role::Enemy(EnemySlime { wander_timer: 0, wander_direction: v(707, 0, -707) }),
        scale: scale_of(500),
    };
    let input = keys(true, false, false, false, false);
    let m = move_unit(&u, input, 100);
    assert_eq!(m.velocity, v(5656, -4000, -5656));
    let m2 = move_unit(&u, input, 2100);
    assert_eq!(m2.velocity, v(3064, -4000, -7392));
    let neutral = Slime { role: Role::Neutral, ..u };
    assert_eq!(move_unit(&neutral, input, 100), neutral);
    let player = Slime { role: Role::Player, ..u };
    assert_eq!(move_unit(&player, input, 100).velocity, v(-15000, 0, 0));
}

#[test]
fn world_bootstrap() {
    let mut r = Registry::new();
    let p = spawn_player_slime(&mut r);
    spawn_enemy_slimes(&mut r);
    assert_eq!(p, 0);
    assert_eq!(r.len(), 9);
    let units = r.units();
    assert_eq!(units[0].role, Role::Player);
    assert_eq!(units[0].position, v(0, 5000, 0));
    assert_eq!(units[0].mass, 1000);
    assert_eq!(units[0].scale, 1000);
    assert_eq!(units[1].position, v(-12000, 3000, -4000));
    assert_eq!(units[1].role, Role::Enemy(EnemySlime { wander_timer: 0, wander_direction: v(1000, 0, 0) }));
    assert_eq!(units[6].position, v(-4000, 3000, 4000));
    assert_eq!(units[8].position, v(12000, 3000, 4000));
    assert_eq!(units[2].color, Rgb { r: 77, g: 77, b: 204 });
    assert_eq!(units[5].color, Rgb { r: 204, g: 77, b: 77 });
    assert_eq!(units[3].mass, 500);
    assert_eq!(units[3].scale, 793);
    for (i, u) in units.iter().enumerate() {
        assert_eq!(u.id, i as u64);
    }
}

#[test]
fn statistics() {
    let mut stats = GameStats::new();
    let mut r = Registry::new();
    update_game_stats(&mut stats, &r);
    assert_eq!(stats, GameStats { player_mass: 0, enemy_count: 0, score: 0 });
    spawn_player_slime(&mut r);
    spawn_enemy_slimes(&mut r);
    update_game_stats(&mut stats, &r);
    assert_eq!(stats, GameStats { player_mass: 1000, enemy_count: 8, score: 100 });
    assert!(r.remove(0));
    update_game_stats(&mut stats, &r);
    assert_eq!(stats, GameStats { player_mass: 1000, enemy_count: 8, score: 100 });
}

#[test]
fn integer_helpers() {
    assert_eq!(cube_root_floor(0), 0);
    assert_eq!(cube_root_floor(26), 2);
    assert_eq!(cube_root_floor(27), 3);
    assert_eq!(floor_div(-7, 2), -4);
    assert_eq!(floor_div(7, 2), 3);
    assert_eq!(floor_mod(-224, 16), 0);
    assert_eq!(floor_mod(-1, 16), 15);
}
