//! Population dynamics of mass-carrying units ("slimes") in fixed-point
//! arithmetic: movement intents, proximity merges, mass splits and the
//! derived scale of each unit.
//!
//! Every length, speed, mass, scale and time is held as an integer count of
//! thousandths (`1000` stands for `1.0`). One step runs four phases in a
//! fixed order over the unit registry: movement, merge, split, scale.
mod fixed;
mod laws;
mod merge;
mod movement;
mod registry;
mod split;
mod stats;
mod sync;
mod unit;
mod world;

pub use fixed::{cube_root_floor, floor_div, floor_mod, scale_of, CUBE_ROOT_INPUT_MAX, ONE};
pub use laws::{
    merge_conserves_mass, merge_keeps_ids_fresh, merge_pass_conserves_mass,
    merge_pass_is_maximal, split_conserves_mass, split_keeps_ids_fresh,
    split_pass_conserves_mass, step_is_deterministic,
};
pub use merge::merge_pass;
pub use movement::{
    heading, move_unit, movement_pass, player_move, wander, PlayerInput, ENEMY_SPEED,
    PLAYER_SPEED, WANDER_INTERVAL,
};
pub use registry::Registry;
pub use split::split_pass;
pub use stats::{update_game_stats, GameStats};
pub use sync::scale_pass;
pub use unit::{
    can_merge, merge_pair, split_pair, EnemySlime, Rgb, Role, Slime, Vec3, COORD_LIMIT,
    DEFAULT_MERGE_RADIUS, DEFAULT_SPLIT_THRESHOLD, MIN_MERGE_DISTANCE, OFFSPRING_SPLIT_THRESHOLD,
    SPLIT_KICK, SPLIT_OFFSET, SPLIT_POP,
};
pub use world::{spawn_enemy_slimes, spawn_player_slime, ENEMY_COUNT};
