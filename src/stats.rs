use vstd::prelude::*;
use crate::registry::Registry;
use crate::unit::{Role, Slime};

verus! {

/// Figures about the population, for display.
#[derive(Clone, Copy, Debug, PartialEq, Eq, Structural)]
pub struct GameStats {
    /// Mass of the player unit (thousandths), as last seen.
    pub player_mass: u64,
    /// Number of live enemy units.
    pub enemy_count: u64,
    /// One hundred points per unit of player mass.
    pub score: u64,
}

/// The index of the first player unit of `s` from `k` on; -1 if none.
pub open spec fn first_player(s: Seq<Slime>, k: int) -> int
    decreases s.len() - k,
{
    if k < 0 || k >= s.len() {
        -1
    } else if s[k].role is Player {
        k
    } else {
        first_player(s, k + 1)
    }
}

/// How many of the first `k` units of `s` are enemies.
pub open spec fn enemy_count(s: Seq<Slime>, k: int) -> int
    decreases k,
{
    if k <= 0 {
        0
    } else {
        enemy_count(s, k - 1) + if s[k - 1].role is Enemy { 1int } else { 0int }
    }
}

/// The statistics after looking at `s`: the player's mass when a player is
/// live (else the last value seen), the number of enemies, and the score
/// from the player's mass.
pub open spec fn stats_spec(prev: GameStats, s: Seq<Slime>) -> GameStats {
    let p = first_player(s, 0);
    let mass = if p < 0 { prev.player_mass } else { s[p].mass };
    GameStats { player_mass: mass, enemy_count: enemy_count(s, s.len() as int) as u64, score: (mass / 10) as u64 }
}

impl GameStats {
    /// All figures zero.
    pub fn new() -> (r: GameStats)
        ensures
            r == (GameStats { player_mass: 0, enemy_count: 0, score: 0 }),
    {
        GameStats { player_mass: 0, enemy_count: 0, score: 0 }
    }
}

/// Reads the registry and refreshes `stats`; see `stats_spec`.
pub fn update_game_stats(stats: &mut GameStats, registry: &Registry)
    ensures
        *final(stats) == stats_spec(*old(stats), registry.units_view()),
{
    let units = registry.units();
    let n = units.len();
    let mut count: u64 = 0;
    let mut player: Option<u64> = None;
    let mut i: usize = 0;
    while i < n
        invariant
            n == units@.len(),
            units@ == registry.units_view(),
            i <= n,
            count == enemy_count(units@, i as int),
            count <= i,
            match player {
                Some(m) => first_player(units@, 0) >= 0 && first_player(units@, 0) < i
                    && m == units@[first_player(units@, 0)].mass,
                None => first_player(units@, 0) == first_player(units@, i as int),
            },
        decreases n - i,
    {
        if matches!(units[i].role, Role::Enemy(_)) {
            count = count + 1;
        }
        if player.is_none() && matches!(units[i].role, Role::Player) {
            player = Some(units[i].mass);
        }
        i = i + 1;
    }
    let mass = match player {
        Some(m) => m,
        None => stats.player_mass,
    };
    *stats = GameStats { player_mass: mass, enemy_count: count, score: mass / 10 };
}

} // verus!
