//! Mobile hostile units: health, damage clamping, and movement along a
//! track.
//!
//! An enemy's `path_pos` is its progress along its track in micro-units
//! (`PATH_POS_PER_UNIT` micro-units per world unit), so that advancing by
//! `speed * dt` — speed in milli-units per second, `dt` in milliseconds — is
//! exact integer arithmetic with no rounding drift.

use vstd::prelude::*;

use crate::geometry::Vec3i;
use crate::player::Player;
use crate::registry::{apply_mask, lemma_masked_len_pair, masked};
use crate::track::{path_index_of, find_path, Path};

verus! {

/// Micro-units of `path_pos` per world unit.
pub const PATH_POS_PER_UNIT: u64 = 1_000_000;

/// Largest speed, in milli-units per second, an enemy may have; keeps
/// `speed * dt` within `u64` for any accepted time delta.
pub const SPEED_LIMIT: u64 = 1_000_000_000;

/// Stat template a spawner fills in when creating an enemy.
#[derive(Clone, Copy, Debug, PartialEq, Eq, Structural)]
pub struct EnemyCreateOptions {
    pub health: u32,
    /// Speed in milli-units per second.
    pub speed: u64,
    pub path_id: u64,
}

/// A mobile hostile unit.
#[derive(Clone, Copy, Debug, PartialEq, Eq, Structural)]
pub struct Enemy {
    pub health: u32,
    pub max_health: u32,
    pub path_id: u64,
    /// Progress along the track in micro-units.
    pub path_pos: u64,
    /// Speed that the enemy travels, in milli-units per second.
    pub speed: u64,
}

impl Enemy {
    /// Health never exceeds the maximum and the speed respects the machine
    /// limit; established at creation and preserved by every mutation.
    pub open spec fn wf(self) -> bool {
        &&& self.health <= self.max_health
        &&& self.speed <= SPEED_LIMIT
    }

    /// A fresh enemy at the start of its track with full health.
    pub fn new(options: EnemyCreateOptions) -> (r: Enemy)
        requires
            options.speed <= SPEED_LIMIT,
        ensures
            r == (Enemy {
                health: options.health,
                max_health: options.health,
                path_id: options.path_id,
                path_pos: 0,
                speed: options.speed,
            }),
            r.wf(),
    {
        Enemy {
            health: options.health,
            max_health: options.health,
            path_id: options.path_id,
            path_pos: 0,
            speed: options.speed,
        }
    }

    /// Hurts the enemy for the given damage.  Damage exceeding the remaining
    /// health clamps the health to zero; it never wraps around.
    pub fn hurt(&mut self, damage: u32)
        ensures
            final(self).health == if damage > old(self).health {
                0u32
            } else {
                (old(self).health - damage) as u32
            },
            final(self).max_health == old(self).max_health,
            final(self).path_id == old(self).path_id,
            final(self).path_pos == old(self).path_pos,
            final(self).speed == old(self).speed,
            old(self).wf() ==> final(self).wf(),
    {
        if damage > self.health {
            self.health = 0;
        } else {
            self.health = self.health - damage;
        }
    }

    /// Remaining health as a fraction of the maximum, in parts per thousand,
    /// rounded down.
    pub fn health_percent(&self) -> (r: u32)
        requires
            self.wf(),
            self.max_health >= 1,
        ensures
            r == self.health * 1000 / (self.max_health as int),
            r <= 1000,
    {
        let scaled: u64 = (self.health as u64) * 1000;
        let q: u64 = scaled / (self.max_health as u64);
        proof {
            assert(self.health * 1000 <= self.max_health * 1000) by (nonlinear_arith)
                requires self.health <= self.max_health;
            vstd::arithmetic::div_mod::lemma_div_is_ordered(
                self.health * 1000,
                self.max_health * 1000,
                self.max_health as int,
            );
            vstd::arithmetic::div_mod::lemma_div_multiples_vanish(1000, self.max_health as int);
            assert(self.max_health * 1000 == (self.max_health as int) * 1000) by (nonlinear_arith);
        }
        q as u32
    }
}

/// The world-space position of an enemy: its track sampled at its current
/// progress.  `None` exactly when the enemy's track id does not resolve.
pub open spec fn enemy_position_spec(e: Enemy, paths: Seq<Path>) -> Option<Vec3i> {
    let j = path_index_of(paths, e.path_id, 0);
    if j >= 0 {
        Some(paths[j].point_at_distance_spec((e.path_pos / PATH_POS_PER_UNIT) as int))
    } else {
        None
    }
}

/// Looks an enemy's track up by id and samples it at the enemy's progress.
/// A missing track is never fatal: the result is `None` and the caller
/// degrades.
pub fn enemy_position(e: &Enemy, paths: &Vec<Path>) -> (r: Option<Vec3i>)
    requires
        forall|k: int| 0 <= k < paths@.len() ==> (#[trigger] paths@[k]).wf(),
    ensures
        r == enemy_position_spec(*e, paths@),
        r matches Some(p) ==> p.in_bounds(),
        (forall|k: int| 0 <= k < paths@.len() ==> crate::track::path_world_bounded(
            #[trigger] paths@[k],
        )) ==> (r matches Some(p) ==> p.in_world_bounds()),
{
    match find_path(paths, e.path_id) {
        Some(j) => {
            proof {
                crate::track::lemma_path_index_of_range(paths@, e.path_id, 0);
                assert(path_index_of(paths@, e.path_id, 0) == j as int);
            }
            Some(paths[j].get_point_along_path(e.path_pos / PATH_POS_PER_UNIT))
        },
        None => None,
    }
}

/// An enemy advanced along its track by `speed * dt` micro-units,
/// saturating at the top of the representation (an enemy that far along
/// sits at the end of its track regardless).
pub open spec fn moved_enemy(e: Enemy, dt: int) -> Enemy {
    Enemy {
        path_pos: if e.path_pos + e.speed * dt <= u64::MAX {
            (e.path_pos + e.speed * dt) as u64
        } else {
            u64::MAX
        },
        ..e
    }
}

/// Advances every enemy along its track by `speed * dt` micro-units,
/// saturating at the top of the representation.  Health and identity are
/// untouched.
pub fn move_enemies(enemies: &mut Vec<Enemy>, dt_ms: u64)
    requires
        dt_ms <= 1_000_000_000,
        forall|k: int| 0 <= k < old(enemies)@.len() ==> (#[trigger] old(enemies)@[k]).wf(),
    ensures
        final(enemies)@.len() == old(enemies)@.len(),
        forall|k: int|
            0 <= k < old(enemies)@.len() ==> #[trigger] final(enemies)@[k] == moved_enemy(
                old(enemies)@[k],
                dt_ms as int,
            ),
{
    let n = enemies.len();
    let mut i: usize = 0;
    while i < n
        invariant
            0 <= i <= n,
            dt_ms <= 1_000_000_000,
            n == enemies@.len() == old(enemies)@.len(),
            forall|k: int| 0 <= k < n ==> (#[trigger] old(enemies)@[k]).wf(),
            forall|k: int| i <= k < n ==> #[trigger] enemies@[k] == old(enemies)@[k],
            forall|k: int|
                0 <= k < i ==> #[trigger] enemies@[k] == moved_enemy(
                    old(enemies)@[k],
                    dt_ms as int,
                ),
        decreases n - i,
    {
        let e = enemies[i];
        proof {
            assert(e.speed * dt_ms <= 1_000_000_000_000_000_000) by (nonlinear_arith)
                requires 0 <= e.speed <= SPEED_LIMIT, 0 <= dt_ms <= 1_000_000_000;
        }
        let step: u64 = e.speed * dt_ms;
        let new_pos: u64 = e.path_pos.saturating_add(step);
        enemies[i] = Enemy { path_pos: new_pos, ..e };
        i = i + 1;
    }
}

/// Raised exactly once when an enemy's health reaches zero; `enemy` is the
/// dead unit's id.
#[derive(Clone, Copy, Debug, PartialEq, Eq, Structural)]
pub struct EventEnemyDeath {
    pub enemy: u64,
}

/// Removes every enemy whose health has reached zero and raises one death
/// event per removed enemy, in order — exactly once, since the enemy is
/// gone afterwards.  Survivors keep their order.
pub fn monitor_health(
    enemy_ids: &mut Vec<u64>,
    enemies: &mut Vec<Enemy>,
    enemy_deaths: &mut Vec<EventEnemyDeath>,
)
    requires
        old(enemy_ids)@.len() == old(enemies)@.len(),
    ensures
        ({
            let n = old(enemies)@.len() as int;
            let keep = Seq::new(old(enemies)@.len(), |k: int| old(enemies)@[k].health > 0);
            let dead = Seq::new(old(enemies)@.len(), |k: int| old(enemies)@[k].health == 0);
            let events = Seq::new(old(enemies)@.len(), |k: int| EventEnemyDeath {
                enemy: old(enemy_ids)@[k],
            });
            final(enemies)@ == masked(old(enemies)@, keep, n)
                && final(enemy_ids)@ == masked(old(enemy_ids)@, keep, n)
                && final(enemy_deaths)@ == old(enemy_deaths)@ + masked(events, dead, n)
        }),
        final(enemy_ids)@.len() == final(enemies)@.len(),
{
    let ghost keep_s = Seq::new(old(enemies)@.len(), |k: int| old(enemies)@[k].health > 0);
    let ghost dead_s = Seq::new(old(enemies)@.len(), |k: int| old(enemies)@[k].health == 0);
    let ghost events_s = Seq::new(old(enemies)@.len(), |k: int| EventEnemyDeath {
        enemy: old(enemy_ids)@[k],
    });
    let n = enemies.len();
    let mut keep: Vec<bool> = Vec::new();
    let mut i: usize = 0;
    proof {
        assert(enemy_deaths@ =~= old(enemy_deaths)@ + masked(events_s, dead_s, 0));
    }
    while i < n
        invariant
            0 <= i <= n,
            n == enemies@.len() == old(enemy_ids)@.len(),
            enemies@ == old(enemies)@,
            enemy_ids@ == old(enemy_ids)@,
            keep_s == Seq::new(old(enemies)@.len(), |k: int| old(enemies)@[k].health > 0),
            dead_s == Seq::new(old(enemies)@.len(), |k: int| old(enemies)@[k].health == 0),
            events_s == Seq::new(old(enemies)@.len(), |k: int| EventEnemyDeath {
                enemy: old(enemy_ids)@[k],
            }),
            keep@.len() == i,
            forall|k: int| 0 <= k < i ==> #[trigger] keep@[k] == keep_s[k],
            enemy_deaths@ == old(enemy_deaths)@ + masked(events_s, dead_s, i as int),
        decreases n - i,
    {
        let alive = enemies[i].health > 0;
        keep.push(alive);
        if !alive {
            enemy_deaths.push(EventEnemyDeath { enemy: enemy_ids[i] });
        }
        proof {
            assert(enemy_deaths@ =~= old(enemy_deaths)@ + masked(events_s, dead_s, i + 1));
        }
        i = i + 1;
    }
    proof {
        assert(keep@ =~= keep_s);
    }
    let new_enemies = apply_mask(enemies, &keep);
    let new_ids = apply_mask(enemy_ids, &keep);
    *enemies = new_enemies;
    *enemy_ids = new_ids;
    proof {
        lemma_masked_len_pair(old(enemies)@, old(enemy_ids)@, keep_s, n as int);
    }
}

/// Drains the queued death events, rewarding the player one money per dead
/// enemy.
pub fn process_enemy_death(enemy_deaths: &mut Vec<EventEnemyDeath>, player: &mut Player)
    requires
        old(player).money + old(enemy_deaths)@.len() <= u64::MAX,
    ensures
        final(player).money == old(player).money + old(enemy_deaths)@.len(),
        final(enemy_deaths)@.len() == 0,
{
    let n = enemy_deaths.len();
    let mut i: usize = 0;
    while i < n
        invariant
            0 <= i <= n,
            n == enemy_deaths@.len(),
            player.money == old(player).money + i,
            old(player).money + n <= u64::MAX,
        decreases n - i,
    {
        player.add_money(1);
        i = i + 1;
    }
    enemy_deaths.clear();
}

} // verus!
