//! Stationary defenders: targeting, cooldown-paced attacks, smooth aiming,
//! and level-driven stat updates.

use vstd::prelude::*;

use crate::enemy::{enemy_position, enemy_position_spec, Enemy};
use crate::exp_level::{EventExpGain, ExperienceBus};
use crate::geometry::{dist2, dist2_spec, milli_spec, to_milli, Vec3i};
use crate::laser::{TowerLaser, TowerLaserLock};
use crate::projectile::TowerProjectile;
use crate::track::Path;

verus! {

/// Marker for the controller that steers where a tower is looking.
pub const PID_CONTROL_LOOK_AT: u64 = 1;

/// Milli-attacks per second a tower gains per level.
pub const RATE_BONUS_PER_LEVEL: u64 = 100;

/// Damage dealt by one attack, laser or projectile.
pub const ATTACK_DAMAGE: u32 = 15;

/// Projectile speed, in milli-units per second.
pub const PROJECTILE_SPEED: u64 = 10_000;

/// Lifetime of a laser's visual beam, in milliseconds.
pub const LASER_LIFETIME_MS: u64 = 500;

/// How a tower picks its target among the enemies in range.
#[derive(Clone, Copy, Debug, PartialEq, Eq, Structural)]
pub enum TowerTargeting {
    /// The enemy with the longest path progress: the one closest to its
    /// goal.
    First,
    /// The enemy at the smallest Euclidean distance from the tower.
    Closest,
}

impl Default for TowerTargeting {
    fn default() -> (r: Self)
        ensures
            r == TowerTargeting::First,
    {
        TowerTargeting::First
    }
}

/// How a tower delivers its attack.
#[derive(Clone, Copy, Debug, PartialEq, Eq, Structural)]
pub enum TowerAttackType {
    /// Instantaneous damage plus a short-lived beam entity.
    Laser,
    /// A homing projectile; damage is deferred to its collision.
    Projectile,
}

impl Default for TowerAttackType {
    fn default() -> (r: Self)
        ensures
            r == TowerAttackType::Laser,
    {
        TowerAttackType::Laser
    }
}

/// The attack cooldown: a repeating period and the time accumulated toward
/// the next attack, in nanoseconds.  The fine grain keeps the level-derived
/// period `1 / rate` faithful: any two admitted rates get distinct periods,
/// so a higher level always fires strictly faster.
#[derive(Clone, Copy, Debug, PartialEq, Eq, Structural)]
pub struct AttackTimer {
    pub period_ns: u64,
    pub elapsed_ns: u64,
}

/// A stationary defender.
#[derive(Clone, Copy, Debug)]
pub struct Tower {
    /// Scan radius, in world units.
    pub range: u64,
    /// Rate of fire at level zero, in milli-attacks per second.
    pub base_attack_rate: u64,
    /// Current rate of fire, in milli-attacks per second.
    pub attack_rate: u64,
    pub attack_timer: AttackTimer,
    pub targeting: TowerTargeting,
    pub attack_type: TowerAttackType,
    /// The point the tower is currently looking at, in milli-units.  Moved
    /// smoothly toward the controller's target every tick rather than
    /// snapping.
    pub aim_position: Vec3i,
}

impl Tower {
    /// The cooldown period is positive, the range small enough that its
    /// square fits in `u64`, and the base rate of fire positive and small
    /// enough that every level-derived rate stays within one attack per
    /// millisecond.
    pub open spec fn wf(self) -> bool {
        &&& self.attack_timer.period_ns >= 1
        &&& self.range <= 4_000_000_000
        &&& 1 <= self.base_attack_rate <= 900_000
    }

    /// A tower with the default loadout: 10 units of range, one attack per
    /// second, `First` targeting, laser attacks.
    pub fn new() -> (r: Self)
        ensures
            r == (Tower {
                range: 10,
                base_attack_rate: 1000,
                attack_rate: 1000,
                attack_timer: AttackTimer { period_ns: 1_000_000_000, elapsed_ns: 0 },
                targeting: TowerTargeting::First,
                attack_type: TowerAttackType::Laser,
                aim_position: Vec3i { x: 0, y: 0, z: 0 },
            }),
            r.wf(),
    {
        Tower {
            range: 10,
            base_attack_rate: 1000,
            attack_rate: 1000,
            attack_timer: AttackTimer { period_ns: 1_000_000_000, elapsed_ns: 0 },
            targeting: TowerTargeting::First,
            attack_type: TowerAttackType::Laser,
            aim_position: Vec3i { x: 0, y: 0, z: 0 },
        }
    }

    /// Rate of fire at the given level, in milli-attacks per second: the
    /// base rate plus a fixed bonus per level.
    pub fn attack_rate(&self, level: u64) -> (r: u64)
        requires
            self.base_attack_rate + level * RATE_BONUS_PER_LEVEL <= u64::MAX,
        ensures
            r == self.base_attack_rate + level * RATE_BONUS_PER_LEVEL,
    {
        self.base_attack_rate + level * RATE_BONUS_PER_LEVEL
    }

    /// Recalculates level-derived stats: the rate of fire, and from it the
    /// cooldown period `1 / rate` (converted to nanoseconds).  Accumulated
    /// cooldown progress is kept.
    pub fn update_stats(&mut self, level: u64)
        requires
            1 <= old(self).base_attack_rate + level * RATE_BONUS_PER_LEVEL <= 1_000_000,
        ensures
            final(self).attack_rate == old(self).base_attack_rate + level * RATE_BONUS_PER_LEVEL,
            final(self).attack_timer.period_ns == 1_000_000_000_000 as int / (
            old(self).base_attack_rate + level * RATE_BONUS_PER_LEVEL),
            final(self).attack_timer.period_ns >= 1,
            final(self).attack_timer.elapsed_ns == old(self).attack_timer.elapsed_ns,
            final(self).range == old(self).range,
            final(self).base_attack_rate == old(self).base_attack_rate,
            final(self).targeting == old(self).targeting,
            final(self).attack_type == old(self).attack_type,
            final(self).aim_position == old(self).aim_position,
            old(self).wf() ==> final(self).wf(),
    {
        let rate = self.attack_rate(level);
        let period: u64 = 1_000_000_000_000 / rate;
        proof {
            lemma_period_positive(rate as int);
        }
        self.attack_rate = rate;
        self.attack_timer = AttackTimer { period_ns: period, elapsed_ns: self.attack_timer.elapsed_ns };
    }

    /// Advances the cooldown by the elapsed time.  When `fire` is set (a
    /// target exists), returns how many full cooldown periods have elapsed —
    /// one attack each — and keeps the remainder; otherwise the timer just
    /// accumulates and nothing fires.
    pub fn tick_cooldown(&mut self, dt_ms: u64, fire: bool) -> (k: u64)
        requires
            old(self).wf(),
            dt_ms <= 1_000_000_000,
        ensures
            ({
                let advanced = if old(self).attack_timer.elapsed_ns + dt_ms * 1_000_000
                    <= u64::MAX {
                    old(self).attack_timer.elapsed_ns + dt_ms * 1_000_000
                } else {
                    u64::MAX as int
                };
                if fire {
                    k == advanced / (old(self).attack_timer.period_ns as int)
                        && final(self).attack_timer.elapsed_ns == advanced % (
                    old(self).attack_timer.period_ns as int)
                } else {
                    k == 0 && final(self).attack_timer.elapsed_ns == advanced
                }
            }),
            final(self).attack_timer.period_ns == old(self).attack_timer.period_ns,
            final(self).range == old(self).range,
            final(self).base_attack_rate == old(self).base_attack_rate,
            final(self).attack_rate == old(self).attack_rate,
            final(self).targeting == old(self).targeting,
            final(self).attack_type == old(self).attack_type,
            final(self).aim_position == old(self).aim_position,
            final(self).wf(),
    {
        let advanced = self.attack_timer.elapsed_ns.saturating_add(dt_ms * 1_000_000);
        if fire {
            let period = self.attack_timer.period_ns;
            let k = advanced / period;
            self.attack_timer = AttackTimer { period_ns: period, elapsed_ns: advanced % period };
            k
        } else {
            self.attack_timer = AttackTimer {
                period_ns: self.attack_timer.period_ns,
                elapsed_ns: advanced,
            };
            0
        }
    }
}

impl Default for Tower {
    /// The same loadout [`Tower::new`] builds.
    fn default() -> (r: Self)
        ensures
            r == (Tower {
                range: 10,
                base_attack_rate: 1000,
                attack_rate: 1000,
                attack_timer: AttackTimer { period_ns: 1_000_000_000, elapsed_ns: 0 },
                targeting: TowerTargeting::First,
                attack_type: TowerAttackType::Laser,
                aim_position: Vec3i { x: 0, y: 0, z: 0 },
            }),
            r.wf(),
    {
        Tower::new()
    }
}

/// Whether an enemy is a valid target for a tower at `tower_pos` with the
/// given range: alive, its position resolvable, and strictly within range.
pub open spec fn is_candidate(tower_pos: Vec3i, range: int, e: Enemy, paths: Seq<Path>) -> bool {
    &&& e.health > 0
    &&& match enemy_position_spec(e, paths) {
        Some(p) => dist2_spec(tower_pos, p) < range * range,
        None => false,
    }
}

/// Whether candidate `a` strictly beats candidate `b` under a policy:
/// longer path progress for `First`, smaller distance for `Closest`.
pub open spec fn better_candidate(
    targeting: TowerTargeting,
    tower_pos: Vec3i,
    a: Enemy,
    b: Enemy,
    paths: Seq<Path>,
) -> bool {
    match targeting {
        TowerTargeting::First => a.path_pos > b.path_pos,
        TowerTargeting::Closest => match (
            enemy_position_spec(a, paths),
            enemy_position_spec(b, paths),
        ) {
            (Some(pa), Some(pb)) => dist2_spec(tower_pos, pa) < dist2_spec(tower_pos, pb),
            _ => false,
        },
    }
}

/// The target a scan of `enemies[..i]` selects: the first candidate that no
/// later candidate strictly beats; -1 when there is no candidate.  Ties
/// keep the earlier enemy — implementation-defined but stable under equal
/// inputs.
pub open spec fn select_target_spec(
    targeting: TowerTargeting,
    tower_pos: Vec3i,
    range: int,
    enemies: Seq<Enemy>,
    paths: Seq<Path>,
    i: int,
) -> int
    decreases i,
{
    if i <= 0 {
        -1
    } else {
        let prev = select_target_spec(targeting, tower_pos, range, enemies, paths, i - 1);
        if !is_candidate(tower_pos, range, enemies[i - 1], paths) {
            prev
        } else if prev < 0 {
            i - 1
        } else if better_candidate(targeting, tower_pos, enemies[i - 1], enemies[prev], paths) {
            i - 1
        } else {
            prev
        }
    }
}

/// `select_target_spec` returns -1 or an index below `i`.
pub proof fn lemma_select_target_spec_range(
    targeting: TowerTargeting,
    tower_pos: Vec3i,
    range: int,
    enemies: Seq<Enemy>,
    paths: Seq<Path>,
    i: int,
)
    ensures
        -1 <= select_target_spec(targeting, tower_pos, range, enemies, paths, i) < i || (i <= 0
            && select_target_spec(targeting, tower_pos, range, enemies, paths, i) == -1),
    decreases i,
{
    if i > 0 {
        lemma_select_target_spec_range(targeting, tower_pos, range, enemies, paths, i - 1);
    }
}

/// Scans the enemies and selects the tower's target under its policy:
/// `Some` of the selected index exactly when any enemy is alive, in range
/// and locatable, and then no candidate strictly beats the selected one.
pub fn select_target(
    targeting: TowerTargeting,
    tower_pos: Vec3i,
    range: u64,
    enemies: &Vec<Enemy>,
    paths: &Vec<Path>,
) -> (r: Option<usize>)
    requires
        tower_pos.in_bounds(),
        range <= 4_000_000_000,
        forall|k: int| 0 <= k < paths@.len() ==> (#[trigger] paths@[k]).wf(),
    ensures
        r is Some <==> select_target_spec(
            targeting,
            tower_pos,
            range as int,
            enemies@,
            paths@,
            enemies@.len() as int,
        ) >= 0,
        r matches Some(j) ==> j == select_target_spec(
            targeting,
            tower_pos,
            range as int,
            enemies@,
            paths@,
            enemies@.len() as int,
        ) && j < enemies@.len() && is_candidate(tower_pos, range as int, enemies@[j as int], paths@)
            && forall|k: int|
            0 <= k < enemies@.len() && is_candidate(tower_pos, range as int, enemies@[k], paths@)
                ==> !better_candidate(
                targeting,
                tower_pos,
                #[trigger] enemies@[k],
                enemies@[j as int],
                paths@,
            ),
        r is None ==> forall|k: int|
            0 <= k < enemies@.len() ==> !is_candidate(
                tower_pos,
                range as int,
                #[trigger] enemies@[k],
                paths@,
            ),
{
    proof {
        assert(range * range <= 16_000_000_000_000_000_000) by (nonlinear_arith)
            requires 0 <= range <= 4_000_000_000u64;
    }
    let range2: u64 = range * range;
    let n = enemies.len();
    let mut best: Option<usize> = None;
    let mut best_d2: u64 = 0;
    let mut i: usize = 0;
    while i < n
        invariant
            0 <= i <= n,
            n == enemies@.len(),
            tower_pos.in_bounds(),
            range <= 4_000_000_000,
            range2 == range * range,
            forall|k: int| 0 <= k < paths@.len() ==> (#[trigger] paths@[k]).wf(),
            best is Some <==> select_target_spec(
                targeting,
                tower_pos,
                range as int,
                enemies@,
                paths@,
                i as int,
            ) >= 0,
            best matches Some(j) ==> j == select_target_spec(
                targeting,
                tower_pos,
                range as int,
                enemies@,
                paths@,
                i as int,
            ) && j < i && is_candidate(tower_pos, range as int, enemies@[j as int], paths@)
                && (match enemy_position_spec(enemies@[j as int], paths@) {
                Some(p) => best_d2 == dist2_spec(tower_pos, p),
                None => false,
            }) && forall|k: int|
                0 <= k < i && is_candidate(tower_pos, range as int, enemies@[k], paths@)
                    ==> !better_candidate(
                    targeting,
                    tower_pos,
                    #[trigger] enemies@[k],
                    enemies@[j as int],
                    paths@,
                ),
            best is None ==> forall|k: int|
                0 <= k < i ==> !is_candidate(
                    tower_pos,
                    range as int,
                    #[trigger] enemies@[k],
                    paths@,
                ),
        decreases n - i,
    {
        let e = enemies[i];
        if e.health > 0 {
            match enemy_position(&e, paths) {
                Some(p) => {
                    let d2 = dist2(tower_pos, p);
                    if d2 < range2 {
                        match best {
                            None => {
                                best = Some(i);
                                best_d2 = d2;
                            },
                            Some(j) => {
                                let take = match targeting {
                                    TowerTargeting::First => e.path_pos
                                        > enemies[j].path_pos,
                                    TowerTargeting::Closest => d2 < best_d2,
                                };
                                if take {
                                    best = Some(i);
                                    best_d2 = d2;
                                }
                            },
                        }
                    }
                },
                None => {},
            }
        }
        i = i + 1;
    }
    best
}

/// One second in nanoseconds divided by an admitted rate leaves at least a
/// millisecond of period.
proof fn lemma_period_positive(rate: int)
    requires
        1 <= rate <= 1_000_000,
    ensures
        1_000_000_000_000int / rate >= 1_000_000,
{
    vstd::arithmetic::div_mod::lemma_div_is_ordered_by_denominator(
        1_000_000_000_000,
        rate,
        1_000_000,
    );
    vstd::arithmetic::div_mod::lemma_div_multiples_vanish(1_000_000, 1_000_000);
    assert(1_000_000int * 1_000_000 == 1_000_000_000_000) by (nonlinear_arith);
}

/// A higher level strictly shortens the cooldown: between any two admitted
/// levels, the larger one's rate of fire yields a strictly smaller stored
/// period, because adjacent rates are at least `RATE_BONUS_PER_LEVEL`
/// apart and the period is kept in nanoseconds.
pub proof fn lemma_higher_level_strictly_faster(base: u64, l1: u64, l2: u64)
    requires
        l1 < l2,
        1 <= base,
        base + l2 * RATE_BONUS_PER_LEVEL <= 1_000_000,
    ensures
        1_000_000_000_000 as int / (base + l2 * RATE_BONUS_PER_LEVEL) < 1_000_000_000_000 as int
            / (base + l1 * RATE_BONUS_PER_LEVEL),
{
    let a = 1_000_000_000_000int;
    let r1 = base + l1 * RATE_BONUS_PER_LEVEL;
    let r2 = base + l2 * RATE_BONUS_PER_LEVEL;
    assert(r2 - r1 >= 100) by (nonlinear_arith)
        requires
            r1 == base + l1 * RATE_BONUS_PER_LEVEL,
            r2 == base + l2 * RATE_BONUS_PER_LEVEL,
            l1 < l2,
    ;
    let q2 = a / r2;
    vstd::arithmetic::div_mod::lemma_fundamental_div_mod(a, r2);
    vstd::arithmetic::div_mod::lemma_mod_bound(a, r2);
    lemma_period_positive(r2);
    assert((q2 + 1) * r1 <= a) by (nonlinear_arith)
        requires
            a == r2 * q2 + a % r2,
            0 <= a % r2,
            r2 - r1 >= 100,
            q2 >= 1_000_000,
            1 <= r1 <= 1_000_000,
    ;
    vstd::arithmetic::div_mod::lemma_div_is_ordered((q2 + 1) * r1, a, r1);
    vstd::arithmetic::div_mod::lemma_div_multiples_vanish(q2 + 1, r1);
    assert((q2 + 1) * r1 == r1 * (q2 + 1)) by (nonlinear_arith);
}

/// The cooldown accumulator after one tick's time (`dt` in milliseconds,
/// the accumulator in nanoseconds) is added, saturating at the top of
/// `u64`.
pub open spec fn cooldown_advanced(t: Tower, dt: int) -> int {
    if t.attack_timer.elapsed_ns + dt * 1_000_000 <= u64::MAX {
        t.attack_timer.elapsed_ns + dt * 1_000_000
    } else {
        u64::MAX as int
    }
}

/// How many full cooldown periods have elapsed once this tick's time is
/// added: one attack is owed per period.
pub open spec fn cooldown_fires(t: Tower, dt: int) -> int {
    cooldown_advanced(t, dt) / (t.attack_timer.period_ns as int)
}

/// An enemy after `f` attacks of `damage` each, clamped at zero health.
pub open spec fn hurt_times_spec(e: Enemy, damage: u32, f: int) -> Enemy {
    Enemy {
        health: if damage * f > e.health {
            0u32
        } else {
            (e.health - damage * f) as u32
        },
        ..e
    }
}

/// How many attacks actually execute out of `k` owed ones: all of them,
/// unless the id counter would run out first (the machine limit of the id
/// space; ids are never reused).
pub open spec fn attacks_executed(k: int, next_id: int) -> int {
    if k <= u64::MAX - next_id {
        k
    } else {
        u64::MAX - next_id
    }
}

/// Executes `k` owed attacks from one tower against one target: a laser
/// tower applies its damage immediately and spawns one beam per attack; a
/// projectile tower spawns one homing projectile per attack instead, its
/// damage deferred to the collision pass.  Every attack emits one
/// experience-gain event attributed to the firing tower, and every spawned
/// entity gets a fresh id.
#[verifier::rlimit(30)]
pub fn execute_attacks(
    k: u64,
    attack_type: TowerAttackType,
    tower_id: u64,
    tower_pos: Vec3i,
    target_idx: usize,
    target_pos: Vec3i,
    enemies: &mut Vec<Enemy>,
    enemy_ids: &Vec<u64>,
    expbus: &mut ExperienceBus,
    lasers: &mut Vec<TowerLaser>,
    laser_locks: &mut Vec<TowerLaserLock>,
    laser_ids: &mut Vec<u64>,
    projectiles: &mut Vec<TowerProjectile>,
    projectile_positions: &mut Vec<Vec3i>,
    projectile_ids: &mut Vec<u64>,
    next_id: &mut u64,
)
    requires
        target_idx < old(enemies)@.len(),
        old(enemies)@.len() == enemy_ids@.len(),
        tower_pos.in_world_bounds(),
        old(lasers)@.len() == old(laser_locks)@.len() == old(laser_ids)@.len(),
        old(projectiles)@.len() == old(projectile_positions)@.len() == old(
            projectile_ids,
        )@.len(),
    ensures
        ({
            let f = attacks_executed(k as int, *old(next_id) as int);
            let new_ids = Seq::new(f as nat, |q: int| (*old(next_id) + q) as u64);
            let gains = Seq::new(f as nat, |q: int| EventExpGain {
                entity: tower_id,
                experience: 1,
            });
            &&& *final(next_id) == *old(next_id) + f
            &&& final(expbus).experience_gain@ == old(expbus).experience_gain@ + gains
            &&& final(expbus).level_up == old(expbus).level_up
            &&& match attack_type {
                TowerAttackType::Laser => {
                    &&& final(enemies)@ == old(enemies)@.update(
                        target_idx as int,
                        hurt_times_spec(old(enemies)@[target_idx as int], ATTACK_DAMAGE, f),
                    )
                    &&& final(lasers)@ == old(lasers)@ + Seq::new(
                        f as nat,
                        |q: int| TowerLaser {
                            start_pos: tower_pos,
                            end_pos: target_pos,
                            expire_timer: LASER_LIFETIME_MS,
                            override_expired: false,
                        },
                    )
                    &&& final(laser_locks)@ == old(laser_locks)@ + Seq::new(
                        f as nat,
                        |q: int| TowerLaserLock {
                            source: tower_id,
                            target: enemy_ids@[target_idx as int],
                        },
                    )
                    &&& final(laser_ids)@ == old(laser_ids)@ + new_ids
                    &&& final(projectiles)@ == old(projectiles)@
                    &&& final(projectile_positions)@ == old(projectile_positions)@
                    &&& final(projectile_ids)@ == old(projectile_ids)@
                },
                TowerAttackType::Projectile => {
                    &&& final(enemies)@ == old(enemies)@
                    &&& final(projectiles)@ == old(projectiles)@ + Seq::new(
                        f as nat,
                        |q: int| TowerProjectile {
                            damage: ATTACK_DAMAGE,
                            speed: PROJECTILE_SPEED,
                            target: enemy_ids@[target_idx as int],
                            last_pos: None::<Vec3i>,
                        },
                    )
                    &&& final(projectile_positions)@ == old(projectile_positions)@ + Seq::new(
                        f as nat,
                        |q: int| milli_spec(tower_pos),
                    )
                    &&& final(projectile_ids)@ == old(projectile_ids)@ + new_ids
                    &&& final(lasers)@ == old(lasers)@
                    &&& final(laser_locks)@ == old(laser_locks)@
                    &&& final(laser_ids)@ == old(laser_ids)@
                },
            }
        }),
        final(enemies)@.len() == old(enemies)@.len(),
        final(lasers)@.len() == final(laser_locks)@.len() == final(laser_ids)@.len(),
        final(projectiles)@.len() == final(projectile_positions)@.len(),
        final(projectile_positions)@.len() == final(projectile_ids)@.len(),
{
    let ghost f = attacks_executed(k as int, *old(next_id) as int);
    let target_id = enemy_ids[target_idx];
    let mut fired: u64 = 0;
    while fired < k && *next_id < u64::MAX
        invariant
            0 <= fired <= k,
            fired <= f,
            f == attacks_executed(k as int, *old(next_id) as int),
            target_idx < enemies@.len(),
            enemies@.len() == old(enemies)@.len() == enemy_ids@.len(),
            target_id == enemy_ids@[target_idx as int],
            tower_pos.in_world_bounds(),
            *next_id == *old(next_id) + fired,
            fired < f ==> *next_id < u64::MAX,
            fired == f ==> (fired == k || *next_id == u64::MAX),
            expbus.experience_gain@ == old(expbus).experience_gain@ + Seq::new(
                fired as nat,
                |q: int| EventExpGain { entity: tower_id, experience: 1 },
            ),
            expbus.level_up == old(expbus).level_up,
            match attack_type {
                TowerAttackType::Laser => {
                    &&& enemies@ == old(enemies)@.update(
                        target_idx as int,
                        hurt_times_spec(
                            old(enemies)@[target_idx as int],
                            ATTACK_DAMAGE,
                            fired as int,
                        ),
                    )
                    &&& lasers@ == old(lasers)@ + Seq::new(
                        fired as nat,
                        |q: int| TowerLaser {
                            start_pos: tower_pos,
                            end_pos: target_pos,
                            expire_timer: LASER_LIFETIME_MS,
                            override_expired: false,
                        },
                    )
                    &&& laser_locks@ == old(laser_locks)@ + Seq::new(
                        fired as nat,
                        |q: int| TowerLaserLock { source: tower_id, target: target_id },
                    )
                    &&& laser_ids@ == old(laser_ids)@ + Seq::new(
                        fired as nat,
                        |q: int| (*old(next_id) + q) as u64,
                    )
                    &&& projectiles@ == old(projectiles)@
                    &&& projectile_positions@ == old(projectile_positions)@
                    &&& projectile_ids@ == old(projectile_ids)@
                },
                TowerAttackType::Projectile => {
                    &&& enemies@ == old(enemies)@
                    &&& projectiles@ == old(projectiles)@ + Seq::new(
                        fired as nat,
                        |q: int| TowerProjectile {
                            damage: ATTACK_DAMAGE,
                            speed: PROJECTILE_SPEED,
                            target: target_id,
                            last_pos: None::<Vec3i>,
                        },
                    )
                    &&& projectile_positions@ == old(projectile_positions)@ + Seq::new(
                        fired as nat,
                        |q: int| milli_spec(tower_pos),
                    )
                    &&& projectile_ids@ == old(projectile_ids)@ + Seq::new(
                        fired as nat,
                        |q: int| (*old(next_id) + q) as u64,
                    )
                    &&& lasers@ == old(lasers)@
                    &&& laser_locks@ == old(laser_locks)@
                    &&& laser_ids@ == old(laser_ids)@
                },
            },
        decreases k - fired,
    {
        let id = *next_id;
        *next_id = *next_id + 1;
        match attack_type {
            TowerAttackType::Laser => {
                let mut e = enemies[target_idx];
                let ghost pre = e;
                e.hurt(ATTACK_DAMAGE);
                enemies[target_idx] = e;
                lasers.push(TowerLaser {
                    start_pos: tower_pos,
                    end_pos: target_pos,
                    expire_timer: LASER_LIFETIME_MS,
                    override_expired: false,
                });
                laser_locks.push(TowerLaserLock { source: tower_id, target: target_id });
                laser_ids.push(id);
                proof {
                    assert(enemies@ =~= old(enemies)@.update(
                        target_idx as int,
                        hurt_times_spec(
                            old(enemies)@[target_idx as int],
                            ATTACK_DAMAGE,
                            fired + 1,
                        ),
                    ));
                    assert(lasers@ =~= old(lasers)@ + Seq::new(
                        (fired + 1) as nat,
                        |q: int| TowerLaser {
                            start_pos: tower_pos,
                            end_pos: target_pos,
                            expire_timer: LASER_LIFETIME_MS,
                            override_expired: false,
                        },
                    ));
                    assert(laser_locks@ =~= old(laser_locks)@ + Seq::new(
                        (fired + 1) as nat,
                        |q: int| TowerLaserLock { source: tower_id, target: target_id },
                    ));
                    assert(laser_ids@ =~= old(laser_ids)@ + Seq::new(
                        (fired + 1) as nat,
                        |q: int| (*old(next_id) + q) as u64,
                    ));
                }
            },
            TowerAttackType::Projectile => {
                projectiles.push(TowerProjectile {
                    damage: ATTACK_DAMAGE,
                    speed: PROJECTILE_SPEED,
                    target: target_id,
                    last_pos: None,
                });
                projectile_positions.push(to_milli(tower_pos));
                projectile_ids.push(id);
                proof {
                    assert(projectiles@ =~= old(projectiles)@ + Seq::new(
                        (fired + 1) as nat,
                        |q: int| TowerProjectile {
                            damage: ATTACK_DAMAGE,
                            speed: PROJECTILE_SPEED,
                            target: target_id,
                            last_pos: None::<Vec3i>,
                        },
                    ));
                    assert(projectile_positions@ =~= old(projectile_positions)@ + Seq::new(
                        (fired + 1) as nat,
                        |q: int| milli_spec(tower_pos),
                    ));
                    assert(projectile_ids@ =~= old(projectile_ids)@ + Seq::new(
                        (fired + 1) as nat,
                        |q: int| (*old(next_id) + q) as u64,
                    ));
                }
            },
        }
        expbus.send_experience_gain(EventExpGain { entity: tower_id, experience: 1 });
        proof {
            assert(expbus.experience_gain@ =~= old(expbus).experience_gain@ + Seq::new(
                (fired + 1) as nat,
                |q: int| EventExpGain { entity: tower_id, experience: 1 },
            ));
        }
        fired = fired + 1;
    }
    proof {
        assert(fired == f);
    }
}

/// Runs one tower for one tick: scans the enemies, selects a target under
/// the tower's policy, points the aim controller at the target's current
/// position (not a predicted one), advances the cooldown — which always
/// accumulates, but only fires while a target exists — and executes one
/// attack per elapsed cooldown period.
#[verifier::rlimit(30)]
pub fn operate_one_tower(
    dt_ms: u64,
    tower: &mut Tower,
    tower_id: u64,
    tower_pos: Vec3i,
    controller: &mut crate::pid_controller::PidControlled<PID_CONTROL_LOOK_AT>,
    enemies: &mut Vec<Enemy>,
    enemy_ids: &Vec<u64>,
    paths: &Vec<Path>,
    expbus: &mut ExperienceBus,
    lasers: &mut Vec<TowerLaser>,
    laser_locks: &mut Vec<TowerLaserLock>,
    laser_ids: &mut Vec<u64>,
    projectiles: &mut Vec<TowerProjectile>,
    projectile_positions: &mut Vec<Vec3i>,
    projectile_ids: &mut Vec<u64>,
    next_id: &mut u64,
)
    requires
        old(tower).wf(),
        tower_pos.in_world_bounds(),
        1 <= dt_ms <= 1_000_000_000,
        old(enemies)@.len() == enemy_ids@.len(),
        forall|k: int| 0 <= k < paths@.len() ==> (#[trigger] paths@[k]).wf(),
        forall|k: int| 0 <= k < paths@.len() ==> crate::track::path_world_bounded(
            #[trigger] paths@[k],
        ),
        old(lasers)@.len() == old(laser_locks)@.len() == old(laser_ids)@.len(),
        old(projectiles)@.len() == old(projectile_positions)@.len() == old(
            projectile_ids,
        )@.len(),
    ensures
        final(tower).range == old(tower).range,
        final(tower).base_attack_rate == old(tower).base_attack_rate,
        final(tower).attack_rate == old(tower).attack_rate,
        final(tower).targeting == old(tower).targeting,
        final(tower).attack_type == old(tower).attack_type,
        final(tower).aim_position == old(tower).aim_position,
        final(tower).attack_timer.period_ns == old(tower).attack_timer.period_ns,
        final(tower).wf(),
        final(enemies)@.len() == old(enemies)@.len(),
        ({
            let sel = select_target_spec(
                old(tower).targeting,
                tower_pos,
                old(tower).range as int,
                old(enemies)@,
                paths@,
                old(enemies)@.len() as int,
            );
            if sel < 0 {
                &&& final(tower).attack_timer.elapsed_ns == cooldown_advanced(
                    *old(tower),
                    dt_ms as int,
                )
                &&& final(enemies)@ == old(enemies)@
                &&& *final(controller) == *old(controller)
                &&& final(expbus).experience_gain@ == old(expbus).experience_gain@
                &&& final(expbus).level_up == old(expbus).level_up
                &&& final(lasers)@ == old(lasers)@
                &&& final(laser_locks)@ == old(laser_locks)@
                &&& final(laser_ids)@ == old(laser_ids)@
                &&& final(projectiles)@ == old(projectiles)@
                &&& final(projectile_positions)@ == old(projectile_positions)@
                &&& final(projectile_ids)@ == old(projectile_ids)@
                &&& *final(next_id) == *old(next_id)
            } else {
                let p = (match enemy_position_spec(old(enemies)@[sel], paths@) {
                    Some(q) => q,
                    None => Vec3i { x: 0, y: 0, z: 0 },
                });
                let k = cooldown_fires(*old(tower), dt_ms as int);
                let f = attacks_executed(k, *old(next_id) as int);
                let new_ids = Seq::new(f as nat, |q: int| (*old(next_id) + q) as u64);
                &&& final(tower).attack_timer.elapsed_ns == cooldown_advanced(
                    *old(tower),
                    dt_ms as int,
                ) % (old(tower).attack_timer.period_ns as int)
                &&& *final(controller) == (crate::pid_controller::PidControlled {
                    target: milli_spec(p),
                    ..*old(controller)
                })
                &&& *final(next_id) == *old(next_id) + f
                &&& final(expbus).experience_gain@ == old(expbus).experience_gain@ + Seq::new(
                    f as nat,
                    |q: int| EventExpGain { entity: tower_id, experience: 1 },
                )
                &&& final(expbus).level_up == old(expbus).level_up
                &&& match old(tower).attack_type {
                    TowerAttackType::Laser => {
                        &&& final(enemies)@ == old(enemies)@.update(
                            sel,
                            hurt_times_spec(old(enemies)@[sel], ATTACK_DAMAGE, f),
                        )
                        &&& final(lasers)@ == old(lasers)@ + Seq::new(
                            f as nat,
                            |q: int| TowerLaser {
                                start_pos: tower_pos,
                                end_pos: p,
                                expire_timer: LASER_LIFETIME_MS,
                                override_expired: false,
                            },
                        )
                        &&& final(laser_locks)@ == old(laser_locks)@ + Seq::new(
                            f as nat,
                            |q: int| TowerLaserLock {
                                source: tower_id,
                                target: enemy_ids@[sel],
                            },
                        )
                        &&& final(laser_ids)@ == old(laser_ids)@ + new_ids
                        &&& final(projectiles)@ == old(projectiles)@
                        &&& final(projectile_positions)@ == old(projectile_positions)@
                        &&& final(projectile_ids)@ == old(projectile_ids)@
                    },
                    TowerAttackType::Projectile => {
                        &&& final(enemies)@ == old(enemies)@
                        &&& final(projectiles)@ == old(projectiles)@ + Seq::new(
                            f as nat,
                            |q: int| TowerProjectile {
                                damage: ATTACK_DAMAGE,
                                speed: PROJECTILE_SPEED,
                                target: enemy_ids@[sel],
                                last_pos: None::<Vec3i>,
                            },
                        )
                        &&& final(projectile_positions)@ == old(projectile_positions)@
                            + Seq::new(f as nat, |q: int| milli_spec(tower_pos))
                        &&& final(projectile_ids)@ == old(projectile_ids)@ + new_ids
                        &&& final(lasers)@ == old(lasers)@
                        &&& final(laser_locks)@ == old(laser_locks)@
                        &&& final(laser_ids)@ == old(laser_ids)@
                    },
                }
            }
        }),
        final(lasers)@.len() == final(laser_locks)@.len() == final(laser_ids)@.len(),
        final(projectiles)@.len() == final(projectile_positions)@.len(),
        final(projectile_positions)@.len() == final(projectile_ids)@.len(),
{
    match select_target(tower.targeting, tower_pos, tower.range, enemies, paths) {
        None => {
            tower.tick_cooldown(dt_ms, false);
        },
        Some(j) => {
            let target_pos = match enemy_position(&enemies[j], paths) {
                Some(p) => p,
                None => {
                    proof {
                        assert(false);
                    }
                    Vec3i { x: 0, y: 0, z: 0 }
                },
            };
            controller.set_target(to_milli(target_pos));
            let k = tower.tick_cooldown(dt_ms, true);
            execute_attacks(
                k,
                tower.attack_type,
                tower_id,
                tower_pos,
                j,
                target_pos,
                enemies,
                enemy_ids,
                expbus,
                lasers,
                laser_locks,
                laser_ids,
                projectiles,
                projectile_positions,
                projectile_ids,
                next_id,
            );
        },
    }
}

/// Spec-level snapshot of everything the tower pass reads and writes: the
/// towers and their aim controllers, the enemies, the spawn columns, the
/// experience-gain queue and the id counter.
pub struct TowerPassState {
    pub towers: Seq<Tower>,
    pub controllers: Seq<crate::pid_controller::PidControlled<PID_CONTROL_LOOK_AT>>,
    pub enemies: Seq<Enemy>,
    pub lasers: Seq<TowerLaser>,
    pub laser_locks: Seq<TowerLaserLock>,
    pub laser_ids: Seq<u64>,
    pub projectiles: Seq<TowerProjectile>,
    pub projectile_positions: Seq<Vec3i>,
    pub projectile_ids: Seq<u64>,
    pub exp_gains: Seq<EventExpGain>,
    pub next_id: int,
}

/// What running tower `i` does to the pass state: with no candidate the
/// cooldown just accumulates; with one, the aim controller is retargeted to
/// the candidate's current position, the cooldown fires once per elapsed
/// period, and each attack deals its damage (laser) or spawns a projectile,
/// emits one experience-gain event, and takes a fresh id per spawned
/// entity.
pub open spec fn tower_step_spec(
    s: TowerPassState,
    i: int,
    tower_ids: Seq<u64>,
    tower_positions: Seq<Vec3i>,
    enemy_ids: Seq<u64>,
    paths: Seq<Path>,
    dt: int,
) -> TowerPassState {
    let t = s.towers[i];
    let tower_id = tower_ids[i];
    let tower_pos = tower_positions[i];
    let sel = select_target_spec(
        t.targeting,
        tower_pos,
        t.range as int,
        s.enemies,
        paths,
        s.enemies.len() as int,
    );
    if sel < 0 {
        TowerPassState {
            towers: s.towers.update(
                i,
                Tower {
                    attack_timer: AttackTimer {
                        period_ns: t.attack_timer.period_ns,
                        elapsed_ns: cooldown_advanced(t, dt) as u64,
                    },
                    ..t
                },
            ),
            ..s
        }
    } else {
        let p = (match enemy_position_spec(s.enemies[sel], paths) {
            Some(q) => q,
            None => Vec3i { x: 0, y: 0, z: 0 },
        });
        let f = attacks_executed(cooldown_fires(t, dt), s.next_id);
        let new_ids = Seq::new(f as nat, |q: int| (s.next_id + q) as u64);
        let towers2 = s.towers.update(
            i,
            Tower {
                attack_timer: AttackTimer {
                    period_ns: t.attack_timer.period_ns,
                    elapsed_ns: (cooldown_advanced(t, dt) % (
                    t.attack_timer.period_ns as int)) as u64,
                },
                ..t
            },
        );
        let controllers2 = s.controllers.update(
            i,
            crate::pid_controller::PidControlled { target: milli_spec(p), ..s.controllers[i] },
        );
        let gains2 = s.exp_gains + Seq::new(
            f as nat,
            |q: int| EventExpGain { entity: tower_id, experience: 1 },
        );
        match t.attack_type {
            TowerAttackType::Laser => TowerPassState {
                towers: towers2,
                controllers: controllers2,
                enemies: s.enemies.update(sel, hurt_times_spec(s.enemies[sel], ATTACK_DAMAGE, f)),
                lasers: s.lasers + Seq::new(
                    f as nat,
                    |q: int| TowerLaser {
                        start_pos: tower_pos,
                        end_pos: p,
                        expire_timer: LASER_LIFETIME_MS,
                        override_expired: false,
                    },
                ),
                laser_locks: s.laser_locks + Seq::new(
                    f as nat,
                    |q: int| TowerLaserLock { source: tower_id, target: enemy_ids[sel] },
                ),
                laser_ids: s.laser_ids + new_ids,
                exp_gains: gains2,
                next_id: s.next_id + f,
                ..s
            },
            TowerAttackType::Projectile => TowerPassState {
                towers: towers2,
                controllers: controllers2,
                projectiles: s.projectiles + Seq::new(
                    f as nat,
                    |q: int| TowerProjectile {
                        damage: ATTACK_DAMAGE,
                        speed: PROJECTILE_SPEED,
                        target: enemy_ids[sel],
                        last_pos: None::<Vec3i>,
                    },
                ),
                projectile_positions: s.projectile_positions + Seq::new(
                    f as nat,
                    |q: int| milli_spec(tower_pos),
                ),
                projectile_ids: s.projectile_ids + new_ids,
                exp_gains: gains2,
                next_id: s.next_id + f,
                ..s
            },
        }
    }
}

/// The pass state after towers `0..i` have each run in index order, every
/// tower scanning the enemy state its predecessors left behind.
pub open spec fn operate_towers_spec(
    s: TowerPassState,
    i: int,
    tower_ids: Seq<u64>,
    tower_positions: Seq<Vec3i>,
    enemy_ids: Seq<u64>,
    paths: Seq<Path>,
    dt: int,
) -> TowerPassState
    decreases i,
{
    if i <= 0 {
        s
    } else {
        tower_step_spec(
            operate_towers_spec(s, i - 1, tower_ids, tower_positions, enemy_ids, paths, dt),
            i - 1,
            tower_ids,
            tower_positions,
            enemy_ids,
            paths,
            dt,
        )
    }
}

/// Runs every tower for one tick, in order: the final state is exactly
/// [`operate_towers_spec`], the left fold of [`tower_step_spec`] over the
/// towers, so each tower scans the current enemy state — damage a tower
/// deals is visible to the towers after it — selects a target, aims, and
/// fires per its cooldown.  Only enemy healths change, and only downward;
/// spawned beams, projectiles and experience events are appended, never
/// reordered; every other tower and controller field is untouched.
#[verifier::rlimit(60)]
pub fn operate_towers(
    dt_ms: u64,
    expbus: &mut ExperienceBus,
    towers: &mut Vec<Tower>,
    tower_ids: &Vec<u64>,
    tower_positions: &Vec<Vec3i>,
    tower_controllers: &mut Vec<crate::pid_controller::PidControlled<PID_CONTROL_LOOK_AT>>,
    enemies: &mut Vec<Enemy>,
    enemy_ids: &Vec<u64>,
    paths: &Vec<Path>,
    lasers: &mut Vec<TowerLaser>,
    laser_locks: &mut Vec<TowerLaserLock>,
    laser_ids: &mut Vec<u64>,
    projectiles: &mut Vec<TowerProjectile>,
    projectile_positions: &mut Vec<Vec3i>,
    projectile_ids: &mut Vec<u64>,
    next_id: &mut u64,
)
    requires
        1 <= dt_ms <= 1_000_000_000,
        old(towers)@.len() == tower_ids@.len() == tower_positions@.len(),
        old(towers)@.len() == old(tower_controllers)@.len(),
        forall|i: int| 0 <= i < old(towers)@.len() ==> (#[trigger] old(towers)@[i]).wf(),
        forall|i: int|
            0 <= i < tower_positions@.len() ==> (#[trigger] tower_positions@[i]).in_world_bounds(),
        old(enemies)@.len() == enemy_ids@.len(),
        forall|k: int| 0 <= k < paths@.len() ==> (#[trigger] paths@[k]).wf(),
        forall|k: int| 0 <= k < paths@.len() ==> crate::track::path_world_bounded(
            #[trigger] paths@[k],
        ),
        old(lasers)@.len() == old(laser_locks)@.len() == old(laser_ids)@.len(),
        old(projectiles)@.len() == old(projectile_positions)@.len() == old(
            projectile_ids,
        )@.len(),
        forall|k: int| 0 <= k < old(projectiles)@.len() ==> (#[trigger] old(
            projectiles,
        )@[k]).wf(),
        forall|k: int|
            0 <= k < old(projectile_positions)@.len() ==> (#[trigger] old(
                projectile_positions,
            )@[k]).in_bounds(),
    ensures
        forall|k: int|
            0 <= k < final(projectiles)@.len() ==> (#[trigger] final(projectiles)@[k]).wf(),
        forall|k: int|
            0 <= k < final(projectile_positions)@.len()
                ==> (#[trigger] final(projectile_positions)@[k]).in_bounds(),
        final(towers)@.len() == old(towers)@.len(),
        forall|i: int|
            0 <= i < old(towers)@.len() ==> {
                let t = #[trigger] final(towers)@[i];
                t.range == old(towers)@[i].range && t.base_attack_rate == old(
                    towers,
                )@[i].base_attack_rate && t.attack_rate == old(towers)@[i].attack_rate
                    && t.targeting == old(towers)@[i].targeting && t.attack_type == old(
                    towers,
                )@[i].attack_type && t.aim_position == old(towers)@[i].aim_position
                    && t.attack_timer.period_ns == old(towers)@[i].attack_timer.period_ns
                    && t.wf()
            },
        final(tower_controllers)@.len() == old(tower_controllers)@.len(),
        forall|i: int|
            0 <= i < old(tower_controllers)@.len() ==> {
                let c = #[trigger] final(tower_controllers)@[i];
                let c0 = old(tower_controllers)@[i];
                c.proportional_gain == c0.proportional_gain && c.integral_gain == c0.integral_gain
                    && c.derivative_gain == c0.derivative_gain && c.integration == c0.integration
                    && c.error_prev == c0.error_prev && c.value_prev == c0.value_prev
                    && c.derivative_initialized == c0.derivative_initialized
            },
        final(enemies)@.len() == old(enemies)@.len(),
        forall|k: int|
            0 <= k < old(enemies)@.len() ==> {
                let e = #[trigger] final(enemies)@[k];
                let e0 = old(enemies)@[k];
                e.health <= e0.health && e.max_health == e0.max_health && e.path_id == e0.path_id
                    && e.path_pos == e0.path_pos && e.speed == e0.speed
            },
        final(lasers)@.len() >= old(lasers)@.len(),
        final(lasers)@.take(old(lasers)@.len() as int) == old(lasers)@,
        final(laser_locks)@.take(old(laser_locks)@.len() as int) == old(laser_locks)@,
        final(laser_ids)@.take(old(laser_ids)@.len() as int) == old(laser_ids)@,
        final(lasers)@.len() == final(laser_locks)@.len() == final(laser_ids)@.len(),
        final(projectiles)@.take(old(projectiles)@.len() as int) == old(projectiles)@,
        final(projectile_positions)@.take(old(projectile_positions)@.len() as int) == old(
            projectile_positions,
        )@,
        final(projectile_ids)@.take(old(projectile_ids)@.len() as int) == old(projectile_ids)@,
        final(projectiles)@.len() == final(projectile_positions)@.len(),
        final(projectile_positions)@.len() == final(projectile_ids)@.len(),
        final(expbus).experience_gain@.take(old(expbus).experience_gain@.len() as int) == old(
            expbus,
        ).experience_gain@,
        final(expbus).experience_gain@.len() >= old(expbus).experience_gain@.len(),
        final(expbus).level_up == old(expbus).level_up,
        *final(next_id) >= *old(next_id),
        ({
            let s1 = operate_towers_spec(
                TowerPassState {
                    towers: old(towers)@,
                    controllers: old(tower_controllers)@,
                    enemies: old(enemies)@,
                    lasers: old(lasers)@,
                    laser_locks: old(laser_locks)@,
                    laser_ids: old(laser_ids)@,
                    projectiles: old(projectiles)@,
                    projectile_positions: old(projectile_positions)@,
                    projectile_ids: old(projectile_ids)@,
                    exp_gains: old(expbus).experience_gain@,
                    next_id: *old(next_id) as int,
                },
                old(towers)@.len() as int,
                tower_ids@,
                tower_positions@,
                enemy_ids@,
                paths@,
                dt_ms as int,
            );
            &&& final(towers)@ == s1.towers
            &&& final(tower_controllers)@ == s1.controllers
            &&& final(enemies)@ == s1.enemies
            &&& final(lasers)@ == s1.lasers
            &&& final(laser_locks)@ == s1.laser_locks
            &&& final(laser_ids)@ == s1.laser_ids
            &&& final(projectiles)@ == s1.projectiles
            &&& final(projectile_positions)@ == s1.projectile_positions
            &&& final(projectile_ids)@ == s1.projectile_ids
            &&& final(expbus).experience_gain@ == s1.exp_gains
            &&& *final(next_id) == s1.next_id
        }),
{
    let n = towers.len();
    let mut i: usize = 0;
    proof {
        assert(lasers@.take(old(lasers)@.len() as int) =~= old(lasers)@);
        assert(laser_locks@.take(old(laser_locks)@.len() as int) =~= old(laser_locks)@);
        assert(laser_ids@.take(old(laser_ids)@.len() as int) =~= old(laser_ids)@);
        assert(projectiles@.take(old(projectiles)@.len() as int) =~= old(projectiles)@);
        assert(projectile_positions@.take(old(projectile_positions)@.len() as int) =~= old(
            projectile_positions,
        )@);
        assert(projectile_ids@.take(old(projectile_ids)@.len() as int) =~= old(projectile_ids)@);
        assert(expbus.experience_gain@.take(old(expbus).experience_gain@.len() as int) =~= old(
            expbus,
        ).experience_gain@);
    }
    while i < n
        invariant
            0 <= i <= n,
            1 <= dt_ms <= 1_000_000_000,
            n == towers@.len() == old(towers)@.len(),
            n == tower_ids@.len() == tower_positions@.len(),
            n == tower_controllers@.len() == old(tower_controllers)@.len(),
            forall|j: int|
                0 <= j < tower_positions@.len() ==> (
                #[trigger] tower_positions@[j]).in_world_bounds(),
            enemies@.len() == old(enemies)@.len() == enemy_ids@.len(),
            forall|k: int| 0 <= k < paths@.len() ==> (#[trigger] paths@[k]).wf(),
            forall|k: int| 0 <= k < paths@.len() ==> crate::track::path_world_bounded(
                #[trigger] paths@[k],
            ),
            forall|j: int| i <= j < n ==> #[trigger] towers@[j] == old(towers)@[j],
            forall|j: int| 0 <= j < n ==> (#[trigger] towers@[j]).wf(),
            forall|j: int|
                0 <= j < n ==> {
                    let t = #[trigger] towers@[j];
                    t.range == old(towers)@[j].range && t.base_attack_rate == old(
                        towers,
                    )@[j].base_attack_rate && t.attack_rate == old(towers)@[j].attack_rate
                        && t.targeting == old(towers)@[j].targeting && t.attack_type == old(
                        towers,
                    )@[j].attack_type && t.aim_position == old(towers)@[j].aim_position
                        && t.attack_timer.period_ns == old(towers)@[j].attack_timer.period_ns
                },
            forall|j: int|
                0 <= j < n ==> {
                    let c = #[trigger] tower_controllers@[j];
                    let c0 = old(tower_controllers)@[j];
                    c.proportional_gain == c0.proportional_gain && c.integral_gain
                        == c0.integral_gain && c.derivative_gain == c0.derivative_gain
                        && c.integration == c0.integration && c.error_prev == c0.error_prev
                        && c.value_prev == c0.value_prev && c.derivative_initialized
                        == c0.derivative_initialized
                },
            forall|k: int|
                0 <= k < old(enemies)@.len() ==> {
                    let e = #[trigger] enemies@[k];
                    let e0 = old(enemies)@[k];
                    e.health <= e0.health && e.max_health == e0.max_health && e.path_id
                        == e0.path_id && e.path_pos == e0.path_pos && e.speed == e0.speed
                },
            old(lasers)@.len() == old(laser_locks)@.len() == old(laser_ids)@.len(),
            old(projectiles)@.len() == old(projectile_positions)@.len() == old(
                projectile_ids,
            )@.len(),
            lasers@.len() >= old(lasers)@.len(),
            lasers@.take(old(lasers)@.len() as int) == old(lasers)@,
            laser_locks@.take(old(laser_locks)@.len() as int) == old(laser_locks)@,
            laser_ids@.take(old(laser_ids)@.len() as int) == old(laser_ids)@,
            lasers@.len() == laser_locks@.len() == laser_ids@.len(),
            projectiles@.len() >= old(projectiles)@.len(),
            projectiles@.take(old(projectiles)@.len() as int) == old(projectiles)@,
            forall|k: int| 0 <= k < projectiles@.len() ==> (#[trigger] projectiles@[k]).wf(),
            forall|k: int|
                0 <= k < projectile_positions@.len() ==> (
                #[trigger] projectile_positions@[k]).in_bounds(),
            projectile_positions@.take(old(projectile_positions)@.len() as int) == old(
                projectile_positions,
            )@,
            projectile_ids@.take(old(projectile_ids)@.len() as int) == old(projectile_ids)@,
            projectiles@.len() == projectile_positions@.len() == projectile_ids@.len(),
            expbus.experience_gain@.take(old(expbus).experience_gain@.len() as int) == old(
                expbus,
            ).experience_gain@,
            expbus.experience_gain@.len() >= old(expbus).experience_gain@.len(),
            expbus.level_up == old(expbus).level_up,
            *next_id >= *old(next_id),
            ({
                let si = operate_towers_spec(
                    TowerPassState {
                        towers: old(towers)@,
                        controllers: old(tower_controllers)@,
                        enemies: old(enemies)@,
                        lasers: old(lasers)@,
                        laser_locks: old(laser_locks)@,
                        laser_ids: old(laser_ids)@,
                        projectiles: old(projectiles)@,
                        projectile_positions: old(projectile_positions)@,
                        projectile_ids: old(projectile_ids)@,
                        exp_gains: old(expbus).experience_gain@,
                        next_id: *old(next_id) as int,
                    },
                    i as int,
                    tower_ids@,
                    tower_positions@,
                    enemy_ids@,
                    paths@,
                    dt_ms as int,
                );
                &&& towers@ == si.towers
                &&& tower_controllers@ == si.controllers
                &&& enemies@ == si.enemies
                &&& lasers@ == si.lasers
                &&& laser_locks@ == si.laser_locks
                &&& laser_ids@ == si.laser_ids
                &&& projectiles@ == si.projectiles
                &&& projectile_positions@ == si.projectile_positions
                &&& projectile_ids@ == si.projectile_ids
                &&& expbus.experience_gain@ == si.exp_gains
                &&& *next_id == si.next_id
            }),
        decreases n - i,
    {
        let ghost pre_towers_s = towers@;
        let ghost pre_controllers_s = tower_controllers@;
        let ghost pre_lasers = lasers@;
        let ghost pre_locks = laser_locks@;
        let ghost pre_lids = laser_ids@;
        let ghost pre_projs = projectiles@;
        let ghost pre_ppos = projectile_positions@;
        let ghost pre_pids = projectile_ids@;
        let ghost pre_gain = expbus.experience_gain@;
        let ghost pre_enemies = enemies@;
        let ghost pre_tower = towers@[i as int];
        let ghost pre_next = *next_id;
        let mut t = towers[i];
        let mut c = tower_controllers[i];
        operate_one_tower(
            dt_ms,
            &mut t,
            tower_ids[i],
            tower_positions[i],
            &mut c,
            enemies,
            enemy_ids,
            paths,
            expbus,
            lasers,
            laser_locks,
            laser_ids,
            projectiles,
            projectile_positions,
            projectile_ids,
            next_id,
        );
        towers[i] = t;
        tower_controllers[i] = c;
        proof {
            vstd::arithmetic::div_mod::lemma_div_pos_is_pos(
                cooldown_advanced(pre_tower, dt_ms as int),
                pre_tower.attack_timer.period_ns as int,
            );
            let fex = attacks_executed(
                cooldown_fires(pre_tower, dt_ms as int),
                pre_next as int,
            );
            assert(fex >= 0);
            assert(ATTACK_DAMAGE * fex >= 0) by (nonlinear_arith)
                requires fex >= 0;
            lemma_select_target_spec_range(
                pre_tower.targeting,
                tower_positions@[i as int],
                pre_tower.range as int,
                pre_enemies,
                paths@,
                pre_enemies.len() as int,
            );
            assert(lasers@.take(old(lasers)@.len() as int) =~= pre_lasers.take(
                old(lasers)@.len() as int,
            ));
            assert(laser_locks@.take(old(laser_locks)@.len() as int) =~= pre_locks.take(
                old(laser_locks)@.len() as int,
            ));
            assert(laser_ids@.take(old(laser_ids)@.len() as int) =~= pre_lids.take(
                old(laser_ids)@.len() as int,
            ));
            assert(projectiles@.take(old(projectiles)@.len() as int) =~= pre_projs.take(
                old(projectiles)@.len() as int,
            ));
            assert(projectile_positions@.take(old(projectile_positions)@.len() as int)
                =~= pre_ppos.take(old(projectile_positions)@.len() as int));
            assert(projectile_ids@.take(old(projectile_ids)@.len() as int) =~= pre_pids.take(
                old(projectile_ids)@.len() as int,
            ));
            assert(expbus.experience_gain@.take(old(expbus).experience_gain@.len() as int)
                =~= pre_gain.take(old(expbus).experience_gain@.len() as int));
            let s0 = TowerPassState {
                towers: old(towers)@,
                controllers: old(tower_controllers)@,
                enemies: old(enemies)@,
                lasers: old(lasers)@,
                laser_locks: old(laser_locks)@,
                laser_ids: old(laser_ids)@,
                projectiles: old(projectiles)@,
                projectile_positions: old(projectile_positions)@,
                projectile_ids: old(projectile_ids)@,
                exp_gains: old(expbus).experience_gain@,
                next_id: *old(next_id) as int,
            };
            let s_prev = operate_towers_spec(
                s0,
                i as int,
                tower_ids@,
                tower_positions@,
                enemy_ids@,
                paths@,
                dt_ms as int,
            );
            let s_next = operate_towers_spec(
                s0,
                i + 1,
                tower_ids@,
                tower_positions@,
                enemy_ids@,
                paths@,
                dt_ms as int,
            );
            assert(s_next == tower_step_spec(
                s_prev,
                i as int,
                tower_ids@,
                tower_positions@,
                enemy_ids@,
                paths@,
                dt_ms as int,
            ));
            let sel = select_target_spec(
                pre_tower.targeting,
                tower_positions@[i as int],
                pre_tower.range as int,
                pre_enemies,
                paths@,
                pre_enemies.len() as int,
            );
            if sel < 0 {
                assert(t == (Tower {
                    attack_timer: AttackTimer {
                        period_ns: pre_tower.attack_timer.period_ns,
                        elapsed_ns: cooldown_advanced(pre_tower, dt_ms as int) as u64,
                    },
                    ..pre_tower
                }));
                assert(towers@ =~= s_next.towers);
                assert(tower_controllers@ =~= s_next.controllers);
            } else {
                assert(t == (Tower {
                    attack_timer: AttackTimer {
                        period_ns: pre_tower.attack_timer.period_ns,
                        elapsed_ns: (cooldown_advanced(pre_tower, dt_ms as int) % (
                        pre_tower.attack_timer.period_ns as int)) as u64,
                    },
                    ..pre_tower
                }));
                assert(towers@ =~= s_next.towers);
                assert(tower_controllers@ =~= s_next.controllers);
                assert(expbus.experience_gain@ =~= s_next.exp_gains);
                match pre_tower.attack_type {
                    TowerAttackType::Laser => {
                        assert(lasers@ =~= s_next.lasers);
                        assert(laser_locks@ =~= s_next.laser_locks);
                        assert(laser_ids@ =~= s_next.laser_ids);
                    },
                    TowerAttackType::Projectile => {
                        assert(projectiles@ =~= s_next.projectiles);
                        assert(projectile_positions@ =~= s_next.projectile_positions);
                        assert(projectile_ids@ =~= s_next.projectile_ids);
                    },
                }
            }
        }
        i = i + 1;
    }
}

/// Whether one smooth-aim step fits the fixed-width representation: the
/// controller step itself, and each axis of the new aim point.
pub open spec fn aim_step_fits(
    t: Tower,
    c: crate::pid_controller::PidControlled<PID_CONTROL_LOOK_AT>,
    dt: int,
) -> bool {
    &&& crate::pid_controller::compute_fits(c, dt, t.aim_position)
    &&& i64::MIN <= t.aim_position.x + crate::pid_controller::output_axis(
        c.proportional_gain as int,
        c.integral_gain as int,
        c.derivative_gain as int,
        c.target.x as int,
        c.integration.x as int,
        c.error_prev.x as int,
        c.derivative_initialized,
        dt,
        t.aim_position.x as int,
    ) <= i64::MAX
    &&& i64::MIN <= t.aim_position.y + crate::pid_controller::output_axis(
        c.proportional_gain as int,
        c.integral_gain as int,
        c.derivative_gain as int,
        c.target.y as int,
        c.integration.y as int,
        c.error_prev.y as int,
        c.derivative_initialized,
        dt,
        t.aim_position.y as int,
    ) <= i64::MAX
    &&& i64::MIN <= t.aim_position.z + crate::pid_controller::output_axis(
        c.proportional_gain as int,
        c.integral_gain as int,
        c.derivative_gain as int,
        c.target.z as int,
        c.integration.z as int,
        c.error_prev.z as int,
        c.derivative_initialized,
        dt,
        t.aim_position.z as int,
    ) <= i64::MAX
}

/// The aim point after one smooth-aim step: the controller's output added
/// onto the current aim point.
pub open spec fn aim_after(
    t: Tower,
    c: crate::pid_controller::PidControlled<PID_CONTROL_LOOK_AT>,
    dt: int,
) -> Vec3i {
    Vec3i {
        x: (t.aim_position.x + crate::pid_controller::output_axis(
            c.proportional_gain as int,
            c.integral_gain as int,
            c.derivative_gain as int,
            c.target.x as int,
            c.integration.x as int,
            c.error_prev.x as int,
            c.derivative_initialized,
            dt,
            t.aim_position.x as int,
        )) as i64,
        y: (t.aim_position.y + crate::pid_controller::output_axis(
            c.proportional_gain as int,
            c.integral_gain as int,
            c.derivative_gain as int,
            c.target.y as int,
            c.integration.y as int,
            c.error_prev.y as int,
            c.derivative_initialized,
            dt,
            t.aim_position.y as int,
        )) as i64,
        z: (t.aim_position.z + crate::pid_controller::output_axis(
            c.proportional_gain as int,
            c.integral_gain as int,
            c.derivative_gain as int,
            c.target.z as int,
            c.integration.z as int,
            c.error_prev.z as int,
            c.derivative_initialized,
            dt,
            t.aim_position.z as int,
        )) as i64,
    }
}

/// Integrates each tower's aim controller output into its aim position,
/// producing smooth rotation toward the controller's target rather than an
/// instantaneous snap.  A step the fixed-width representation could not
/// hold leaves that tower's aim and controller untouched, a defined
/// fallback rather than a fault.
#[verifier::rlimit(30)]
pub fn tower_smooth_look(
    dt_ms: u64,
    towers: &mut Vec<Tower>,
    tower_controllers: &mut Vec<crate::pid_controller::PidControlled<PID_CONTROL_LOOK_AT>>,
)
    requires
        1 <= dt_ms <= crate::pid_controller::DT_LIMIT,
        old(towers)@.len() == old(tower_controllers)@.len(),
    ensures
        final(towers)@.len() == old(towers)@.len(),
        final(tower_controllers)@.len() == old(tower_controllers)@.len(),
        forall|i: int|
            0 <= i < old(towers)@.len() ==> {
                let t0 = old(towers)@[i];
                let c0 = old(tower_controllers)@[i];
                if aim_step_fits(t0, c0, dt_ms as int) {
                    #[trigger] final(towers)@[i] == (Tower {
                        aim_position: aim_after(t0, c0, dt_ms as int),
                        ..t0
                    }) && final(tower_controllers)@[i] == crate::pid_controller::pid_after(
                        c0,
                        dt_ms as int,
                        t0.aim_position,
                    )
                } else {
                    final(towers)@[i] == t0 && final(tower_controllers)@[i] == c0
                }
            },
{
    let n = towers.len();
    let mut i: usize = 0;
    while i < n
        invariant
            0 <= i <= n,
            1 <= dt_ms <= crate::pid_controller::DT_LIMIT,
            n == towers@.len() == old(towers)@.len(),
            n == tower_controllers@.len() == old(tower_controllers)@.len(),
            forall|j: int| i <= j < n ==> #[trigger] towers@[j] == old(towers)@[j],
            forall|j: int|
                i <= j < n ==> #[trigger] tower_controllers@[j] == old(tower_controllers)@[j],
            forall|j: int|
                0 <= j < i ==> {
                    let t0 = old(towers)@[j];
                    let c0 = old(tower_controllers)@[j];
                    if aim_step_fits(t0, c0, dt_ms as int) {
                        #[trigger] towers@[j] == (Tower {
                            aim_position: aim_after(t0, c0, dt_ms as int),
                            ..t0
                        }) && tower_controllers@[j] == crate::pid_controller::pid_after(
                            c0,
                            dt_ms as int,
                            t0.aim_position,
                        )
                    } else {
                        towers@[j] == t0 && tower_controllers@[j] == c0
                    }
                },
        decreases n - i,
    {
        let t = towers[i];
        let mut c = tower_controllers[i];
        let aim = t.aim_position;
        if crate::pid_controller::compute_fits_check(&c, dt_ms, aim) {
            let out = c.compute(dt_ms, aim);
            match (
                aim.x.checked_add(out.x),
                aim.y.checked_add(out.y),
                aim.z.checked_add(out.z),
            ) {
                (Some(nx), Some(ny), Some(nz)) => {
                    towers[i] = Tower { aim_position: Vec3i { x: nx, y: ny, z: nz }, ..t };
                    tower_controllers[i] = c;
                },
                _ => {},
            }
        }
        i = i + 1;
    }
}

/// A tower with its level-derived stats recomputed for `level`.
pub open spec fn updated_stats_spec(t: Tower, level: u64) -> Tower {
    Tower {
        attack_rate: (t.base_attack_rate + level * RATE_BONUS_PER_LEVEL) as u64,
        attack_timer: AttackTimer {
            period_ns: (1_000_000_000_000 as int / (t.base_attack_rate + level
                * RATE_BONUS_PER_LEVEL)) as u64,
            elapsed_ns: t.attack_timer.elapsed_ns,
        },
        ..t
    }
}

/// The towers after the first `i` level-up events have been handled: each
/// event whose entity resolves to a tower and a level record rescales that
/// tower's rate of fire.
pub open spec fn apply_level_up_events(
    towers: Seq<Tower>,
    tower_ids: Seq<u64>,
    levels: Seq<(u64, crate::exp_level::ExpLevel)>,
    events: Seq<crate::exp_level::EventLevelUp>,
    i: int,
) -> Seq<Tower>
    decreases i,
{
    if i <= 0 {
        towers
    } else {
        let prev = apply_level_up_events(towers, tower_ids, levels, events, i - 1);
        let ev = events[i - 1];
        let ti = crate::registry::id_index_of(tower_ids, ev.entity, 0);
        let li = crate::exp_level::entity_index_of(levels, ev.entity, 0);
        if ti >= 0 && li >= 0 {
            prev.update(ti, updated_stats_spec(prev[ti], levels[li].1.level))
        } else {
            prev
        }
    }
}

/// Reacts to this tick's level-up events: every tower named by one has its
/// fire-rate-derived cooldown rescaled from its new level.  Events whose
/// entity is not a tower, or has no level record, are ignored.
pub fn handle_tower_level_up(
    expbus: &ExperienceBus,
    tower_ids: &Vec<u64>,
    towers: &mut Vec<Tower>,
    levels: &Vec<(u64, crate::exp_level::ExpLevel)>,
)
    requires
        old(towers)@.len() == tower_ids@.len(),
        forall|j: int| 0 <= j < old(towers)@.len() ==> (#[trigger] old(towers)@[j]).wf(),
        forall|k: int| 0 <= k < levels@.len() ==> (#[trigger] levels@[k]).1.level <= 64,
    ensures
        final(towers)@ == apply_level_up_events(
            old(towers)@,
            tower_ids@,
            levels@,
            expbus.level_up@,
            expbus.level_up@.len() as int,
        ),
        final(towers)@.len() == old(towers)@.len(),
        forall|j: int| 0 <= j < final(towers)@.len() ==> (#[trigger] final(towers)@[j]).wf(),
{
    let n = expbus.level_up.len();
    let mut i: usize = 0;
    while i < n
        invariant
            0 <= i <= n,
            n == expbus.level_up@.len(),
            towers@.len() == old(towers)@.len() == tower_ids@.len(),
            forall|k: int| 0 <= k < levels@.len() ==> (#[trigger] levels@[k]).1.level <= 64,
            towers@ == apply_level_up_events(
                old(towers)@,
                tower_ids@,
                levels@,
                expbus.level_up@,
                i as int,
            ),
            forall|j: int| 0 <= j < towers@.len() ==> (#[trigger] towers@[j]).wf(),
        decreases n - i,
    {
        let ev = expbus.level_up[i];
        match (
            crate::registry::find_id(tower_ids, ev.entity),
            crate::exp_level::find_entity(levels, ev.entity),
        ) {
            (Some(ti), Some(li)) => {
                let level = levels[li].1.level;
                let mut t = towers[ti];
                proof {
                    assert(t.wf());
                    assert(t.base_attack_rate + level * RATE_BONUS_PER_LEVEL <= 1_000_000);
                }
                t.update_stats(level);
                towers[ti] = t;
                proof {
                    assert(towers@ =~= apply_level_up_events(
                        old(towers)@,
                        tower_ids@,
                        levels@,
                        expbus.level_up@,
                        i + 1,
                    ));
                }
            },
            _ => {
                proof {
                    assert(towers@ =~= apply_level_up_events(
                        old(towers)@,
                        tower_ids@,
                        levels@,
                        expbus.level_up@,
                        i + 1,
                    ));
                }
            },
        }
        i = i + 1;
    }
}

} // verus!
