//! Ballistic projectiles with predictive lead homing.
//!
//! Each tick a projectile estimates its time to impact from its distance to
//! the target and samples the target's track that far ahead of the target's
//! current progress, aiming at the predicted intercept point.  A prediction
//! nearly coincident with the projectile's own position falls back to the
//! target's actual position, guarding a stalled projectile against
//! oscillating around a fixed prediction.  Desired velocity is the
//! normalized direction to the objective times the projectile's speed;
//! steering adds the full correction, so the new velocity equals the
//! desired one, and the position integrates it over the tick.
//!
//! Collisions are checked against every live enemy, not only the nominal
//! target; a projectile whose target is gone retargets to the nearest
//! remaining enemy or, when none remains, despawns.
//!
//! Projectile positions are in milli-units.

use vstd::prelude::*;

use crate::enemy::{enemy_position, enemy_position_spec, Enemy, PATH_POS_PER_UNIT};
use crate::geometry::{
    dist2, dist2_spec, div_trunc, isqrt, isqrt_spec, lemma_axis_le_dist, lemma_div_trunc_abs,
    lemma_scaled_div_bound, milli_spec, mul_div, sq, to_milli, Vec3i, POS_LIMIT,
};
use crate::registry::{apply_mask, find_id, id_index_of, lemma_masked_len_pair, masked};
use crate::track::{find_path, path_index_of, path_world_bounded, Path};

verus! {

/// Squared hit radius in milli-units: a projectile hits anything within
/// half a world unit.
pub const HIT_RADIUS2_MILLI: u64 = 250_000;

/// Squared milli-unit distance under which a predicted intercept point
/// counts as coincident with the projectile and is ignored in favor of the
/// target's actual position.
pub const PRED_EPS2_MILLI: u64 = 10_000;

/// A homing projectile.
#[derive(Clone, Copy, Debug, PartialEq, Eq, Structural)]
pub struct TowerProjectile {
    pub damage: u32,
    /// Speed in milli-units per second.
    pub speed: u64,
    /// Id of the enemy this projectile homes on.
    pub target: u64,
    /// Where the projectile was at the end of the last tick, in
    /// milli-units; `None` before its first movement tick.
    pub last_pos: Option<Vec3i>,
}

impl TowerProjectile {
    /// The speed is positive and respects the machine limit.
    pub open spec fn wf(self) -> bool {
        1 <= self.speed <= 1_000_000_000
    }

    /// A projectile homing on `target`.
    pub fn new(damage: u32, speed: u64, target: u64) -> (r: Self)
        requires
            1 <= speed <= 1_000_000_000,
        ensures
            r == (TowerProjectile { damage, speed, target, last_pos: None::<Vec3i> }),
            r.wf(),
    {
        TowerProjectile { damage, speed, target, last_pos: None }
    }
}

/// A coordinate clamped into the representable region.
pub open spec fn clamp_coord(v: int) -> int {
    if v < -POS_LIMIT {
        -POS_LIMIT as int
    } else if v > POS_LIMIT {
        POS_LIMIT as int
    } else {
        v
    }
}

/// One guidance tick of one projectile: the successor projectile state and
/// position.  A target or track that no longer resolves leaves the
/// projectile where it is; the retargeting pass deals with it.
pub open spec fn projectile_step_spec(
    proj: TowerProjectile,
    pos: Vec3i,
    enemy_ids: Seq<u64>,
    enemies: Seq<Enemy>,
    paths: Seq<Path>,
    dt: int,
) -> (TowerProjectile, Vec3i) {
    let ti = id_index_of(enemy_ids, proj.target, 0);
    if ti < 0 {
        (proj, pos)
    } else {
        let e = enemies[ti];
        match enemy_position_spec(e, paths) {
            None => (proj, pos),
            Some(tp_units) => {
                let tp = milli_spec(tp_units);
                let d = isqrt_spec(dist2_spec(pos, tp) as nat);
                let t_est = d * 1000 / (proj.speed as nat);
                let pred_prog = if e.path_pos + e.speed * t_est <= u64::MAX {
                    e.path_pos + e.speed * t_est
                } else {
                    u64::MAX as int
                };
                let pi = path_index_of(paths, e.path_id, 0);
                let pred_units = paths[pi].point_at_distance_spec(
                    pred_prog / (PATH_POS_PER_UNIT as int),
                );
                let pred = milli_spec(pred_units);
                let objective = if dist2_spec(pos, pred) <= PRED_EPS2_MILLI {
                    tp
                } else {
                    pred
                };
                let len = isqrt_spec(dist2_spec(pos, objective) as nat);
                if len == 0 {
                    (TowerProjectile { last_pos: Some(pos), ..proj }, pos)
                } else {
                    let vx = div_trunc((objective.x - pos.x) * proj.speed, len as int);
                    let vy = div_trunc((objective.y - pos.y) * proj.speed, len as int);
                    let vz = div_trunc((objective.z - pos.z) * proj.speed, len as int);
                    let npos = Vec3i {
                        x: clamp_coord(pos.x + div_trunc(vx * dt, 1000)) as i64,
                        y: clamp_coord(pos.y + div_trunc(vy * dt, 1000)) as i64,
                        z: clamp_coord(pos.z + div_trunc(vz * dt, 1000)) as i64,
                    };
                    (TowerProjectile { last_pos: Some(npos), ..proj }, npos)
                }
            },
        }
    }
}

/// Clamps a coordinate into the representable region.
fn clamp_coord_exec(v: i64) -> (r: i64)
    ensures
        r == clamp_coord(v as int),
        -POS_LIMIT <= r <= POS_LIMIT,
{
    if v < -POS_LIMIT {
        -POS_LIMIT
    } else if v > POS_LIMIT {
        POS_LIMIT
    } else {
        v
    }
}

/// One guidance tick of one projectile; see [`projectile_step_spec`].
fn projectile_step(
    proj: TowerProjectile,
    pos: Vec3i,
    enemy_ids: &Vec<u64>,
    enemies: &Vec<Enemy>,
    paths: &Vec<Path>,
    dt_ms: u64,
) -> (r: (TowerProjectile, Vec3i))
    requires
        proj.wf(),
        pos.in_bounds(),
        1 <= dt_ms <= 1_000_000_000,
        enemy_ids@.len() == enemies@.len(),
        forall|k: int| 0 <= k < paths@.len() ==> (#[trigger] paths@[k]).wf(),
        forall|k: int| 0 <= k < paths@.len() ==> path_world_bounded(#[trigger] paths@[k]),
        forall|k: int| 0 <= k < enemies@.len() ==> (#[trigger] enemies@[k]).wf(),
    ensures
        r == projectile_step_spec(proj, pos, enemy_ids@, enemies@, paths@, dt_ms as int),
        r.1.in_bounds(),
{
    let ti = match find_id(enemy_ids, proj.target) {
        Some(ti) => ti,
        None => {
            return (proj, pos);
        },
    };
    let e = enemies[ti];
    let tp_units = match enemy_position(&e, paths) {
        Some(p) => p,
        None => {
            return (proj, pos);
        },
    };
    let tp = to_milli(tp_units);
    let d2 = dist2(pos, tp);
    let d = isqrt(d2);
    proof {
        crate::geometry::lemma_dist2_bound(pos, tp);
        assert(d <= 3_500_000_000u64) by (nonlinear_arith)
            requires
                d * d <= 12_000_000_000_000_000_000,
                0 <= d,
        ;
    }
    let t_est: u64 = (d * 1000) / proj.speed;
    proof {
        vstd::arithmetic::div_mod::lemma_div_is_ordered_by_denominator(
            (d * 1000) as int,
            1,
            proj.speed as int,
        );
        vstd::arithmetic::div_mod::lemma_fundamental_div_mod((d * 1000) as int, 1);
        assert(t_est <= 3_500_000_000_000u64);
        assert((e.speed as u128) * (t_est as u128) == (e.speed as int) * (t_est as int)
            && (e.speed as u128) * (t_est as u128) <= 0x10000000000000000000000u128)
            by (nonlinear_arith)
            requires 0 <= e.speed <= 1_000_000_000u64, 0 <= t_est <= 3_500_000_000_000u64;
        assert(t_est == (d as nat) * 1000 / (proj.speed as nat));
    }
    let prog128: u128 = e.path_pos as u128 + (e.speed as u128) * (t_est as u128);
    let pred_prog: u64 = if prog128 <= u64::MAX as u128 {
        prog128 as u64
    } else {
        u64::MAX
    };
    let pi = match find_path(paths, e.path_id) {
        Some(pi) => pi,
        None => {
            proof {
                assert(false);
            }
            return (proj, pos);
        },
    };
    proof {
        crate::track::lemma_path_index_of_range(paths@, e.path_id, 0);
    }
    let pred_units = paths[pi].get_point_along_path(pred_prog / PATH_POS_PER_UNIT);
    let pred = to_milli(pred_units);
    let d2p = dist2(pos, pred);
    let objective = if d2p <= PRED_EPS2_MILLI {
        tp
    } else {
        pred
    };
    let len2 = dist2(pos, objective);
    let len = isqrt(len2);
    if len == 0 {
        return (TowerProjectile { last_pos: Some(pos), ..proj }, pos);
    }
    proof {
        assert(sq(objective.x - pos.x) <= dist2_spec(pos, objective)) by (nonlinear_arith);
        assert(sq(objective.y - pos.y) <= dist2_spec(pos, objective)) by (nonlinear_arith);
        assert(sq(objective.z - pos.z) <= dist2_spec(pos, objective)) by (nonlinear_arith);
        lemma_axis_le_dist(objective.x - pos.x, dist2_spec(pos, objective), len as int);
        lemma_axis_le_dist(objective.y - pos.y, dist2_spec(pos, objective), len as int);
        lemma_axis_le_dist(objective.z - pos.z, dist2_spec(pos, objective), len as int);
        lemma_scaled_div_bound(objective.x - pos.x, proj.speed as int, len as int);
        lemma_scaled_div_bound(objective.y - pos.y, proj.speed as int, len as int);
        lemma_scaled_div_bound(objective.z - pos.z, proj.speed as int, len as int);
    }
    let vx = mul_div(objective.x - pos.x, proj.speed as i64, len);
    let vy = mul_div(objective.y - pos.y, proj.speed as i64, len);
    let vz = mul_div(objective.z - pos.z, proj.speed as i64, len);
    proof {
        lemma_div_trunc_abs(vx * dt_ms, 1000);
        lemma_div_trunc_abs(vy * dt_ms, 1000);
        lemma_div_trunc_abs(vz * dt_ms, 1000);
        assert(-1_000_000_000_000_000_000 <= vx * dt_ms <= 1_000_000_000_000_000_000)
            by (nonlinear_arith)
            requires
                -1_000_000_000 <= vx <= 1_000_000_000,
                1 <= dt_ms <= 1_000_000_000,
        ;
        assert(-1_000_000_000_000_000_000 <= vy * dt_ms <= 1_000_000_000_000_000_000)
            by (nonlinear_arith)
            requires
                -1_000_000_000 <= vy <= 1_000_000_000,
                1 <= dt_ms <= 1_000_000_000,
        ;
        assert(-1_000_000_000_000_000_000 <= vz * dt_ms <= 1_000_000_000_000_000_000)
            by (nonlinear_arith)
            requires
                -1_000_000_000 <= vz <= 1_000_000_000,
                1 <= dt_ms <= 1_000_000_000,
        ;
    }
    let sx = mul_div(vx, dt_ms as i64, 1000);
    let sy = mul_div(vy, dt_ms as i64, 1000);
    let sz = mul_div(vz, dt_ms as i64, 1000);
    let npos = Vec3i {
        x: clamp_coord_exec(pos.x + sx),
        y: clamp_coord_exec(pos.y + sy),
        z: clamp_coord_exec(pos.z + sz),
    };
    (TowerProjectile { last_pos: Some(npos), ..proj }, npos)
}

/// Advances every projectile by one guidance tick; each entry evolves by
/// exactly [`projectile_step_spec`] against the enemies' current state, and
/// every position stays in bounds.
pub fn move_projectiles(
    dt_ms: u64,
    projectiles: &mut Vec<TowerProjectile>,
    projectile_positions: &mut Vec<Vec3i>,
    enemy_ids: &Vec<u64>,
    enemies: &Vec<Enemy>,
    paths: &Vec<Path>,
)
    requires
        1 <= dt_ms <= 1_000_000_000,
        old(projectiles)@.len() == old(projectile_positions)@.len(),
        enemy_ids@.len() == enemies@.len(),
        forall|k: int| 0 <= k < old(projectiles)@.len() ==> (#[trigger] old(
            projectiles,
        )@[k]).wf(),
        forall|k: int|
            0 <= k < old(projectile_positions)@.len() ==> (#[trigger] old(
                projectile_positions,
            )@[k]).in_bounds(),
        forall|k: int| 0 <= k < paths@.len() ==> (#[trigger] paths@[k]).wf(),
        forall|k: int| 0 <= k < paths@.len() ==> path_world_bounded(#[trigger] paths@[k]),
        forall|k: int| 0 <= k < enemies@.len() ==> (#[trigger] enemies@[k]).wf(),
    ensures
        final(projectiles)@.len() == old(projectiles)@.len(),
        final(projectile_positions)@.len() == old(projectile_positions)@.len(),
        forall|k: int|
            0 <= k < old(projectiles)@.len() ==> (
                #[trigger] final(projectiles)@[k],
                final(projectile_positions)@[k],
            ) == projectile_step_spec(
                old(projectiles)@[k],
                old(projectile_positions)@[k],
                enemy_ids@,
                enemies@,
                paths@,
                dt_ms as int,
            ),
        forall|k: int|
            0 <= k < final(projectile_positions)@.len()
                ==> (#[trigger] final(projectile_positions)@[k]).in_bounds(),
{
    let n = projectiles.len();
    let mut i: usize = 0;
    while i < n
        invariant
            0 <= i <= n,
            1 <= dt_ms <= 1_000_000_000,
            n == projectiles@.len() == old(projectiles)@.len(),
            n == projectile_positions@.len() == old(projectile_positions)@.len(),
            enemy_ids@.len() == enemies@.len(),
            forall|k: int| 0 <= k < n ==> (#[trigger] old(projectiles)@[k]).wf(),
            forall|k: int|
                0 <= k < n ==> (#[trigger] old(projectile_positions)@[k]).in_bounds(),
            forall|k: int| 0 <= k < paths@.len() ==> (#[trigger] paths@[k]).wf(),
            forall|k: int| 0 <= k < paths@.len() ==> path_world_bounded(#[trigger] paths@[k]),
            forall|k: int| 0 <= k < enemies@.len() ==> (#[trigger] enemies@[k]).wf(),
            forall|k: int| i <= k < n ==> #[trigger] projectiles@[k] == old(projectiles)@[k],
            forall|k: int|
                i <= k < n ==> #[trigger] projectile_positions@[k] == old(
                    projectile_positions,
                )@[k],
            forall|k: int|
                0 <= k < i ==> (
                    #[trigger] projectiles@[k],
                    projectile_positions@[k],
                ) == projectile_step_spec(
                    old(projectiles)@[k],
                    old(projectile_positions)@[k],
                    enemy_ids@,
                    enemies@,
                    paths@,
                    dt_ms as int,
                ),
            forall|k: int| 0 <= k < i ==> (#[trigger] projectile_positions@[k]).in_bounds(),
        decreases n - i,
    {
        let stepped = projectile_step(
            projectiles[i],
            projectile_positions[i],
            enemy_ids,
            enemies,
            paths,
            dt_ms,
        );
        projectiles[i] = stepped.0;
        projectile_positions[i] = stepped.1;
        i = i + 1;
    }
}

/// Index of the first enemy at or after `i` within hit range of position
/// `p` (milli-units); -1 when none is.  Health is not consulted: proximity
/// alone resolves a hit.
pub open spec fn first_hit_index(p: Vec3i, enemies: Seq<Enemy>, paths: Seq<Path>, i: int) -> int
    decreases enemies.len() - i,
{
    if i < 0 || i >= enemies.len() {
        -1
    } else {
        match enemy_position_spec(enemies[i], paths) {
            Some(ep) => if dist2_spec(p, milli_spec(ep)) < HIT_RADIUS2_MILLI {
                i
            } else {
                first_hit_index(p, enemies, paths, i + 1)
            },
            None => first_hit_index(p, enemies, paths, i + 1),
        }
    }
}

/// `first_hit_index` returns -1 or a valid enemy index.
pub proof fn lemma_first_hit_index_range(p: Vec3i, enemies: Seq<Enemy>, paths: Seq<Path>, i: int)
    requires
        0 <= i,
    ensures
        first_hit_index(p, enemies, paths, i) == -1 || i <= first_hit_index(p, enemies, paths, i)
            < enemies.len(),
    decreases enemies.len() - i,
{
    if i < enemies.len() {
        lemma_first_hit_index_range(p, enemies, paths, i + 1);
    }
}

/// An enemy after taking `damage`, clamped at zero health.
pub open spec fn hurt_spec(e: Enemy, damage: u32) -> Enemy {
    Enemy {
        health: if damage > e.health {
            0u32
        } else {
            (e.health - damage) as u32
        },
        ..e
    }
}

/// The enemies after the first `i` projectiles have resolved their hits, in
/// order: each projectile with a hit applies its damage to the enemy it
/// struck.
pub open spec fn damage_fold(
    enemies: Seq<Enemy>,
    projs: Seq<TowerProjectile>,
    hits: Seq<int>,
    i: int,
) -> Seq<Enemy>
    decreases i,
{
    if i <= 0 {
        enemies
    } else {
        let prev = damage_fold(enemies, projs, hits, i - 1);
        let h = hits[i - 1];
        if h >= 0 {
            prev.update(h, hurt_spec(prev[h], projs[i - 1].damage))
        } else {
            prev
        }
    }
}

/// Resolving hits changes healths only, and only downward: every other
/// enemy field survives the fold.
pub proof fn lemma_damage_fold_frame(
    enemies: Seq<Enemy>,
    projs: Seq<TowerProjectile>,
    hits: Seq<int>,
    i: int,
)
    requires
        forall|k: int| 0 <= k < i ==> #[trigger] hits[k] < enemies.len(),
    ensures
        damage_fold(enemies, projs, hits, i).len() == enemies.len(),
        forall|k: int|
            0 <= k < enemies.len() ==> {
                let e = #[trigger] damage_fold(enemies, projs, hits, i)[k];
                e.path_id == enemies[k].path_id && e.path_pos == enemies[k].path_pos && e.speed
                    == enemies[k].speed && e.max_health == enemies[k].max_health && e.health
                    <= enemies[k].health
            },
    decreases i,
{
    if i > 0 {
        lemma_damage_fold_frame(enemies, projs, hits, i - 1);
    }
}

/// Hit detection reads only positions, so two enemy lists that agree on
/// tracks and progress agree on hits, whatever their healths.
proof fn lemma_first_hit_congruence(
    p: Vec3i,
    e1: Seq<Enemy>,
    e2: Seq<Enemy>,
    paths: Seq<Path>,
    i: int,
)
    requires
        e1.len() == e2.len(),
        forall|k: int|
            0 <= k < e1.len() ==> (#[trigger] e1[k]).path_id == e2[k].path_id && e1[k].path_pos
                == e2[k].path_pos,
    ensures
        first_hit_index(p, e1, paths, i) == first_hit_index(p, e2, paths, i),
    decreases e1.len() - i,
{
    if 0 <= i < e1.len() {
        assert(enemy_position_spec(e1[i], paths) == enemy_position_spec(e2[i], paths));
        lemma_first_hit_congruence(p, e1, e2, paths, i + 1);
    }
}

/// Finds the first enemy within hit range of `p`.
fn find_first_hit(p: Vec3i, enemies: &Vec<Enemy>, paths: &Vec<Path>) -> (r: Option<usize>)
    requires
        p.in_bounds(),
        forall|k: int| 0 <= k < paths@.len() ==> (#[trigger] paths@[k]).wf(),
        forall|k: int| 0 <= k < paths@.len() ==> path_world_bounded(#[trigger] paths@[k]),
    ensures
        r is Some <==> first_hit_index(p, enemies@, paths@, 0) >= 0,
        r matches Some(j) ==> j == first_hit_index(p, enemies@, paths@, 0) && j < enemies@.len(),
{
    let m = enemies.len();
    let mut j: usize = 0;
    while j < m
        invariant
            0 <= j <= m,
            m == enemies@.len(),
            p.in_bounds(),
            forall|k: int| 0 <= k < paths@.len() ==> (#[trigger] paths@[k]).wf(),
            forall|k: int| 0 <= k < paths@.len() ==> path_world_bounded(#[trigger] paths@[k]),
            first_hit_index(p, enemies@, paths@, 0) == first_hit_index(p, enemies@, paths@, j as int),
        decreases m - j,
    {
        match enemy_position(&enemies[j], paths) {
            Some(ep) => {
                let epm = to_milli(ep);
                if dist2(p, epm) < HIT_RADIUS2_MILLI {
                    return Some(j);
                }
            },
            None => {},
        }
        j = j + 1;
    }
    None
}

/// Resolves projectile collisions: each projectile strikes the first enemy
/// within its hit radius — any enemy, not only its nominal target — applies
/// its damage there, and despawns; projectiles that hit nothing remain, in
/// order.
pub fn projectile_collisions(
    projectiles: &mut Vec<TowerProjectile>,
    projectile_positions: &mut Vec<Vec3i>,
    projectile_ids: &mut Vec<u64>,
    enemies: &mut Vec<Enemy>,
    paths: &Vec<Path>,
)
    requires
        old(projectiles)@.len() == old(projectile_positions)@.len() == old(
            projectile_ids,
        )@.len(),
        forall|k: int|
            0 <= k < old(projectile_positions)@.len() ==> (#[trigger] old(
                projectile_positions,
            )@[k]).in_bounds(),
        forall|k: int| 0 <= k < paths@.len() ==> (#[trigger] paths@[k]).wf(),
        forall|k: int| 0 <= k < paths@.len() ==> path_world_bounded(#[trigger] paths@[k]),
    ensures
        ({
            let n = old(projectiles)@.len() as int;
            let hits = Seq::new(old(projectiles)@.len(), |k: int| first_hit_index(
                old(projectile_positions)@[k],
                old(enemies)@,
                paths@,
                0,
            ));
            let keep = Seq::new(old(projectiles)@.len(), |k: int| hits[k] < 0);
            final(enemies)@ == damage_fold(old(enemies)@, old(projectiles)@, hits, n)
                && final(projectiles)@ == masked(old(projectiles)@, keep, n)
                && final(projectile_positions)@ == masked(old(projectile_positions)@, keep, n)
                && final(projectile_ids)@ == masked(old(projectile_ids)@, keep, n)
        }),
        final(projectiles)@.len() == final(projectile_positions)@.len(),
        final(projectile_positions)@.len() == final(projectile_ids)@.len(),
{
    let ghost hits_s = Seq::new(old(projectiles)@.len(), |k: int| first_hit_index(
        old(projectile_positions)@[k],
        old(enemies)@,
        paths@,
        0,
    ));
    let ghost keep_s = Seq::new(old(projectiles)@.len(), |k: int| hits_s[k] < 0);
    let n = projectiles.len();
    let mut keep: Vec<bool> = Vec::new();
    let mut i: usize = 0;
    while i < n
        invariant
            0 <= i <= n,
            n == projectiles@.len() == projectile_positions@.len(),
            projectiles@ == old(projectiles)@,
            projectile_positions@ == old(projectile_positions)@,
            forall|k: int|
                0 <= k < n ==> (#[trigger] old(projectile_positions)@[k]).in_bounds(),
            forall|k: int| 0 <= k < paths@.len() ==> (#[trigger] paths@[k]).wf(),
            forall|k: int| 0 <= k < paths@.len() ==> path_world_bounded(#[trigger] paths@[k]),
            hits_s == Seq::new(old(projectiles)@.len(), |k: int| first_hit_index(
                old(projectile_positions)@[k],
                old(enemies)@,
                paths@,
                0,
            )),
            keep@.len() == i,
            forall|k: int| 0 <= k < i ==> #[trigger] keep@[k] == (hits_s[k] < 0),
            enemies@ == damage_fold(old(enemies)@, old(projectiles)@, hits_s, i as int),
        decreases n - i,
    {
        proof {
            assert forall|k: int| 0 <= k < n implies #[trigger] hits_s[k] < old(enemies)@.len() by {
                lemma_first_hit_index_range(
                    old(projectile_positions)@[k],
                    old(enemies)@,
                    paths@,
                    0,
                );
            }
            lemma_damage_fold_frame(old(enemies)@, old(projectiles)@, hits_s, i as int);
            lemma_first_hit_congruence(
                old(projectile_positions)@[i as int],
                enemies@,
                old(enemies)@,
                paths@,
                0,
            );
        }
        let hit = find_first_hit(projectile_positions[i], enemies, paths);
        keep.push(hit.is_none());
        match hit {
            Some(j) => {
                proof {
                    lemma_first_hit_index_range(
                        old(projectile_positions)@[i as int],
                        old(enemies)@,
                        paths@,
                        0,
                    );
                }
                let mut e = enemies[j];
                e.hurt(projectiles[i].damage);
                enemies[j] = e;
            },
            None => {},
        }
        i = i + 1;
    }
    proof {
        assert(keep@ =~= keep_s);
    }
    let new_projs = apply_mask(projectiles, &keep);
    let new_pos = apply_mask(projectile_positions, &keep);
    let new_ids = apply_mask(projectile_ids, &keep);
    *projectiles = new_projs;
    *projectile_positions = new_pos;
    *projectile_ids = new_ids;
    proof {
        lemma_masked_len_pair(old(projectiles)@, old(projectile_positions)@, keep_s, n as int);
        lemma_masked_len_pair(old(projectiles)@, old(projectile_ids)@, keep_s, n as int);
    }
}

/// Index of the nearest enemy (by milli-unit distance from `pos`) among
/// `enemies[..i]` whose position resolves; -1 when none resolves.  Ties
/// keep the earlier enemy.
pub open spec fn nearest_enemy_index(
    pos: Vec3i,
    enemies: Seq<Enemy>,
    paths: Seq<Path>,
    i: int,
) -> int
    decreases i,
{
    if i <= 0 {
        -1
    } else {
        let prev = nearest_enemy_index(pos, enemies, paths, i - 1);
        match enemy_position_spec(enemies[i - 1], paths) {
            None => prev,
            Some(p) => if prev < 0 {
                i - 1
            } else {
                let prev_d = match enemy_position_spec(enemies[prev], paths) {
                    Some(q) => dist2_spec(pos, milli_spec(q)),
                    None => 0,
                };
                if dist2_spec(pos, milli_spec(p)) < prev_d {
                    i - 1
                } else {
                    prev
                }
            },
        }
    }
}

/// What retargeting does to one projectile: an intact target keeps it
/// unchanged; a vanished target is replaced by the nearest remaining enemy;
/// with no enemy left the projectile despawns (`None`).
pub open spec fn retarget_step_spec(
    proj: TowerProjectile,
    pos: Vec3i,
    enemy_ids: Seq<u64>,
    enemies: Seq<Enemy>,
    paths: Seq<Path>,
) -> Option<TowerProjectile> {
    if id_index_of(enemy_ids, proj.target, 0) >= 0 {
        Some(proj)
    } else {
        let j = nearest_enemy_index(pos, enemies, paths, enemies.len() as int);
        if j >= 0 {
            Some(TowerProjectile { target: enemy_ids[j], ..proj })
        } else {
            None
        }
    }
}

/// Finds the nearest enemy whose position resolves.
fn nearest_enemy(pos: Vec3i, enemies: &Vec<Enemy>, paths: &Vec<Path>) -> (r: Option<usize>)
    requires
        pos.in_bounds(),
        forall|k: int| 0 <= k < paths@.len() ==> (#[trigger] paths@[k]).wf(),
        forall|k: int| 0 <= k < paths@.len() ==> path_world_bounded(#[trigger] paths@[k]),
    ensures
        r is Some <==> nearest_enemy_index(pos, enemies@, paths@, enemies@.len() as int) >= 0,
        r matches Some(j) ==> j == nearest_enemy_index(
            pos,
            enemies@,
            paths@,
            enemies@.len() as int,
        ) && j < enemies@.len(),
{
    let m = enemies.len();
    let mut best: Option<usize> = None;
    let mut best_d2: u64 = 0;
    let mut i: usize = 0;
    while i < m
        invariant
            0 <= i <= m,
            m == enemies@.len(),
            pos.in_bounds(),
            forall|k: int| 0 <= k < paths@.len() ==> (#[trigger] paths@[k]).wf(),
            forall|k: int| 0 <= k < paths@.len() ==> path_world_bounded(#[trigger] paths@[k]),
            best is Some <==> nearest_enemy_index(pos, enemies@, paths@, i as int) >= 0,
            best matches Some(j) ==> j == nearest_enemy_index(pos, enemies@, paths@, i as int)
                && j < i && (match enemy_position_spec(enemies@[j as int], paths@) {
                Some(q) => best_d2 == dist2_spec(pos, milli_spec(q)),
                None => false,
            }),
        decreases m - i,
    {
        match enemy_position(&enemies[i], paths) {
            Some(p) => {
                let pm = to_milli(p);
                let d2 = dist2(pos, pm);
                match best {
                    None => {
                        best = Some(i);
                        best_d2 = d2;
                    },
                    Some(_) => {
                        if d2 < best_d2 {
                            best = Some(i);
                            best_d2 = d2;
                        }
                    },
                }
            },
            None => {},
        }
        i = i + 1;
    }
    best
}

/// Retargets projectiles whose nominal target no longer exists: each picks
/// the nearest remaining enemy, and with no enemy remaining it despawns.
/// Projectiles with an intact target are untouched.
pub fn retarget_projectiles(
    projectiles: &mut Vec<TowerProjectile>,
    projectile_positions: &mut Vec<Vec3i>,
    projectile_ids: &mut Vec<u64>,
    enemy_ids: &Vec<u64>,
    enemies: &Vec<Enemy>,
    paths: &Vec<Path>,
)
    requires
        old(projectiles)@.len() == old(projectile_positions)@.len() == old(
            projectile_ids,
        )@.len(),
        enemy_ids@.len() == enemies@.len(),
        forall|k: int|
            0 <= k < old(projectile_positions)@.len() ==> (#[trigger] old(
                projectile_positions,
            )@[k]).in_bounds(),
        forall|k: int| 0 <= k < paths@.len() ==> (#[trigger] paths@[k]).wf(),
        forall|k: int| 0 <= k < paths@.len() ==> path_world_bounded(#[trigger] paths@[k]),
    ensures
        ({
            let n = old(projectiles)@.len() as int;
            let stepped = Seq::new(old(projectiles)@.len(), |k: int| retarget_step_spec(
                old(projectiles)@[k],
                old(projectile_positions)@[k],
                enemy_ids@,
                enemies@,
                paths@,
            ));
            let keep = Seq::new(old(projectiles)@.len(), |k: int| stepped[k] is Some);
            let replaced = Seq::new(old(projectiles)@.len(), |k: int| match stepped[k] {
                Some(p) => p,
                None => old(projectiles)@[k],
            });
            final(projectiles)@ == masked(replaced, keep, n)
                && final(projectile_positions)@ == masked(old(projectile_positions)@, keep, n)
                && final(projectile_ids)@ == masked(old(projectile_ids)@, keep, n)
        }),
        final(projectiles)@.len() == final(projectile_positions)@.len(),
        final(projectile_positions)@.len() == final(projectile_ids)@.len(),
{
    let ghost stepped_s = Seq::new(old(projectiles)@.len(), |k: int| retarget_step_spec(
        old(projectiles)@[k],
        old(projectile_positions)@[k],
        enemy_ids@,
        enemies@,
        paths@,
    ));
    let ghost keep_s = Seq::new(old(projectiles)@.len(), |k: int| stepped_s[k] is Some);
    let ghost replaced_s = Seq::new(old(projectiles)@.len(), |k: int| match stepped_s[k] {
        Some(p) => p,
        None => old(projectiles)@[k],
    });
    let n = projectiles.len();
    let mut keep: Vec<bool> = Vec::new();
    let mut new_projs: Vec<TowerProjectile> = Vec::new();
    let mut i: usize = 0;
    proof {
        assert(new_projs@ =~= masked(replaced_s, keep_s, 0));
    }
    while i < n
        invariant
            0 <= i <= n,
            n == projectiles@.len() == projectile_positions@.len(),
            projectiles@ == old(projectiles)@,
            projectile_positions@ == old(projectile_positions)@,
            enemy_ids@.len() == enemies@.len(),
            forall|k: int|
                0 <= k < n ==> (#[trigger] old(projectile_positions)@[k]).in_bounds(),
            forall|k: int| 0 <= k < paths@.len() ==> (#[trigger] paths@[k]).wf(),
            forall|k: int| 0 <= k < paths@.len() ==> path_world_bounded(#[trigger] paths@[k]),
            stepped_s == Seq::new(old(projectiles)@.len(), |k: int| retarget_step_spec(
                old(projectiles)@[k],
                old(projectile_positions)@[k],
                enemy_ids@,
                enemies@,
                paths@,
            )),
            keep_s == Seq::new(old(projectiles)@.len(), |k: int| stepped_s[k] is Some),
            replaced_s == Seq::new(old(projectiles)@.len(), |k: int| match stepped_s[k] {
                Some(p) => p,
                None => old(projectiles)@[k],
            }),
            keep@.len() == i,
            forall|k: int| 0 <= k < i ==> #[trigger] keep@[k] == keep_s[k],
            new_projs@ == masked(replaced_s, keep_s, i as int),
        decreases n - i,
    {
        let proj = projectiles[i];
        match find_id(enemy_ids, proj.target) {
            Some(_) => {
                keep.push(true);
                new_projs.push(proj);
            },
            None => {
                match nearest_enemy(projectile_positions[i], enemies, paths) {
                    Some(j) => {
                        keep.push(true);
                        new_projs.push(TowerProjectile { target: enemy_ids[j], ..proj });
                    },
                    None => {
                        keep.push(false);
                    },
                }
            },
        }
        proof {
            assert(new_projs@ =~= masked(replaced_s, keep_s, i + 1));
        }
        i = i + 1;
    }
    proof {
        assert(keep@ =~= keep_s);
    }
    let new_pos = apply_mask(projectile_positions, &keep);
    let new_ids = apply_mask(projectile_ids, &keep);
    *projectiles = new_projs;
    *projectile_positions = new_pos;
    *projectile_ids = new_ids;
    proof {
        lemma_masked_len_pair(replaced_s, old(projectile_positions)@, keep_s, n as int);
        lemma_masked_len_pair(old(projectile_positions)@, old(projectile_ids)@, keep_s, n as int);
    }
}

} // verus!
