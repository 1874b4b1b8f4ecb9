//! Beam attack entities: short-lived visual beams locked to a source tower
//! and a target enemy.
//!
//! Every tick the beam endpoints are refreshed from the current positions
//! of the locked entities; if either lookup fails the beam is flagged
//! expired immediately, with no grace period.  Independently a fixed
//! countdown runs, and a beam is despawned when either condition holds.

use vstd::prelude::*;

use crate::enemy::{enemy_position, enemy_position_spec, Enemy};
use crate::geometry::Vec3i;
use crate::registry::{apply_mask, find_id, id_index_of, lemma_masked_len_pair, masked};
use crate::track::Path;

verus! {

/// A beam: its endpoints, the milliseconds it has left, and the immediate
/// expiry flag.
#[derive(Clone, Copy, Debug, PartialEq, Eq, Structural)]
pub struct TowerLaser {
    pub start_pos: Vec3i,
    pub end_pos: Vec3i,
    /// Remaining lifetime, in milliseconds.
    pub expire_timer: u64,
    /// Force the laser to be expired.
    pub override_expired: bool,
}

/// The entity identities a beam stays locked to.
#[derive(Clone, Copy, Debug, PartialEq, Eq, Structural)]
pub struct TowerLaserLock {
    pub source: u64,
    pub target: u64,
}

/// The current endpoints a lock resolves to: the source tower's position
/// and the target enemy's position, or `None` when either lookup fails.
pub open spec fn lock_endpoints_spec(
    lock: TowerLaserLock,
    tower_ids: Seq<u64>,
    tower_positions: Seq<Vec3i>,
    enemy_ids: Seq<u64>,
    enemies: Seq<Enemy>,
    paths: Seq<Path>,
) -> Option<(Vec3i, Vec3i)> {
    let si = id_index_of(tower_ids, lock.source, 0);
    let ti = id_index_of(enemy_ids, lock.target, 0);
    if si >= 0 && ti >= 0 {
        match enemy_position_spec(enemies[ti], paths) {
            Some(p) => Some((tower_positions[si], p)),
            None => None,
        }
    } else {
        None
    }
}

/// Refreshes every beam's endpoints from the current positions of its
/// locked entities; a beam whose source or target no longer resolves is
/// flagged expired on the spot.
pub fn update_laser_locks(
    lasers: &mut Vec<TowerLaser>,
    laser_locks: &Vec<TowerLaserLock>,
    tower_ids: &Vec<u64>,
    tower_positions: &Vec<Vec3i>,
    enemy_ids: &Vec<u64>,
    enemies: &Vec<Enemy>,
    paths: &Vec<Path>,
)
    requires
        old(lasers)@.len() == laser_locks@.len(),
        tower_ids@.len() == tower_positions@.len(),
        enemy_ids@.len() == enemies@.len(),
        forall|k: int| 0 <= k < paths@.len() ==> (#[trigger] paths@[k]).wf(),
    ensures
        final(lasers)@.len() == old(lasers)@.len(),
        forall|k: int|
            0 <= k < old(lasers)@.len() ==> #[trigger] final(lasers)@[k] == (match
                lock_endpoints_spec(
                laser_locks@[k],
                tower_ids@,
                tower_positions@,
                enemy_ids@,
                enemies@,
                paths@,
            ) {
                Some(ends) => TowerLaser {
                    start_pos: ends.0,
                    end_pos: ends.1,
                    ..old(lasers)@[k]
                },
                None => TowerLaser { override_expired: true, ..old(lasers)@[k] },
            }),
{
    let n = lasers.len();
    let mut k: usize = 0;
    while k < n
        invariant
            0 <= k <= n,
            n == lasers@.len() == old(lasers)@.len() == laser_locks@.len(),
            tower_ids@.len() == tower_positions@.len(),
            enemy_ids@.len() == enemies@.len(),
            forall|j: int| 0 <= j < paths@.len() ==> (#[trigger] paths@[j]).wf(),
            forall|j: int| k <= j < n ==> #[trigger] lasers@[j] == old(lasers)@[j],
            forall|j: int|
                0 <= j < k ==> #[trigger] lasers@[j] == (match lock_endpoints_spec(
                    laser_locks@[j],
                    tower_ids@,
                    tower_positions@,
                    enemy_ids@,
                    enemies@,
                    paths@,
                ) {
                    Some(ends) => TowerLaser {
                        start_pos: ends.0,
                        end_pos: ends.1,
                        ..old(lasers)@[j]
                    },
                    None => TowerLaser { override_expired: true, ..old(lasers)@[j] },
                }),
        decreases n - k,
    {
        let lock = laser_locks[k];
        let cur = lasers[k];
        let si = find_id(tower_ids, lock.source);
        let ti = find_id(enemy_ids, lock.target);
        match (si, ti) {
            (Some(s), Some(t)) => {
                match enemy_position(&enemies[t], paths) {
                    Some(p) => {
                        lasers[k] = TowerLaser {
                            start_pos: tower_positions[s],
                            end_pos: p,
                            ..cur
                        };
                    },
                    None => {
                        lasers[k] = TowerLaser { override_expired: true, ..cur };
                    },
                }
            },
            _ => {
                lasers[k] = TowerLaser { override_expired: true, ..cur };
            },
        }
        k = k + 1;
    }
}

/// Whether a beam outlives this tick: not flagged, and with lifetime left
/// after the tick's time passes.
pub open spec fn laser_survives(l: TowerLaser, dt: int) -> bool {
    !l.override_expired && l.expire_timer > dt
}

/// A beam with one tick's time taken off its countdown.
pub open spec fn ticked_laser(l: TowerLaser, dt: int) -> TowerLaser {
    TowerLaser {
        expire_timer: if l.expire_timer >= dt {
            (l.expire_timer - dt) as u64
        } else {
            0
        },
        ..l
    }
}

/// Runs every beam's expiry countdown and despawns the expired: what
/// remains are exactly the surviving beams, in order, with their countdowns
/// advanced, and their locks and ids beside them.
pub fn clean_up_expired_lasers(
    dt_ms: u64,
    lasers: &mut Vec<TowerLaser>,
    laser_locks: &mut Vec<TowerLaserLock>,
    laser_ids: &mut Vec<u64>,
)
    requires
        old(lasers)@.len() == old(laser_locks)@.len() == old(laser_ids)@.len(),
    ensures
        ({
            let n = old(lasers)@.len() as int;
            let keep = Seq::new(old(lasers)@.len(), |k: int| laser_survives(
                old(lasers)@[k],
                dt_ms as int,
            ));
            let ticked = Seq::new(old(lasers)@.len(), |k: int| ticked_laser(
                old(lasers)@[k],
                dt_ms as int,
            ));
            final(lasers)@ == masked(ticked, keep, n) && final(laser_locks)@ == masked(
                old(laser_locks)@,
                keep,
                n,
            ) && final(laser_ids)@ == masked(old(laser_ids)@, keep, n)
        }),
        final(lasers)@.len() == final(laser_locks)@.len() == final(laser_ids)@.len(),
{
    let ghost keep_s = Seq::new(old(lasers)@.len(), |k: int| laser_survives(
        old(lasers)@[k],
        dt_ms as int,
    ));
    let ghost ticked_s = Seq::new(old(lasers)@.len(), |k: int| ticked_laser(
        old(lasers)@[k],
        dt_ms as int,
    ));
    let n = lasers.len();
    let mut keep: Vec<bool> = Vec::new();
    let mut new_lasers: Vec<TowerLaser> = Vec::new();
    let mut i: usize = 0;
    proof {
        assert(new_lasers@ =~= masked(ticked_s, keep_s, 0));
    }
    while i < n
        invariant
            0 <= i <= n,
            n == lasers@.len(),
            lasers@ == old(lasers)@,
            keep_s == Seq::new(old(lasers)@.len(), |k: int| laser_survives(
                old(lasers)@[k],
                dt_ms as int,
            )),
            ticked_s == Seq::new(old(lasers)@.len(), |k: int| ticked_laser(
                old(lasers)@[k],
                dt_ms as int,
            )),
            keep@.len() == i,
            forall|j: int| 0 <= j < i ==> #[trigger] keep@[j] == keep_s[j],
            new_lasers@ == masked(ticked_s, keep_s, i as int),
        decreases n - i,
    {
        let l = lasers[i];
        let survives = !l.override_expired && l.expire_timer > dt_ms;
        keep.push(survives);
        if survives {
            new_lasers.push(TowerLaser { expire_timer: l.expire_timer - dt_ms, ..l });
            proof {
                assert(TowerLaser { expire_timer: (l.expire_timer - dt_ms) as u64, ..l }
                    == ticked_s[i as int]);
            }
        }
        proof {
            assert(new_lasers@ =~= masked(ticked_s, keep_s, i + 1));
        }
        i = i + 1;
    }
    proof {
        assert(keep@ =~= keep_s);
    }
    let new_locks = apply_mask(laser_locks, &keep);
    let new_ids = apply_mask(laser_ids, &keep);
    *lasers = new_lasers;
    *laser_locks = new_locks;
    *laser_ids = new_ids;
    proof {
        lemma_masked_len_pair(ticked_s, old(laser_locks)@, keep_s, n as int);
        lemma_masked_len_pair(ticked_s, old(laser_ids)@, keep_s, n as int);
    }
}

} // verus!
