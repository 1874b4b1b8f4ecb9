//! The simulation world: one explicit context object holding every entity
//! column, the scheduler, the event bus and the player, with one
//! `advance_tick` driving a whole simulated tick in a fixed order.
//!
//! Entities live in parallel columns (ids beside data) keyed by stable ids
//! from a monotone counter, so a despawned id is never reused.  Per tick the
//! order is: wave spawning, enemy movement, tower targeting and fire, smooth
//! aiming, projectile guidance, collisions and retargeting, beam upkeep and
//! expiry, death collection, rewards, experience accumulation, leveling,
//! stat recomputation, and finally the event-buffer swap — so every reader
//! of this tick's events has run before they are cleared.

use vstd::prelude::*;

use crate::enemy::{
    enemy_position, enemy_position_spec, monitor_health, move_enemies, moved_enemy,
    process_enemy_death, Enemy, EventEnemyDeath,
};
use crate::exp_level::{
    apply_exp_events, entity_index_of, find_entity, lemma_level_of_le_64, level_of, level_ups_of,
    process_experience_gain, process_level_ups, update_exp_bus, EventExpGain, EventLevelUp,
    ExpLevel, ExperienceBus,
};
use crate::geometry::Vec3i;
use crate::laser::{
    clean_up_expired_lasers, laser_survives, lock_endpoints_spec, ticked_laser,
    update_laser_locks, TowerLaser, TowerLaserLock,
};
use crate::pid_controller::PidControlled;
use crate::player::Player;
use crate::projectile::{
    damage_fold, first_hit_index, lemma_damage_fold_frame, lemma_first_hit_index_range,
    move_projectiles, projectile_collisions, projectile_step_spec, retarget_projectiles,
    retarget_step_spec, TowerProjectile,
};
use crate::registry::{find_id, id_index_of, lemma_masked_elems, masked};
use crate::towers::{
    aim_after, aim_step_fits, apply_level_up_events, handle_tower_level_up, operate_towers,
    operate_towers_spec, tower_smooth_look, Tower, TowerPassState, PID_CONTROL_LOOK_AT,
};
use crate::track::{path_world_bounded, Path};
use crate::waves::{
    spawn_enemies_from_waves, spawned_enemy, wave_step_spec, Wave, WaveManager, WaveManagerModel,
    WaveStatus,
};

verus! {

/// The whole simulation state.
pub struct World {
    pub next_id: u64,
    pub paths: Vec<Path>,
    pub enemy_ids: Vec<u64>,
    pub enemies: Vec<Enemy>,
    pub tower_ids: Vec<u64>,
    pub towers: Vec<Tower>,
    pub tower_positions: Vec<Vec3i>,
    pub tower_controllers: Vec<PidControlled<PID_CONTROL_LOOK_AT>>,
    pub levels: Vec<(u64, ExpLevel)>,
    pub lasers: Vec<TowerLaser>,
    pub laser_locks: Vec<TowerLaserLock>,
    pub laser_ids: Vec<u64>,
    pub projectiles: Vec<TowerProjectile>,
    pub projectile_positions: Vec<Vec3i>,
    pub projectile_ids: Vec<u64>,
    pub player: Player,
    pub wave_manager: WaveManager,
    pub exp_bus: ExperienceBus,
    pub death_events: Vec<EventEnemyDeath>,
    pub start_wave_requested: bool,
}

/// Spec-level snapshot of the whole world, with every column as a
/// sequence, used to state what one tick does.
#[verifier::ext_equal]
pub struct WorldModel {
    pub next_id: int,
    pub paths: Seq<Path>,
    pub enemy_ids: Seq<u64>,
    pub enemies: Seq<Enemy>,
    pub tower_ids: Seq<u64>,
    pub towers: Seq<Tower>,
    pub tower_positions: Seq<Vec3i>,
    pub tower_controllers: Seq<PidControlled<PID_CONTROL_LOOK_AT>>,
    pub levels: Seq<(u64, ExpLevel)>,
    pub lasers: Seq<TowerLaser>,
    pub laser_locks: Seq<TowerLaserLock>,
    pub laser_ids: Seq<u64>,
    pub projectiles: Seq<TowerProjectile>,
    pub projectile_positions: Seq<Vec3i>,
    pub projectile_ids: Seq<u64>,
    pub player: Player,
    pub wave_manager: WaveManagerModel,
    pub exp_gains: Seq<EventExpGain>,
    pub level_ups: Seq<EventLevelUp>,
    pub death_events: Seq<EventEnemyDeath>,
    pub start_wave_requested: bool,
}

/// Wave scheduling: the scheduler takes one [`wave_step_spec`] transition,
/// a spawning tick appends one enemy from the wave's template under a
/// fresh id, and the external start trigger is consumed.
pub open spec fn tick_wave_stage(m: WorldModel, dt: int) -> WorldModel {
    let stepped = wave_step_spec(m.wave_manager, m.start_wave_requested, dt, m.enemies.len() as int);
    match stepped.1 {
        Some(t) => WorldModel {
            wave_manager: stepped.0,
            enemies: m.enemies.push(spawned_enemy(t)),
            enemy_ids: m.enemy_ids.push(m.next_id as u64),
            next_id: m.next_id + 1,
            start_wave_requested: false,
            ..m
        },
        None => WorldModel { wave_manager: stepped.0, start_wave_requested: false, ..m },
    }
}

/// Movement: every enemy advances along its track by [`moved_enemy`].
pub open spec fn tick_move_stage(m: WorldModel, dt: int) -> WorldModel {
    WorldModel {
        enemies: Seq::new(m.enemies.len(), |k: int| moved_enemy(m.enemies[k], dt)),
        ..m
    }
}

/// Targeting and fire: the towers run in index order by
/// [`operate_towers_spec`], damaging enemies, spawning beams and
/// projectiles, and queueing experience events.
pub open spec fn tick_towers_stage(m: WorldModel, dt: int) -> WorldModel {
    let s1 = operate_towers_spec(
        TowerPassState {
            towers: m.towers,
            controllers: m.tower_controllers,
            enemies: m.enemies,
            lasers: m.lasers,
            laser_locks: m.laser_locks,
            laser_ids: m.laser_ids,
            projectiles: m.projectiles,
            projectile_positions: m.projectile_positions,
            projectile_ids: m.projectile_ids,
            exp_gains: m.exp_gains,
            next_id: m.next_id,
        },
        m.towers.len() as int,
        m.tower_ids,
        m.tower_positions,
        m.enemy_ids,
        m.paths,
        dt,
    );
    WorldModel {
        towers: s1.towers,
        tower_controllers: s1.controllers,
        enemies: s1.enemies,
        lasers: s1.lasers,
        laser_locks: s1.laser_locks,
        laser_ids: s1.laser_ids,
        projectiles: s1.projectiles,
        projectile_positions: s1.projectile_positions,
        projectile_ids: s1.projectile_ids,
        exp_gains: s1.exp_gains,
        next_id: s1.next_id,
        ..m
    }
}

/// Smooth aiming: each tower integrates its controller's output into its
/// aim position, skipping a step the fixed-width representation could not
/// hold.
pub open spec fn tick_aim_stage(m: WorldModel, dt: int) -> WorldModel {
    WorldModel {
        towers: Seq::new(
            m.towers.len(),
            |k: int|
                if aim_step_fits(m.towers[k], m.tower_controllers[k], dt) {
                    Tower {
                        aim_position: aim_after(m.towers[k], m.tower_controllers[k], dt),
                        ..m.towers[k]
                    }
                } else {
                    m.towers[k]
                },
        ),
        tower_controllers: Seq::new(
            m.tower_controllers.len(),
            |k: int|
                if aim_step_fits(m.towers[k], m.tower_controllers[k], dt) {
                    crate::pid_controller::pid_after(
                        m.tower_controllers[k],
                        dt,
                        m.towers[k].aim_position,
                    )
                } else {
                    m.tower_controllers[k]
                },
        ),
        ..m
    }
}

/// Projectile guidance: every projectile takes one
/// [`projectile_step_spec`] step of predictive-intercept homing.
pub open spec fn tick_projectile_stage(m: WorldModel, dt: int) -> WorldModel {
    WorldModel {
        projectiles: Seq::new(
            m.projectiles.len(),
            |k: int| projectile_step_spec(
                m.projectiles[k],
                m.projectile_positions[k],
                m.enemy_ids,
                m.enemies,
                m.paths,
                dt,
            ).0,
        ),
        projectile_positions: Seq::new(
            m.projectile_positions.len(),
            |k: int| projectile_step_spec(
                m.projectiles[k],
                m.projectile_positions[k],
                m.enemy_ids,
                m.enemies,
                m.paths,
                dt,
            ).1,
        ),
        ..m
    }
}

/// Collision resolution: each projectile strikes the first enemy within
/// its hit radius, the damage folds over the enemies, and the striking
/// projectiles despawn.
pub open spec fn tick_collision_stage(m: WorldModel) -> WorldModel {
    let n = m.projectiles.len() as int;
    let hits = Seq::new(
        m.projectiles.len(),
        |k: int| first_hit_index(m.projectile_positions[k], m.enemies, m.paths, 0),
    );
    let keep = Seq::new(m.projectiles.len(), |k: int| hits[k] < 0);
    WorldModel {
        enemies: damage_fold(m.enemies, m.projectiles, hits, n),
        projectiles: masked(m.projectiles, keep, n),
        projectile_positions: masked(m.projectile_positions, keep, n),
        projectile_ids: masked(m.projectile_ids, keep, n),
        ..m
    }
}

/// Retargeting: a projectile whose target is gone homes on the nearest
/// remaining enemy, or despawns when none remains.
pub open spec fn tick_retarget_stage(m: WorldModel) -> WorldModel {
    let n = m.projectiles.len() as int;
    let stepped = Seq::new(
        m.projectiles.len(),
        |k: int| retarget_step_spec(
            m.projectiles[k],
            m.projectile_positions[k],
            m.enemy_ids,
            m.enemies,
            m.paths,
        ),
    );
    let keep = Seq::new(m.projectiles.len(), |k: int| stepped[k] is Some);
    let replaced = Seq::new(
        m.projectiles.len(),
        |k: int| match stepped[k] {
            Some(p) => p,
            None => m.projectiles[k],
        },
    );
    WorldModel {
        projectiles: masked(replaced, keep, n),
        projectile_positions: masked(m.projectile_positions, keep, n),
        projectile_ids: masked(m.projectile_ids, keep, n),
        ..m
    }
}

/// Beam upkeep: every beam's endpoints refresh from the entities it is
/// locked to (or it is flagged expired), its countdown runs, and the
/// expired despawn.
pub open spec fn tick_beam_stage(m: WorldModel, dt: int) -> WorldModel {
    let refreshed = Seq::new(
        m.lasers.len(),
        |k: int| match lock_endpoints_spec(
            m.laser_locks[k],
            m.tower_ids,
            m.tower_positions,
            m.enemy_ids,
            m.enemies,
            m.paths,
        ) {
            Some(ends) => TowerLaser { start_pos: ends.0, end_pos: ends.1, ..m.lasers[k] },
            None => TowerLaser { override_expired: true, ..m.lasers[k] },
        },
    );
    let n = m.lasers.len() as int;
    let keep = Seq::new(m.lasers.len(), |k: int| laser_survives(refreshed[k], dt));
    let ticked = Seq::new(m.lasers.len(), |k: int| ticked_laser(refreshed[k], dt));
    WorldModel {
        lasers: masked(ticked, keep, n),
        laser_locks: masked(m.laser_locks, keep, n),
        laser_ids: masked(m.laser_ids, keep, n),
        ..m
    }
}

/// Death collection and reward: dead enemies despawn, each raising one
/// death event, and the player is paid one money per death as the events
/// drain.
pub open spec fn tick_death_stage(m: WorldModel) -> WorldModel {
    let n = m.enemies.len() as int;
    let keep = Seq::new(m.enemies.len(), |k: int| m.enemies[k].health > 0);
    let dead = Seq::new(m.enemies.len(), |k: int| m.enemies[k].health == 0);
    let events = Seq::new(m.enemies.len(), |k: int| EventEnemyDeath { enemy: m.enemy_ids[k] });
    let deaths = m.death_events + masked(events, dead, n);
    WorldModel {
        enemies: masked(m.enemies, keep, n),
        enemy_ids: masked(m.enemy_ids, keep, n),
        player: Player { money: (m.player.money + deaths.len()) as u64 },
        death_events: Seq::<EventEnemyDeath>::empty(),
        ..m
    }
}

/// Experience and leveling: the queued experience events accumulate onto
/// their entities, every stored level becomes the derived one (raising one
/// level-up event per change), the named towers rescale their fire rates,
/// and the event buffers swap out empty.
pub open spec fn tick_level_stage(m: WorldModel) -> WorldModel {
    let accumulated = apply_exp_events(m.levels, m.exp_gains);
    let leveled = Seq::new(
        accumulated.len(),
        |k: int| (
            accumulated[k].0,
            ExpLevel {
                experience: accumulated[k].1.experience,
                level: level_of(accumulated[k].1.experience as nat) as u64,
            },
        ),
    );
    let ups = m.level_ups + level_ups_of(accumulated);
    WorldModel {
        levels: leveled,
        towers: apply_level_up_events(m.towers, m.tower_ids, leveled, ups, ups.len() as int),
        exp_gains: Seq::<EventExpGain>::empty(),
        level_ups: Seq::<EventLevelUp>::empty(),
        ..m
    }
}

/// What one whole tick does: the composition of the per-stage effects, in
/// the documented order.
pub open spec fn tick_spec(m: WorldModel, dt: int) -> WorldModel {
    tick_level_stage(
        tick_death_stage(
            tick_beam_stage(
                tick_retarget_stage(
                    tick_collision_stage(
                        tick_projectile_stage(
                            tick_aim_stage(
                                tick_towers_stage(tick_move_stage(tick_wave_stage(m, dt), dt), dt),
                                dt,
                            ),
                            dt,
                        ),
                    ),
                ),
                dt,
            ),
        ),
    )
}

impl World {
    /// This world, as a spec-level snapshot.
    pub open spec fn model(self) -> WorldModel {
        WorldModel {
            next_id: self.next_id as int,
            paths: self.paths@,
            enemy_ids: self.enemy_ids@,
            enemies: self.enemies@,
            tower_ids: self.tower_ids@,
            towers: self.towers@,
            tower_positions: self.tower_positions@,
            tower_controllers: self.tower_controllers@,
            levels: self.levels@,
            lasers: self.lasers@,
            laser_locks: self.laser_locks@,
            laser_ids: self.laser_ids@,
            projectiles: self.projectiles@,
            projectile_positions: self.projectile_positions@,
            projectile_ids: self.projectile_ids@,
            player: self.player,
            wave_manager: self.wave_manager.model(),
            exp_gains: self.exp_bus.experience_gain@,
            level_ups: self.exp_bus.level_up@,
            death_events: self.death_events@,
            start_wave_requested: self.start_wave_requested,
        }
    }

    /// Well-formedness of the entity columns, which holds at every point of
    /// a tick: columns aligned and every entity within its bounds.
    pub open spec fn columns_wf(self) -> bool {
        &&& self.enemy_ids@.len() == self.enemies@.len()
        &&& self.tower_ids@.len() == self.towers@.len()
        &&& self.tower_positions@.len() == self.towers@.len()
        &&& self.tower_controllers@.len() == self.towers@.len()
        &&& self.lasers@.len() == self.laser_locks@.len()
        &&& self.laser_ids@.len() == self.lasers@.len()
        &&& self.projectiles@.len() == self.projectile_positions@.len()
        &&& self.projectile_ids@.len() == self.projectiles@.len()
        &&& forall|k: int| 0 <= k < self.paths@.len() ==> (#[trigger] self.paths@[k]).wf()
        &&& forall|k: int|
            0 <= k < self.paths@.len() ==> path_world_bounded(#[trigger] self.paths@[k])
        &&& forall|k: int| 0 <= k < self.enemies@.len() ==> (#[trigger] self.enemies@[k]).wf()
        &&& forall|k: int| 0 <= k < self.towers@.len() ==> (#[trigger] self.towers@[k]).wf()
        &&& forall|k: int|
            0 <= k < self.tower_positions@.len() ==> (
            #[trigger] self.tower_positions@[k]).in_world_bounds()
        &&& forall|k: int|
            0 <= k < self.projectiles@.len() ==> (#[trigger] self.projectiles@[k]).wf()
        &&& forall|k: int|
            0 <= k < self.projectile_positions@.len() ==> (
            #[trigger] self.projectile_positions@[k]).in_bounds()
        &&& forall|k: int| 0 <= k < self.levels@.len() ==> (#[trigger] self.levels@[k]).1.level
            <= 64
        &&& self.wave_manager.wf()
    }

    /// Well-formedness at a tick boundary: the columns are well-formed and
    /// the per-tick event queues are drained.
    pub open spec fn wf(self) -> bool {
        &&& self.columns_wf()
        &&& self.death_events@.len() == 0
        &&& self.exp_bus.experience_gain@.len() == 0
        &&& self.exp_bus.level_up@.len() == 0
    }

    /// An empty world over the given tracks and wave schedule.
    pub fn new(paths: Vec<Path>, waves: Vec<Wave>) -> (r: World)
        requires
            forall|k: int| 0 <= k < paths@.len() ==> (#[trigger] paths@[k]).wf(),
            forall|k: int| 0 <= k < paths@.len() ==> path_world_bounded(#[trigger] paths@[k]),
            forall|k: int|
                0 <= k < waves@.len() ==> (#[trigger] waves@[k]).stage.template.speed
                    <= crate::enemy::SPEED_LIMIT,
        ensures
            r.wf(),
            r.paths@ == paths@,
            r.wave_manager.waves@ == waves@,
            r.wave_manager.wave_status == WaveStatus::Pending,
            r.enemies@.len() == 0,
            r.towers@.len() == 0,
            r.player.money == 0,
            r.next_id == 1,
            !r.start_wave_requested,
    {
        World {
            next_id: 1,
            paths,
            enemy_ids: Vec::new(),
            enemies: Vec::new(),
            tower_ids: Vec::new(),
            towers: Vec::new(),
            tower_positions: Vec::new(),
            tower_controllers: Vec::new(),
            levels: Vec::new(),
            lasers: Vec::new(),
            laser_locks: Vec::new(),
            laser_ids: Vec::new(),
            projectiles: Vec::new(),
            projectile_positions: Vec::new(),
            projectile_ids: Vec::new(),
            player: Player::new(),
            wave_manager: WaveManager::new(waves),
            exp_bus: ExperienceBus::new(),
            death_events: Vec::new(),
            start_wave_requested: false,
        }
    }

    /// Places a tower with its aim controller at a position, under a fresh
    /// id, with a fresh level record.
    pub fn add_tower(
        &mut self,
        tower: Tower,
        position: Vec3i,
        controller: PidControlled<PID_CONTROL_LOOK_AT>,
    ) -> (r: u64)
        requires
            old(self).wf(),
            tower.wf(),
            position.in_world_bounds(),
            old(self).next_id < u64::MAX,
        ensures
            final(self).wf(),
            r == old(self).next_id,
            final(self).next_id == old(self).next_id + 1,
            final(self).towers@ == old(self).towers@.push(tower),
            final(self).tower_ids@ == old(self).tower_ids@.push(r),
            final(self).tower_positions@ == old(self).tower_positions@.push(position),
            final(self).tower_controllers@ == old(self).tower_controllers@.push(controller),
            final(self).levels@ == old(self).levels@.push((r, ExpLevel { experience: 0, level: 0 })),
            final(self).enemies == old(self).enemies,
            final(self).paths == old(self).paths,
            final(self).player == old(self).player,
    {
        let id = self.next_id;
        self.next_id = self.next_id + 1;
        self.tower_ids.push(id);
        self.towers.push(tower);
        self.tower_positions.push(position);
        self.tower_controllers.push(controller);
        self.levels.push((id, ExpLevel::new()));
        id
    }

    /// External trigger satisfying the scheduler's `Pending` to
    /// `InProgress` transition; latched until the next tick consumes it.
    pub fn start_active_wave(&mut self)
        ensures
            *final(self) == (World { start_wave_requested: true, ..*old(self) }),
    {
        self.start_wave_requested = true;
    }

    /// The 1-based number of the current wave.
    pub fn current_wave_number(&self) -> (r: usize)
        requires
            self.wf(),
        ensures
            r == if self.wave_manager.current_wave_index + 1 <= self.wave_manager.waves@.len() {
                self.wave_manager.current_wave_index + 1
            } else {
                self.wave_manager.waves@.len() as int
            },
    {
        self.wave_manager.current_wave_num()
    }

    /// Current scheduler status.
    pub fn wave_status(&self) -> (r: WaveStatus)
        ensures
            r == self.wave_manager.wave_status,
    {
        self.wave_manager.wave_status()
    }

    /// Health of the combatant with the given id, `None` exactly when the
    /// id does not resolve.
    pub fn combatant_health(&self, id: u64) -> (r: Option<u32>)
        requires
            self.wf(),
        ensures
            r == {
                let j = id_index_of(self.enemy_ids@, id, 0);
                if j >= 0 {
                    Some(self.enemies@[j].health)
                } else {
                    None::<u32>
                }
            },
    {
        match find_id(&self.enemy_ids, id) {
            Some(j) => Some(self.enemies[j].health),
            None => None,
        }
    }

    /// Position of the combatant with the given id: `None` when the id, or
    /// the combatant's track, does not resolve.
    pub fn combatant_position(&self, id: u64) -> (r: Option<Vec3i>)
        requires
            self.wf(),
        ensures
            r == {
                let j = id_index_of(self.enemy_ids@, id, 0);
                if j >= 0 {
                    enemy_position_spec(self.enemies@[j], self.paths@)
                } else {
                    None::<Vec3i>
                }
            },
    {
        match find_id(&self.enemy_ids, id) {
            Some(j) => enemy_position(&self.enemies[j], &self.paths),
            None => None,
        }
    }

    /// Stored level of the emplacement with the given id.
    pub fn emplacement_level(&self, id: u64) -> (r: Option<u64>)
        ensures
            r == {
                let j = entity_index_of(self.levels@, id, 0);
                if j >= 0 {
                    Some(self.levels@[j].1.level)
                } else {
                    None::<u64>
                }
            },
    {
        match find_entity(&self.levels, id) {
            Some(j) => Some(self.levels[j].1.level),
            None => None,
        }
    }

    /// Accumulated experience of the emplacement with the given id.
    pub fn emplacement_experience(&self, id: u64) -> (r: Option<u64>)
        ensures
            r == {
                let j = entity_index_of(self.levels@, id, 0);
                if j >= 0 {
                    Some(self.levels@[j].1.experience)
                } else {
                    None::<u64>
                }
            },
    {
        match find_entity(&self.levels, id) {
            Some(j) => Some(self.levels[j].1.experience),
            None => None,
        }
    }

    /// First phase of a tick: wave spawning, enemy movement, tower
    /// targeting and fire, and smooth aiming, exactly the composition of
    /// their stage specs.
    #[verifier::rlimit(100)]
    fn tick_phase_combat(&mut self, dt_ms: u64)
        requires
            old(self).columns_wf(),
            1 <= dt_ms <= 1_000_000,
            old(self).next_id < u64::MAX,
        ensures
            final(self).model() == tick_aim_stage(
                tick_towers_stage(
                    tick_move_stage(tick_wave_stage(old(self).model(), dt_ms as int), dt_ms as int),
                    dt_ms as int,
                ),
                dt_ms as int,
            ),
            final(self).columns_wf(),
            final(self).paths == old(self).paths,
            final(self).tower_ids == old(self).tower_ids,
            final(self).tower_positions == old(self).tower_positions,
            final(self).towers@.len() == old(self).towers@.len(),
            final(self).next_id >= old(self).next_id,
            final(self).player == old(self).player,
            final(self).death_events == old(self).death_events,
            final(self).exp_bus.level_up == old(self).exp_bus.level_up,
            final(self).enemies@.len() <= old(self).enemies@.len() + 1,
            final(self).wave_manager.model() == crate::waves::wave_step_spec(
                old(self).wave_manager.model(),
                old(self).start_wave_requested,
                dt_ms as int,
                old(self).enemies@.len() as int,
            ).0,
            final(self).wave_manager.current_wave_index >= old(self).wave_manager.current_wave_index,
            !final(self).start_wave_requested,
    {
        let ghost m0 = old(self).model();
        let dt = dt_ms;
        // Wave spawning comes first, so a spawned enemy is visible to
        // everything after it in the same tick.
        let trigger = self.start_wave_requested;
        self.start_wave_requested = false;
        spawn_enemies_from_waves(
            &mut self.wave_manager,
            trigger,
            dt,
            &mut self.next_id,
            &mut self.enemy_ids,
            &mut self.enemies,
        );
        let ghost m1 = tick_wave_stage(m0, dt as int);
        proof {
            assert forall|k: int| 0 <= k < self.enemies@.len() implies (
            #[trigger] self.enemies@[k]).wf() by {
                if k == self.enemies@.len() - 1 && self.enemies@.len() == old(
                    self,
                ).enemies@.len() + 1 {
                    assert(old(self).wave_manager.wf());
                }
            }
            assert(self.model() =~= m1);
        }
        // Movement before targeting.
        move_enemies(&mut self.enemies, dt);
        let ghost m2 = tick_move_stage(m1, dt as int);
        proof {
            assert(self.enemies@ =~= Seq::new(
                m1.enemies.len(),
                |k: int| moved_enemy(m1.enemies[k], dt as int),
            ));
            assert(self.model() =~= m2);
        }
        // Towers scan, aim and fire.
        operate_towers(
            dt,
            &mut self.exp_bus,
            &mut self.towers,
            &self.tower_ids,
            &self.tower_positions,
            &mut self.tower_controllers,
            &mut self.enemies,
            &self.enemy_ids,
            &self.paths,
            &mut self.lasers,
            &mut self.laser_locks,
            &mut self.laser_ids,
            &mut self.projectiles,
            &mut self.projectile_positions,
            &mut self.projectile_ids,
            &mut self.next_id,
        );
        let ghost m3 = tick_towers_stage(m2, dt as int);
        proof {
            assert(self.model() =~= m3);
        }
        tower_smooth_look(dt, &mut self.towers, &mut self.tower_controllers);
        let ghost m4 = tick_aim_stage(m3, dt as int);
        proof {
            assert(self.towers@ =~= Seq::new(
                m3.towers.len(),
                |k: int|
                    if aim_step_fits(m3.towers[k], m3.tower_controllers[k], dt as int) {
                        Tower {
                            aim_position: aim_after(
                                m3.towers[k],
                                m3.tower_controllers[k],
                                dt as int,
                            ),
                            ..m3.towers[k]
                        }
                    } else {
                        m3.towers[k]
                    },
            ));
            assert forall|k: int| 0 <= k < m3.tower_controllers.len() implies
                #[trigger] self.tower_controllers@[k] == (
                if aim_step_fits(m3.towers[k], m3.tower_controllers[k], dt as int) {
                    crate::pid_controller::pid_after(
                        m3.tower_controllers[k],
                        dt as int,
                        m3.towers[k].aim_position,
                    )
                } else {
                    m3.tower_controllers[k]
                }) by {
                assert(self.towers@.len() == m3.towers.len());
                assert(self.tower_controllers@.len() == m3.tower_controllers.len());
                if aim_step_fits(m3.towers[k], m3.tower_controllers[k], dt as int) {
                    assert(self.towers@[k] == (Tower {
                        aim_position: aim_after(m3.towers[k], m3.tower_controllers[k], dt as int),
                        ..m3.towers[k]
                    }));
                    assert(self.tower_controllers@[k] == crate::pid_controller::pid_after(
                        m3.tower_controllers[k],
                        dt as int,
                        m3.towers[k].aim_position,
                    ));
                } else {
                    assert(self.towers@[k] == m3.towers[k]);
                    assert(self.tower_controllers@[k] == m3.tower_controllers[k]);
                }
            }
            assert(self.tower_controllers@ =~= Seq::new(
                m3.tower_controllers.len(),
                |k: int|
                    if aim_step_fits(m3.towers[k], m3.tower_controllers[k], dt as int) {
                        crate::pid_controller::pid_after(
                            m3.tower_controllers[k],
                            dt as int,
                            m3.towers[k].aim_position,
                        )
                    } else {
                        m3.tower_controllers[k]
                    },
            ));
            assert(self.model() =~= m4);
        }
        proof {
            assert(self.columns_wf());
        }
    }

    /// Second phase of a tick: projectile guidance, collision resolution,
    /// retargeting, and beam upkeep and expiry, exactly the composition of
    /// their stage specs.
    #[verifier::rlimit(100)]
    fn tick_phase_resolution(&mut self, dt_ms: u64)
        requires
            old(self).columns_wf(),
            1 <= dt_ms <= 1_000_000,
        ensures
            final(self).model() == tick_beam_stage(
                tick_retarget_stage(
                    tick_collision_stage(tick_projectile_stage(old(self).model(), dt_ms as int)),
                ),
                dt_ms as int,
            ),
            final(self).columns_wf(),
            final(self).paths == old(self).paths,
            final(self).tower_ids == old(self).tower_ids,
            final(self).tower_positions == old(self).tower_positions,
            final(self).towers == old(self).towers,
            final(self).next_id == old(self).next_id,
            final(self).player == old(self).player,
            final(self).death_events == old(self).death_events,
            final(self).exp_bus.level_up == old(self).exp_bus.level_up,
            final(self).enemies@.len() == old(self).enemies@.len(),
            final(self).wave_manager == old(self).wave_manager,
            final(self).start_wave_requested == old(self).start_wave_requested,
    {
        let dt = dt_ms;
        let ghost p0 = old(self).model();
        // Projectiles steer, resolve collisions, and retarget.
        move_projectiles(
            dt,
            &mut self.projectiles,
            &mut self.projectile_positions,
            &self.enemy_ids,
            &self.enemies,
            &self.paths,
        );
        let ghost p1 = tick_projectile_stage(p0, dt as int);
        proof {
            assert(self.projectiles@ =~= Seq::new(
                p0.projectiles.len(),
                |k: int| projectile_step_spec(
                    p0.projectiles[k],
                    p0.projectile_positions[k],
                    p0.enemy_ids,
                    p0.enemies,
                    p0.paths,
                    dt as int,
                ).0,
            ));
            assert forall|k: int| 0 <= k < p0.projectile_positions.len() implies
                #[trigger] self.projectile_positions@[k] == projectile_step_spec(
                p0.projectiles[k],
                p0.projectile_positions[k],
                p0.enemy_ids,
                p0.enemies,
                p0.paths,
                dt as int,
            ).1 by {
                assert((self.projectiles@[k], self.projectile_positions@[k])
                    == projectile_step_spec(
                    p0.projectiles[k],
                    p0.projectile_positions[k],
                    p0.enemy_ids,
                    p0.enemies,
                    p0.paths,
                    dt as int,
                ));
            }
            assert(self.projectile_positions@ =~= Seq::new(
                p0.projectile_positions.len(),
                |k: int| projectile_step_spec(
                    p0.projectiles[k],
                    p0.projectile_positions[k],
                    p0.enemy_ids,
                    p0.enemies,
                    p0.paths,
                    dt as int,
                ).1,
            ));
            assert(self.model() =~= p1);
        }
        let ghost pre_coll_enemies = self.enemies@;
        let ghost pre_coll_projs = self.projectiles@;
        let ghost pre_coll_pos = self.projectile_positions@;
        let ghost p2 = tick_collision_stage(p1);
        projectile_collisions(
            &mut self.projectiles,
            &mut self.projectile_positions,
            &mut self.projectile_ids,
            &mut self.enemies,
            &self.paths,
        );
        proof {
            let hits = Seq::new(pre_coll_projs.len(), |k: int| crate::projectile::first_hit_index(
                pre_coll_pos[k],
                pre_coll_enemies,
                self.paths@,
                0,
            ));
            assert forall|k: int| 0 <= k < hits.len() implies #[trigger] hits[k]
                < pre_coll_enemies.len() by {
                lemma_first_hit_index_range(pre_coll_pos[k], pre_coll_enemies, self.paths@, 0);
            }
            lemma_damage_fold_frame(
                pre_coll_enemies,
                pre_coll_projs,
                hits,
                pre_coll_projs.len() as int,
            );
            let keep = Seq::new(pre_coll_projs.len(), |k: int| hits[k] < 0);
            let n = pre_coll_projs.len() as int;
            lemma_masked_elems(pre_coll_projs, keep, n);
            lemma_masked_elems(pre_coll_pos, keep, n);
            assert forall|k: int| 0 <= k < self.projectiles@.len() implies (
            #[trigger] self.projectiles@[k]).wf() by {
                assert(self.projectiles@[k] == masked(pre_coll_projs, keep, n)[k]);
                assert(pre_coll_projs[crate::registry::masked_src(keep, n, k)].wf());
            }
            assert forall|k: int| 0 <= k < self.projectile_positions@.len() implies (
            #[trigger] self.projectile_positions@[k]).in_bounds() by {
                assert(self.projectile_positions@[k] == masked(pre_coll_pos, keep, n)[k]);
                assert(pre_coll_pos[crate::registry::masked_src(keep, n, k)].in_bounds());
            }
            assert(hits =~= Seq::new(
                p1.projectiles.len(),
                |k: int| first_hit_index(p1.projectile_positions[k], p1.enemies, p1.paths, 0),
            ));
            assert(keep =~= Seq::new(
                p1.projectiles.len(),
                |k: int| Seq::new(
                    p1.projectiles.len(),
                    |j: int| first_hit_index(
                        p1.projectile_positions[j],
                        p1.enemies,
                        p1.paths,
                        0,
                    ),
                )[k] < 0,
            ));
            assert(self.model() =~= p2);
        }
        let ghost pre_rt_projs = self.projectiles@;
        let ghost pre_rt_pos = self.projectile_positions@;
        let ghost p3 = tick_retarget_stage(p2);
        retarget_projectiles(
            &mut self.projectiles,
            &mut self.projectile_positions,
            &mut self.projectile_ids,
            &self.enemy_ids,
            &self.enemies,
            &self.paths,
        );
        proof {
            let stepped = Seq::new(pre_rt_projs.len(), |k: int| crate::projectile::retarget_step_spec(
                pre_rt_projs[k],
                pre_rt_pos[k],
                self.enemy_ids@,
                self.enemies@,
                self.paths@,
            ));
            let keep = Seq::new(pre_rt_projs.len(), |k: int| stepped[k] is Some);
            let replaced = Seq::new(pre_rt_projs.len(), |k: int| match stepped[k] {
                Some(p) => p,
                None => pre_rt_projs[k],
            });
            assert forall|k: int| 0 <= k < replaced.len() implies (#[trigger] replaced[k]).wf() by {
                assert(pre_rt_projs[k].wf());
            }
            let n = pre_rt_projs.len() as int;
            lemma_masked_elems(replaced, keep, n);
            lemma_masked_elems(pre_rt_pos, keep, n);
            assert forall|k: int| 0 <= k < self.projectiles@.len() implies (
            #[trigger] self.projectiles@[k]).wf() by {
                assert(self.projectiles@[k] == masked(replaced, keep, n)[k]);
                assert(replaced[crate::registry::masked_src(keep, n, k)].wf());
            }
            assert forall|k: int| 0 <= k < self.projectile_positions@.len() implies (
            #[trigger] self.projectile_positions@[k]).in_bounds() by {
                assert(self.projectile_positions@[k] == masked(pre_rt_pos, keep, n)[k]);
                assert(pre_rt_pos[crate::registry::masked_src(keep, n, k)].in_bounds());
            }
            assert(stepped =~= Seq::new(
                p2.projectiles.len(),
                |k: int| retarget_step_spec(
                    p2.projectiles[k],
                    p2.projectile_positions[k],
                    p2.enemy_ids,
                    p2.enemies,
                    p2.paths,
                ),
            ));
            assert(replaced =~= Seq::new(
                p2.projectiles.len(),
                |k: int| match Seq::new(
                    p2.projectiles.len(),
                    |j: int| retarget_step_spec(
                        p2.projectiles[j],
                        p2.projectile_positions[j],
                        p2.enemy_ids,
                        p2.enemies,
                        p2.paths,
                    ),
                )[k] {
                    Some(p) => p,
                    None => p2.projectiles[k],
                },
            ));
            assert(self.model() =~= p3);
        }
        // Beams track their endpoints, then expire.
        update_laser_locks(
            &mut self.lasers,
            &self.laser_locks,
            &self.tower_ids,
            &self.tower_positions,
            &self.enemy_ids,
            &self.enemies,
            &self.paths,
        );
        let ghost refreshed = Seq::new(
            p3.lasers.len(),
            |k: int| match lock_endpoints_spec(
                p3.laser_locks[k],
                p3.tower_ids,
                p3.tower_positions,
                p3.enemy_ids,
                p3.enemies,
                p3.paths,
            ) {
                Some(ends) => TowerLaser { start_pos: ends.0, end_pos: ends.1, ..p3.lasers[k] },
                None => TowerLaser { override_expired: true, ..p3.lasers[k] },
            },
        );
        proof {
            assert(self.lasers@ =~= refreshed);
        }
        let ghost pre_cl_lasers = self.lasers@;
        let ghost p4 = tick_beam_stage(p3, dt as int);
        clean_up_expired_lasers(dt, &mut self.lasers, &mut self.laser_locks, &mut self.laser_ids);
        proof {
            assert(Seq::new(
                pre_cl_lasers.len(),
                |k: int| laser_survives(pre_cl_lasers[k], dt as int),
            ) =~= Seq::new(p3.lasers.len(), |k: int| laser_survives(refreshed[k], dt as int)));
            assert(Seq::new(
                pre_cl_lasers.len(),
                |k: int| ticked_laser(pre_cl_lasers[k], dt as int),
            ) =~= Seq::new(p3.lasers.len(), |k: int| ticked_laser(refreshed[k], dt as int)));
            assert(self.model() =~= p4);
        }
        proof {
            assert(self.columns_wf());
        }
    }

    /// Third phase of a tick: death collection and reward, experience
    /// accumulation, leveling, fire-rate recomputation, and the event
    /// buffer swap, exactly the composition of their stage specs.
    #[verifier::rlimit(100)]
    fn tick_phase_rewards(&mut self)
        requires
            old(self).columns_wf(),
            old(self).player.money + old(self).enemies@.len() + old(self).death_events@.len()
                <= u64::MAX,
        ensures
            final(self).model() == tick_level_stage(tick_death_stage(old(self).model())),
            final(self).wf(),
            final(self).paths == old(self).paths,
            final(self).tower_ids == old(self).tower_ids,
            final(self).tower_positions == old(self).tower_positions,
            final(self).towers@.len() == old(self).towers@.len(),
            final(self).next_id == old(self).next_id,
            final(self).player.money >= old(self).player.money,
            final(self).enemies@.len() <= old(self).enemies@.len(),
            final(self).wave_manager == old(self).wave_manager,
            final(self).start_wave_requested == old(self).start_wave_requested,
    {
        let ghost q0 = old(self).model();
        // Deaths are collected and rewarded.
        let ghost pre_mh_enemies = self.enemies@;
        let ghost pre_mh_ids = self.enemy_ids@;
        monitor_health(&mut self.enemy_ids, &mut self.enemies, &mut self.death_events);
        proof {
            let keep = Seq::new(pre_mh_enemies.len(), |k: int| pre_mh_enemies[k].health > 0);
            let dead = Seq::new(pre_mh_enemies.len(), |k: int| pre_mh_enemies[k].health == 0);
            let events = Seq::new(pre_mh_enemies.len(), |k: int| EventEnemyDeath {
                enemy: pre_mh_ids[k],
            });
            let n = pre_mh_enemies.len() as int;
            lemma_masked_elems(pre_mh_enemies, keep, n);
            assert forall|k: int| 0 <= k < self.enemies@.len() implies (
            #[trigger] self.enemies@[k]).wf() by {
                assert(self.enemies@[k] == masked(pre_mh_enemies, keep, n)[k]);
                assert(pre_mh_enemies[crate::registry::masked_src(keep, n, k)].wf());
            }
            crate::registry::lemma_masked_len_le(pre_mh_enemies, keep, n);
            crate::registry::lemma_masked_len_le(events, dead, n);
            assert(keep =~= Seq::new(q0.enemies.len(), |k: int| q0.enemies[k].health > 0));
            assert(dead =~= Seq::new(q0.enemies.len(), |k: int| q0.enemies[k].health == 0));
            assert(events =~= Seq::new(
                q0.enemies.len(),
                |k: int| EventEnemyDeath { enemy: q0.enemy_ids[k] },
            ));
        }
        let ghost q1 = tick_death_stage(q0);
        process_enemy_death(&mut self.death_events, &mut self.player);
        proof {
            assert(self.model() =~= q1);
        }
        // Experience accumulates, levels recompute, stats follow.
        process_experience_gain(&self.exp_bus, &mut self.levels);
        let ghost accumulated = self.levels@;
        process_level_ups(&mut self.exp_bus, &mut self.levels);
        proof {
            assert forall|k: int| 0 <= k < self.levels@.len() implies (
            #[trigger] self.levels@[k]).1.level <= 64 by {
                lemma_level_of_le_64(self.levels@[k].1.experience as nat);
            }
            assert(accumulated == apply_exp_events(q1.levels, q1.exp_gains));
            assert(self.levels@ =~= Seq::new(
                accumulated.len(),
                |k: int| (
                    accumulated[k].0,
                    ExpLevel {
                        experience: accumulated[k].1.experience,
                        level: level_of(accumulated[k].1.experience as nat) as u64,
                    },
                ),
            ));
        }
        handle_tower_level_up(&self.exp_bus, &self.tower_ids, &mut self.towers, &self.levels);
        // The buffer swap comes last, after every reader has run.
        update_exp_bus(&mut self.exp_bus);
        proof {
            assert(self.model() =~= tick_level_stage(q1));
            assert(self.wf());
        }
    }

    /// Drives one simulated tick in the documented order: the final state
    /// is exactly [`tick_spec`] of the starting one.  The world stays
    /// well-formed; tracks, tower identities and positions never change;
    /// ids and the wave index only move forward; money never shrinks during
    /// a tick; the start trigger is consumed; and the tick ends with the
    /// event buffers swapped out empty.
    pub fn advance_tick(&mut self, dt_ms: u64)
        requires
            old(self).wf(),
            1 <= dt_ms <= 1_000_000,
            old(self).next_id < u64::MAX,
            old(self).player.money + old(self).enemies@.len() + 1 <= u64::MAX,
        ensures
            final(self).model() == tick_spec(old(self).model(), dt_ms as int),
            final(self).wf(),
            final(self).paths == old(self).paths,
            final(self).tower_ids == old(self).tower_ids,
            final(self).tower_positions == old(self).tower_positions,
            final(self).towers@.len() == old(self).towers@.len(),
            final(self).next_id >= old(self).next_id,
            final(self).player.money >= old(self).player.money,
            final(self).wave_manager.model() == crate::waves::wave_step_spec(
                old(self).wave_manager.model(),
                old(self).start_wave_requested,
                dt_ms as int,
                old(self).enemies@.len() as int,
            ).0,
            final(self).wave_manager.current_wave_index >= old(self).wave_manager.current_wave_index,
            !final(self).start_wave_requested,
            final(self).enemies@.len() <= old(self).enemies@.len() + 1,
    {
        self.tick_phase_combat(dt_ms);
        self.tick_phase_resolution(dt_ms);
        self.tick_phase_rewards();
    }
}

} // verus!
