//! Wave scheduling: a finite-state scheduler that paces enemy spawning
//! across successive waves.
//!
//! The scheduler is `Pending` until an external start trigger arms the
//! spawn-interval timer, `InProgress` while it spawns one enemy per elapsed
//! interval, `WaitingForEnemiesToDie` once the wave's quota is spawned, and
//! `Finished` when the field is clear; finishing advances to the next wave
//! or stays `Finished` forever when none remain.  At most one transition
//! happens per tick, except that arming the timer is atomic with the
//! `Pending` to `InProgress` transition.

use vstd::prelude::*;

use crate::enemy::{Enemy, EnemyCreateOptions, SPEED_LIMIT};

verus! {

/// A repeating interval timer for spawning, in milliseconds.
#[derive(Clone, Copy, Debug, PartialEq, Eq, Structural)]
pub struct SpawnTimer {
    pub duration_ms: u64,
    pub elapsed_ms: u64,
}

/// One configured batch of hostile spawns.
#[derive(Clone, Copy, Debug, PartialEq, Eq, Structural)]
pub struct WaveStage {
    /// How many enemies this wave spawns in total.
    pub enemy_count: u32,
    /// Interval between spawns, in milliseconds.
    pub spawn_rate: u64,
    /// Stat template for every enemy of this wave.
    pub template: EnemyCreateOptions,
    /// How many enemies have been spawned so far in this wave.
    pub spawned: u32,
}

impl Default for WaveStage {
    /// An empty wave with a half-second spawn interval.
    fn default() -> (r: Self)
        ensures
            r == (WaveStage {
                enemy_count: 0,
                spawn_rate: 500,
                template: EnemyCreateOptions { health: 0, speed: 0, path_id: 0 },
                spawned: 0,
            }),
    {
        WaveStage {
            enemy_count: 0,
            spawn_rate: 500,
            template: EnemyCreateOptions { health: 0, speed: 0, path_id: 0 },
            spawned: 0,
        }
    }
}

impl WaveStage {
    /// A wave of `enemy_count` enemies spawned every `spawn_rate`
    /// milliseconds from the given template, none spawned yet.
    pub fn new(enemy_count: u32, spawn_rate: u64, template: EnemyCreateOptions) -> (r: Self)
        ensures
            r == (WaveStage { enemy_count, spawn_rate, template, spawned: 0 }),
    {
        WaveStage { enemy_count, spawn_rate, template, spawned: 0 }
    }
}

/// One wave of an encounter.
#[derive(Clone, Copy, Debug, PartialEq, Eq, Structural)]
pub struct Wave {
    pub stage: WaveStage,
}

/// Scheduler state; see the module documentation for the transitions.
#[derive(Clone, Copy, Debug, PartialEq, Eq, Structural)]
pub enum WaveStatus {
    Pending,
    InProgress,
    WaitingForEnemiesToDie,
    Finished,
}

/// The wave scheduler.
pub struct WaveManager {
    pub waves: Vec<Wave>,
    pub current_wave_index: usize,
    pub enemy_spawn_timer: SpawnTimer,
    pub wave_status: WaveStatus,
}

/// Spec-level snapshot of a scheduler, with the wave list as a sequence.
pub struct WaveManagerModel {
    pub waves: Seq<Wave>,
    pub current_wave_index: int,
    pub enemy_spawn_timer: SpawnTimer,
    pub wave_status: WaveStatus,
}

/// What one scheduler tick does: the successor snapshot, and the template
/// to spawn one enemy from, if this tick spawns.
pub open spec fn wave_step_spec(
    m: WaveManagerModel,
    start_trigger: bool,
    dt: int,
    live_enemies: int,
) -> (WaveManagerModel, Option<EnemyCreateOptions>) {
    if m.current_wave_index >= m.waves.len() {
        (m, None)
    } else {
        match m.wave_status {
            WaveStatus::Pending => {
                if start_trigger {
                    (
                        WaveManagerModel {
                            enemy_spawn_timer: SpawnTimer {
                                duration_ms: m.waves[m.current_wave_index].stage.spawn_rate,
                                elapsed_ms: 0,
                            },
                            wave_status: WaveStatus::InProgress,
                            ..m
                        },
                        None,
                    )
                } else {
                    (m, None)
                }
            },
            WaveStatus::InProgress => {
                let elapsed = if m.enemy_spawn_timer.elapsed_ms + dt <= u64::MAX {
                    m.enemy_spawn_timer.elapsed_ms + dt
                } else {
                    u64::MAX as int
                };
                if elapsed >= m.enemy_spawn_timer.duration_ms {
                    let stage = m.waves[m.current_wave_index].stage;
                    if stage.spawned < stage.enemy_count {
                        (
                            WaveManagerModel {
                                enemy_spawn_timer: SpawnTimer {
                                    duration_ms: m.enemy_spawn_timer.duration_ms,
                                    elapsed_ms: 0,
                                },
                                waves: m.waves.update(
                                    m.current_wave_index,
                                    Wave {
                                        stage: WaveStage {
                                            spawned: (stage.spawned + 1) as u32,
                                            ..stage
                                        },
                                    },
                                ),
                                ..m
                            },
                            Some(stage.template),
                        )
                    } else {
                        (
                            WaveManagerModel {
                                enemy_spawn_timer: SpawnTimer {
                                    duration_ms: m.enemy_spawn_timer.duration_ms,
                                    elapsed_ms: 0,
                                },
                                wave_status: WaveStatus::WaitingForEnemiesToDie,
                                ..m
                            },
                            None,
                        )
                    }
                } else {
                    (
                        WaveManagerModel {
                            enemy_spawn_timer: SpawnTimer {
                                duration_ms: m.enemy_spawn_timer.duration_ms,
                                elapsed_ms: elapsed as u64,
                            },
                            ..m
                        },
                        None,
                    )
                }
            },
            WaveStatus::WaitingForEnemiesToDie => {
                if live_enemies == 0 {
                    (WaveManagerModel { wave_status: WaveStatus::Finished, ..m }, None)
                } else {
                    (m, None)
                }
            },
            WaveStatus::Finished => {
                let next = m.current_wave_index + 1;
                (
                    WaveManagerModel {
                        current_wave_index: next,
                        wave_status: if next < m.waves.len() {
                            WaveStatus::Pending
                        } else {
                            WaveStatus::Finished
                        },
                        ..m
                    },
                    None,
                )
            },
        }
    }
}

/// The enemy a stat template spawns.
pub open spec fn spawned_enemy(t: EnemyCreateOptions) -> Enemy {
    Enemy {
        health: t.health,
        max_health: t.health,
        path_id: t.path_id,
        path_pos: 0,
        speed: t.speed,
    }
}

impl WaveManager {
    /// This scheduler, as a spec-level snapshot.
    pub open spec fn model(self) -> WaveManagerModel {
        WaveManagerModel {
            waves: self.waves@,
            current_wave_index: self.current_wave_index as int,
            enemy_spawn_timer: self.enemy_spawn_timer,
            wave_status: self.wave_status,
        }
    }

    /// The wave index never runs past the list, and every wave's template
    /// respects the speed limit.
    pub open spec fn wf(self) -> bool {
        &&& self.current_wave_index <= self.waves@.len()
        &&& forall|k: int|
            0 <= k < self.waves@.len() ==> (#[trigger] self.waves@[k]).stage.template.speed
                <= SPEED_LIMIT
    }

    /// A scheduler holding the given waves, pending on the first.
    pub fn new(waves: Vec<Wave>) -> (r: WaveManager)
        requires
            forall|k: int|
                0 <= k < waves@.len() ==> (#[trigger] waves@[k]).stage.template.speed
                    <= SPEED_LIMIT,
        ensures
            r.waves@ == waves@,
            r.current_wave_index == 0,
            r.enemy_spawn_timer == (SpawnTimer { duration_ms: 500, elapsed_ms: 0 }),
            r.wave_status == WaveStatus::Pending,
            r.wf(),
    {
        WaveManager {
            waves,
            current_wave_index: 0,
            enemy_spawn_timer: SpawnTimer { duration_ms: 500, elapsed_ms: 0 },
            wave_status: WaveStatus::Pending,
        }
    }

    /// Current scheduler status.
    pub fn wave_status(&self) -> (r: WaveStatus)
        ensures
            r == self.wave_status,
    {
        self.wave_status
    }

    /// The 1-based number of the current wave, clamped to the number of
    /// waves.
    pub fn current_wave_num(&self) -> (r: usize)
        requires
            self.wf(),
        ensures
            r == if self.current_wave_index + 1 <= self.waves@.len() {
                self.current_wave_index + 1
            } else {
                self.waves@.len() as int
            },
    {
        if self.current_wave_index < self.waves.len() {
            self.current_wave_index + 1
        } else {
            self.waves.len()
        }
    }

    /// The active wave.
    pub fn current_wave(&self) -> (r: &Wave)
        requires
            self.current_wave_index < self.waves@.len(),
        ensures
            *r == self.waves@[self.current_wave_index as int],
    {
        &self.waves[self.current_wave_index]
    }

    /// Mutable access to the active wave.
    pub fn current_wave_mut(&mut self) -> (r: &mut Wave)
        requires
            old(self).current_wave_index < old(self).waves@.len(),
        ensures
            *r == old(self).waves@[old(self).current_wave_index as int],
            final(self).waves@ == old(self).waves@.update(
                old(self).current_wave_index as int,
                *final(r),
            ),
            final(self).current_wave_index == old(self).current_wave_index,
            final(self).enemy_spawn_timer == old(self).enemy_spawn_timer,
            final(self).wave_status == old(self).wave_status,
    {
        let i = self.current_wave_index;
        &mut self.waves[i]
    }
}

/// One scheduler tick.  Reads the external start trigger and the live enemy
/// count, advances the state machine by exactly [`wave_step_spec`], and, on
/// a spawning tick, creates one enemy from the wave's template under a
/// fresh id.
pub fn spawn_enemies_from_waves(
    wave_manager: &mut WaveManager,
    start_trigger: bool,
    dt_ms: u64,
    next_id: &mut u64,
    enemy_ids: &mut Vec<u64>,
    enemies: &mut Vec<Enemy>,
)
    requires
        old(wave_manager).wf(),
        dt_ms <= 1_000_000_000,
        *old(next_id) < u64::MAX,
        old(enemy_ids)@.len() == old(enemies)@.len(),
    ensures
        final(wave_manager).model() == wave_step_spec(
            old(wave_manager).model(),
            start_trigger,
            dt_ms as int,
            old(enemies)@.len() as int,
        ).0,
        final(wave_manager).wf(),
        ({
            let spawn = wave_step_spec(
                old(wave_manager).model(),
                start_trigger,
                dt_ms as int,
                old(enemies)@.len() as int,
            ).1;
            match spawn {
                Some(t) => final(enemies)@ == old(enemies)@.push(spawned_enemy(t))
                    && final(enemy_ids)@ == old(enemy_ids)@.push(*old(next_id)) && *final(next_id)
                    == *old(next_id) + 1,
                None => final(enemies)@ == old(enemies)@ && final(enemy_ids)@ == old(enemy_ids)@
                    && *final(next_id) == *old(next_id),
            }
        }),
        final(enemy_ids)@.len() == final(enemies)@.len(),
{
    if wave_manager.current_wave_index >= wave_manager.waves.len() {
        return;
    }
    match wave_manager.wave_status {
        WaveStatus::Pending => {
            if start_trigger {
                let rate = wave_manager.waves[wave_manager.current_wave_index].stage.spawn_rate;
                wave_manager.enemy_spawn_timer = SpawnTimer { duration_ms: rate, elapsed_ms: 0 };
                wave_manager.wave_status = WaveStatus::InProgress;
            }
        },
        WaveStatus::InProgress => {
            let elapsed = wave_manager.enemy_spawn_timer.elapsed_ms.saturating_add(dt_ms);
            if elapsed >= wave_manager.enemy_spawn_timer.duration_ms {
                wave_manager.enemy_spawn_timer = SpawnTimer {
                    duration_ms: wave_manager.enemy_spawn_timer.duration_ms,
                    elapsed_ms: 0,
                };
                let i = wave_manager.current_wave_index;
                let stage = wave_manager.waves[i].stage;
                if stage.spawned < stage.enemy_count {
                    wave_manager.waves[i] = Wave {
                        stage: WaveStage { spawned: stage.spawned + 1, ..stage },
                    };
                    let enemy = Enemy::new(stage.template);
                    enemy_ids.push(*next_id);
                    enemies.push(enemy);
                    *next_id = *next_id + 1;
                } else {
                    wave_manager.wave_status = WaveStatus::WaitingForEnemiesToDie;
                }
            } else {
                wave_manager.enemy_spawn_timer = SpawnTimer {
                    duration_ms: wave_manager.enemy_spawn_timer.duration_ms,
                    elapsed_ms: elapsed,
                };
            }
        },
        WaveStatus::WaitingForEnemiesToDie => {
            if enemies.len() == 0 {
                wave_manager.wave_status = WaveStatus::Finished;
            }
        },
        WaveStatus::Finished => {
            let next = wave_manager.current_wave_index + 1;
            wave_manager.current_wave_index = next;
            wave_manager.wave_status = if next < wave_manager.waves.len() {
                WaveStatus::Pending
            } else {
                WaveStatus::Finished
            };
        },
    }
}

} // verus!
