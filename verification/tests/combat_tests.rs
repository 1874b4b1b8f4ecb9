use tower_defense::enemy::{Enemy, EnemyCreateOptions};
use tower_defense::geometry::Vec3i;
use tower_defense::laser::{
    clean_up_expired_lasers, update_laser_locks, TowerLaser, TowerLaserLock,
};
use tower_defense::pid_controller::PidControlled;
use tower_defense::projectile::{
    move_projectiles, projectile_collisions, retarget_projectiles, TowerProjectile,
};
use tower_defense::towers::{select_target, Tower, TowerAttackType, TowerTargeting};
use tower_defense::track::Path;
use tower_defense::waves::{Wave, WaveStage, WaveStatus};
use tower_defense::world::World;

fn p(x: i64, y: i64, z: i64) -> Vec3i {
    Vec3i::new(x, y, z)
}

fn straight_path() -> Path {
    Path::new(0, vec![p(0, 0, 0), p(100, 0, 0)])
}

fn enemy_at(path_pos_units: u64) -> Enemy {
    let mut e = Enemy::new(EnemyCreateOptions { health: 20, speed: 1000, path_id: 0 });
    e.path_pos = path_pos_units * 1_000_000;
    e
}

#[test]
fn test_targeting_first_picks_longest_progress() {
    // Two combatants at path positions 3.0 and 7.0, both in range: the
    // `First` policy selects the one at 7.0, closest to its goal.
    let paths = vec![straight_path()];
    let enemies = vec![enemy_at(3), enemy_at(7)];
    let sel = select_target(TowerTargeting::First, p(5, 0, 0), 10, &enemies, &paths);
    assert_eq!(sel, Some(1));
}

#[test]
fn test_targeting_closest_picks_min_distance() {
    let paths = vec![straight_path()];
    let enemies = vec![enemy_at(3), enemy_at(7)];
    // The tower sits at x = 2: the enemy at 3.0 is nearer.
    let sel = select_target(TowerTargeting::Closest, p(2, 0, 0), 10, &enemies, &paths);
    assert_eq!(sel, Some(0));
}

#[test]
fn test_targeting_ignores_dead_and_out_of_range() {
    let paths = vec![straight_path()];
    let mut dead = enemy_at(3);
    dead.hurt(999);
    let far = enemy_at(90);
    let enemies = vec![dead, far];
    let sel = select_target(TowerTargeting::First, p(5, 0, 0), 10, &enemies, &paths);
    assert_eq!(sel, None);
}

#[test]
fn test_attack_rate_scales_with_level() {
    let mut tower = Tower::new();
    assert_eq!(tower.attack_rate(0), 1000);
    assert_eq!(tower.attack_rate(5), 1500);
    tower.update_stats(5);
    // Cooldown is 1/rate seconds: 1500 milli-attacks per second give a
    // period of two thirds of a second, kept in nanoseconds.
    assert_eq!(tower.attack_timer.period_ns, 666_666_666);
}

#[test]
fn test_higher_level_fires_strictly_faster() {
    // Even at a rate where whole milliseconds would collide, the
    // nanosecond period keeps a higher level strictly faster.
    let mut slow = Tower::new();
    slow.base_attack_rate = 300_000;
    let mut fast = slow;
    slow.update_stats(0);
    fast.update_stats(1);
    assert_eq!(slow.attack_timer.period_ns, 3_333_333);
    assert_eq!(fast.attack_timer.period_ns, 3_332_222);
    assert!(fast.attack_timer.period_ns < slow.attack_timer.period_ns);
}

#[test]
fn test_projectile_homing_step_and_hit() {
    let paths = vec![straight_path()];
    let enemy_ids: Vec<u64> = vec![3];
    let mut enemies = vec![enemy_at(10)];
    let mut projectiles = vec![TowerProjectile::new(15, 10_000, 3)];
    let mut positions = vec![p(0, 0, 0)];
    let mut ids: Vec<u64> = vec![9];
    // 10 units/s for one second: the projectile covers the 10 units toward
    // the predicted intercept point ahead of the target.
    move_projectiles(1000, &mut projectiles, &mut positions, &enemy_ids, &enemies, &paths);
    assert_eq!(positions[0], p(10_000, 0, 0));
    assert_eq!(projectiles[0].last_pos, Some(p(10_000, 0, 0)));
    // It now overlaps the enemy: the collision applies the damage and the
    // projectile despawns.
    projectile_collisions(&mut projectiles, &mut positions, &mut ids, &mut enemies, &paths);
    assert_eq!(enemies[0].health, 5);
    assert!(projectiles.is_empty());
    assert!(positions.is_empty());
    assert!(ids.is_empty());
}

#[test]
fn test_projectile_retargets_or_despawns() {
    let paths = vec![straight_path()];
    let enemy_ids: Vec<u64> = vec![4];
    let enemies = vec![enemy_at(3)];
    let mut projectiles = vec![TowerProjectile::new(15, 10_000, 99)];
    let mut positions = vec![p(0, 0, 0)];
    let mut ids: Vec<u64> = vec![8];
    // The nominal target is gone: retarget to the nearest remaining enemy.
    retarget_projectiles(&mut projectiles, &mut positions, &mut ids, &enemy_ids, &enemies, &paths);
    assert_eq!(projectiles.len(), 1);
    assert_eq!(projectiles[0].target, 4);
    // With no enemy remaining the projectile despawns instead.
    let no_ids: Vec<u64> = Vec::new();
    let no_enemies: Vec<Enemy> = Vec::new();
    retarget_projectiles(
        &mut projectiles,
        &mut positions,
        &mut ids,
        &no_ids,
        &no_enemies,
        &paths,
    );
    assert!(projectiles.is_empty());
    assert!(ids.is_empty());
}

#[test]
fn test_laser_lock_tracks_and_expires() {
    let paths = vec![straight_path()];
    let tower_ids: Vec<u64> = vec![1];
    let tower_positions = vec![p(5, 5, 0)];
    let enemy_ids: Vec<u64> = vec![2];
    let enemies = vec![enemy_at(7)];
    let mut lasers = vec![TowerLaser {
        start_pos: p(0, 0, 0),
        end_pos: p(0, 0, 0),
        expire_timer: 500,
        override_expired: false,
    }];
    let mut locks = vec![TowerLaserLock { source: 1, target: 2 }];
    let mut ids: Vec<u64> = vec![11];
    // Endpoints refresh from the current entity positions every tick.
    update_laser_locks(
        &mut lasers,
        &locks,
        &tower_ids,
        &tower_positions,
        &enemy_ids,
        &enemies,
        &paths,
    );
    assert_eq!(lasers[0].start_pos, p(5, 5, 0));
    assert_eq!(lasers[0].end_pos, p(7, 0, 0));
    assert!(!lasers[0].override_expired);
    // The countdown runs independently; the beam survives a short tick...
    clean_up_expired_lasers(100, &mut lasers, &mut locks, &mut ids);
    assert_eq!(lasers.len(), 1);
    assert_eq!(lasers[0].expire_timer, 400);
    // ...and a vanished endpoint expires it immediately, with no grace.
    let no_enemies: Vec<Enemy> = Vec::new();
    let no_enemy_ids: Vec<u64> = Vec::new();
    update_laser_locks(
        &mut lasers,
        &locks,
        &tower_ids,
        &tower_positions,
        &no_enemy_ids,
        &no_enemies,
        &paths,
    );
    assert!(lasers[0].override_expired);
    clean_up_expired_lasers(1, &mut lasers, &mut locks, &mut ids);
    assert!(lasers.is_empty());
    assert!(locks.is_empty());
    assert!(ids.is_empty());
}

#[test]
fn test_towers_run_in_order_and_see_earlier_damage() {
    // Two laser towers; the enemy dies to the first tower's shot, so the
    // second tower finds no live candidate in the same tick and holds fire.
    let path = Path::new(0, vec![p(0, 0, 0), p(100, 0, 0)]);
    let waves = vec![Wave {
        stage: WaveStage::new(1, 500, EnemyCreateOptions { health: 15, speed: 1000, path_id: 0 }),
    }];
    let mut w = World::new(vec![path], waves);
    let first_tower = w.add_tower(Tower::new(), p(0, 0, 0), PidControlled::new(100, 0, 10));
    let second_tower = w.add_tower(Tower::new(), p(1, 0, 0), PidControlled::new(100, 0, 10));
    w.start_active_wave();
    w.advance_tick(500);
    // The enemy spawns and both cooldowns complete, but it is dead after
    // the first tower's attack: only that tower fired and earned
    // experience, and the kill paid out.
    w.advance_tick(500);
    assert_eq!(w.combatant_health(3), None);
    assert_eq!(w.player.money(), 1);
    assert_eq!(w.emplacement_experience(first_tower), Some(1));
    assert_eq!(w.emplacement_experience(second_tower), Some(0));
}

#[test]
fn test_world_full_tick_cycle() {
    // One laser tower beside the track, one wave of a single enemy.
    let path = Path::new(0, vec![p(0, 0, 0), p(100, 0, 0)]);
    let waves = vec![Wave {
        stage: WaveStage::new(1, 500, EnemyCreateOptions { health: 20, speed: 1000, path_id: 0 }),
    }];
    let mut w = World::new(vec![path], waves);
    let tower = Tower::new();
    assert!(matches!(tower.attack_type, TowerAttackType::Laser));
    let tower_id = w.add_tower(tower, p(0, 0, 0), PidControlled::new(100, 0, 10));
    assert_eq!(tower_id, 1);
    assert_eq!(w.current_wave_number(), 1);
    // Tick 1: the start trigger moves the scheduler to in-progress.
    w.start_active_wave();
    w.advance_tick(500);
    assert!(matches!(w.wave_status(), WaveStatus::InProgress));
    // Tick 2: the interval elapses and the enemy spawns; the tower's
    // cooldown (armed at 1 attack/s) fires once and deals 15 damage.
    w.advance_tick(500);
    assert_eq!(w.combatant_health(2), Some(5));
    // Tick 3: no cooldown elapsed; the wave quota is exhausted.
    w.advance_tick(500);
    assert_eq!(w.combatant_health(2), Some(5));
    assert!(matches!(w.wave_status(), WaveStatus::WaitingForEnemiesToDie));
    // Tick 4: the second attack kills the enemy; it despawns, the death
    // pays out one money, and the tower's two attacks of experience push
    // it to level 1, rescaling its fire rate.
    w.advance_tick(500);
    assert_eq!(w.combatant_health(2), None);
    assert_eq!(w.player.money(), 1);
    assert_eq!(w.emplacement_experience(tower_id), Some(2));
    assert_eq!(w.emplacement_level(tower_id), Some(1));
    assert_eq!(w.towers[0].attack_rate, 1100);
    // Tick 5: the field is clear, so the wave finishes.
    w.advance_tick(500);
    assert!(matches!(w.wave_status(), WaveStatus::Finished));
    // Tick 6: no waves remain; the scheduler stays finished.
    w.advance_tick(500);
    assert!(matches!(w.wave_status(), WaveStatus::Finished));
    assert_eq!(w.current_wave_number(), 1);
}
