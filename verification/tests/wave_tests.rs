use tower_defense::enemy::{Enemy, EnemyCreateOptions};
use tower_defense::waves::{spawn_enemies_from_waves, Wave, WaveManager, WaveStage, WaveStatus};

fn template() -> EnemyCreateOptions {
    EnemyCreateOptions { health: 10, speed: 1000, path_id: 0 }
}

#[test]
fn test_wave_transition_sequence() {
    // One wave of 2 enemies at a 1.0 s spawn interval.
    let mut wm = WaveManager::new(vec![Wave { stage: WaveStage::new(2, 1000, template()) }]);
    let mut next_id: u64 = 1;
    let mut ids: Vec<u64> = Vec::new();
    let mut enemies: Vec<Enemy> = Vec::new();
    assert!(matches!(wm.wave_status(), WaveStatus::Pending));
    // Without the external trigger the scheduler stays pending.
    spawn_enemies_from_waves(&mut wm, false, 1000, &mut next_id, &mut ids, &mut enemies);
    assert!(matches!(wm.wave_status(), WaveStatus::Pending));
    // The trigger arms the timer and starts the wave.
    spawn_enemies_from_waves(&mut wm, true, 1000, &mut next_id, &mut ids, &mut enemies);
    assert!(matches!(wm.wave_status(), WaveStatus::InProgress));
    assert_eq!(enemies.len(), 0);
    // After 1.0 s: spawn 1.
    spawn_enemies_from_waves(&mut wm, false, 1000, &mut next_id, &mut ids, &mut enemies);
    assert_eq!(enemies.len(), 1);
    // After 2.0 s: spawn 2.
    spawn_enemies_from_waves(&mut wm, false, 1000, &mut next_id, &mut ids, &mut enemies);
    assert_eq!(enemies.len(), 2);
    assert!(matches!(wm.wave_status(), WaveStatus::InProgress));
    // The quota is exhausted: the next elapsed interval waits for the field
    // to clear.
    spawn_enemies_from_waves(&mut wm, false, 1000, &mut next_id, &mut ids, &mut enemies);
    assert_eq!(enemies.len(), 2);
    assert!(matches!(wm.wave_status(), WaveStatus::WaitingForEnemiesToDie));
    // Enemies still alive: no transition.
    spawn_enemies_from_waves(&mut wm, false, 1000, &mut next_id, &mut ids, &mut enemies);
    assert!(matches!(wm.wave_status(), WaveStatus::WaitingForEnemiesToDie));
    // Both enemies die and despawn.
    ids.clear();
    enemies.clear();
    spawn_enemies_from_waves(&mut wm, false, 1000, &mut next_id, &mut ids, &mut enemies);
    assert!(matches!(wm.wave_status(), WaveStatus::Finished));
    // The wave list is exhausted: the scheduler stays finished forever.
    spawn_enemies_from_waves(&mut wm, false, 1000, &mut next_id, &mut ids, &mut enemies);
    assert!(matches!(wm.wave_status(), WaveStatus::Finished));
    spawn_enemies_from_waves(&mut wm, false, 1000, &mut next_id, &mut ids, &mut enemies);
    assert!(matches!(wm.wave_status(), WaveStatus::Finished));
    assert_eq!(wm.current_wave_num(), 1);
}

#[test]
fn test_wave_spawned_enemies_use_template() {
    let mut wm = WaveManager::new(vec![Wave { stage: WaveStage::new(1, 500, template()) }]);
    let mut next_id: u64 = 5;
    let mut ids: Vec<u64> = Vec::new();
    let mut enemies: Vec<Enemy> = Vec::new();
    spawn_enemies_from_waves(&mut wm, true, 500, &mut next_id, &mut ids, &mut enemies);
    spawn_enemies_from_waves(&mut wm, false, 500, &mut next_id, &mut ids, &mut enemies);
    assert_eq!(enemies.len(), 1);
    assert_eq!(ids, vec![5]);
    assert_eq!(next_id, 6);
    assert_eq!(enemies[0].health, 10);
    assert_eq!(enemies[0].max_health, 10);
    assert_eq!(enemies[0].speed, 1000);
    assert_eq!(enemies[0].path_pos, 0);
}

#[test]
fn test_wave_advances_to_next_wave() {
    let mut wm = WaveManager::new(vec![
        Wave { stage: WaveStage::new(1, 500, template()) },
        Wave { stage: WaveStage::new(3, 250, template()) },
    ]);
    let mut next_id: u64 = 1;
    let mut ids: Vec<u64> = Vec::new();
    let mut enemies: Vec<Enemy> = Vec::new();
    spawn_enemies_from_waves(&mut wm, true, 500, &mut next_id, &mut ids, &mut enemies);
    spawn_enemies_from_waves(&mut wm, false, 500, &mut next_id, &mut ids, &mut enemies);
    spawn_enemies_from_waves(&mut wm, false, 500, &mut next_id, &mut ids, &mut enemies);
    assert!(matches!(wm.wave_status(), WaveStatus::WaitingForEnemiesToDie));
    ids.clear();
    enemies.clear();
    spawn_enemies_from_waves(&mut wm, false, 500, &mut next_id, &mut ids, &mut enemies);
    assert!(matches!(wm.wave_status(), WaveStatus::Finished));
    // A second wave remains: finishing advances back to pending on it.
    spawn_enemies_from_waves(&mut wm, false, 500, &mut next_id, &mut ids, &mut enemies);
    assert!(matches!(wm.wave_status(), WaveStatus::Pending));
    assert_eq!(wm.current_wave_num(), 2);
}
