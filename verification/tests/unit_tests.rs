use tower_defense::enemy::{move_enemies, Enemy, EnemyCreateOptions};
use tower_defense::geometry::Vec3i;
use tower_defense::pid_controller::{
    system, system_pid_controller_position, PidControlled, PidControlledPosition,
    PID_CONTROL_POSITION,
};
use tower_defense::player::Player;

#[test]
fn test_enemy_hurt() {
    let mut enemy = Enemy::new(EnemyCreateOptions { health: 10, speed: 1000, path_id: 0 });
    enemy.hurt(5);
    assert_eq!(enemy.health, 5);
    enemy.hurt(20);
    assert_eq!(enemy.health, 0);
}

#[test]
fn test_enemy_damage_never_underflows() {
    let mut enemy = Enemy::new(EnemyCreateOptions { health: 5, speed: 1000, path_id: 0 });
    enemy.hurt(10);
    assert_eq!(enemy.health, 0);
}

#[test]
fn test_enemy_health_percent() {
    let mut enemy = Enemy::new(EnemyCreateOptions { health: 10, speed: 1000, path_id: 0 });
    assert_eq!(enemy.health_percent(), 1000);
    enemy.hurt(5);
    assert_eq!(enemy.health_percent(), 500);
}

#[test]
fn test_enemy_movement_is_exact() {
    // One enemy at 1 unit/s (1000 milli-units/s), one at a quarter of that.
    let mut enemies = vec![
        Enemy::new(EnemyCreateOptions { health: 10, speed: 1000, path_id: 0 }),
        Enemy::new(EnemyCreateOptions { health: 10, speed: 250, path_id: 0 }),
    ];
    move_enemies(&mut enemies, 16);
    assert_eq!(enemies[0].path_pos, 16_000);
    assert_eq!(enemies[1].path_pos, 4_000);
    move_enemies(&mut enemies, 984);
    assert_eq!(enemies[0].path_pos, 1_000_000);
    assert_eq!(enemies[1].path_pos, 250_000);
}

#[test]
fn test_player_making_purchases() {
    let mut player = Player::new();
    assert_eq!(player.money(), 0);
    player.add_money(10);
    assert_eq!(player.money(), 10);
    assert!(player.make_purchase(10).is_ok());
    assert_eq!(player.money(), 0);
    assert!(player.make_purchase(10).is_err());
    assert_eq!(player.money(), 0);
}

#[test]
fn test_pid_derivative_suppressed_on_first_compute() {
    // A pure-derivative controller: any output comes from the derivative
    // term alone.
    let mut pid = PidControlledPosition::new(0, 0, 1000);
    pid.set_target(Vec3i::new(10_000, 0, 0));
    // First step: the derivative is forced to zero whatever the error is.
    let first = pid.compute(1000, Vec3i::new(0, 0, 0));
    assert_eq!(first, Vec3i::new(0, 0, 0));
    // Second step: the error changed, so the derivative term is non-zero.
    let second = pid.compute(1000, Vec3i::new(5_000, 0, 0));
    assert_eq!(second, Vec3i::new(-5, 0, 0));
}

#[test]
fn test_pid_proportional_term() {
    // Gain 0.5 (500 thousandths): output is half the error.
    let mut pid = PidControlledPosition::new(500, 0, 0);
    pid.set_target(Vec3i::new(100, -40, 8));
    let out = pid.compute(1, Vec3i::new(0, 0, 0));
    assert_eq!(out, Vec3i::new(50, -20, 4));
}

#[test]
fn test_pid_system_steers_positions() {
    // A pure-proportional controller at gain 0.5 halves the remaining
    // distance each second.
    let mut pid = PidControlledPosition::new(500, 0, 0);
    pid.set_target(Vec3i::new(100, 0, 0));
    let mut controllers = vec![pid];
    let mut positions = vec![Vec3i::new(0, 0, 0)];
    system(1, &mut controllers, &mut positions);
    assert_eq!(positions[0], Vec3i::new(50, 0, 0));
    system(1, &mut controllers, &mut positions);
    assert_eq!(positions[0], Vec3i::new(75, 0, 0));
}

#[test]
fn test_tagged_pid_system_steers_positions() {
    let mut pid: PidControlled<PID_CONTROL_POSITION> = PidControlled::new(500, 0, 0);
    pid.set_target(Vec3i::new(-80, 40, 0));
    let mut controllers = vec![pid];
    let mut positions = vec![Vec3i::new(0, 0, 0)];
    system_pid_controller_position(1, &mut controllers, &mut positions);
    assert_eq!(positions[0], Vec3i::new(-40, 20, 0));
}

#[test]
fn test_pid_set_target_keeps_history() {
    let mut pid = PidControlledPosition::new(0, 1000, 0);
    pid.set_target(Vec3i::new(1000, 0, 0));
    // Integral gain 1.0: after 1 ms the accumulator holds error * dt.
    let out1 = pid.compute(1, Vec3i::new(0, 0, 0));
    assert_eq!(out1, Vec3i::new(1000, 0, 0));
    // Changing the target does not reset the integral: it keeps adding.
    pid.set_target(Vec3i::new(2000, 0, 0));
    let out2 = pid.compute(1, Vec3i::new(0, 0, 0));
    assert_eq!(out2, Vec3i::new(3000, 0, 0));
}
