use simple::{Enemy, EnemyType};

#[test]
fn test_enemy_health_by_type() {
    let basic = Enemy::new_in_formation(10, 10, EnemyType::Basic, 0, (0, 0));
    assert_eq!(basic.health, 15);

    let fast = Enemy::new_in_formation(10, 10, EnemyType::Fast, 0, (0, 0));
    assert_eq!(fast.health, 10);

    let tank = Enemy::new_in_formation(10, 10, EnemyType::Tank, 0, (0, 0));
    assert_eq!(tank.health, 30);
}

#[test]
fn test_enemy_points_by_type() {
    let basic = Enemy::new_in_formation(10, 10, EnemyType::Basic, 0, (0, 0));
    assert_eq!(basic.get_points(), 10);

    let fast = Enemy::new_in_formation(10, 10, EnemyType::Fast, 0, (0, 0));
    assert_eq!(fast.get_points(), 20);

    let tank = Enemy::new_in_formation(10, 10, EnemyType::Tank, 0, (0, 0));
    assert_eq!(tank.get_points(), 30);
}

#[test]
fn test_enemy_take_damage() {
    let mut enemy = Enemy::new_in_formation(10, 10, EnemyType::Basic, 0, (0, 0));
    enemy.take_damage(5);
    assert_eq!(enemy.health, 10);
    assert!(enemy.is_alive());

    enemy.take_damage(10);
    assert_eq!(enemy.health, 0);
    assert!(!enemy.is_alive());
}

#[test]
fn test_enemy_update_formation_position() {
    let mut enemy = Enemy::new_in_formation(10, 10, EnemyType::Basic, 0, (5, 3));
    enemy.update_formation_position(20, 15);
    assert_eq!(enemy.x, 25);
    assert_eq!(enemy.y, 18);
}

#[test]
fn test_enemy_update_formation_position_negative_offset() {
    let mut enemy = Enemy::new_in_formation(10, 10, EnemyType::Basic, 0, (-8, -2));
    enemy.update_formation_position(20, 15);
    assert_eq!(enemy.x, 12);
    assert_eq!(enemy.y, 13);
}

#[test]
fn test_enemy_damage_flash() {
    let mut enemy = Enemy::new_in_formation(10, 10, EnemyType::Basic, 0, (0, 0));
    assert!(!enemy.is_flashing());
    assert_eq!(enemy.damage_flash_frames, 0);

    // Take damage should trigger flash
    enemy.take_damage(5);
    assert!(enemy.is_flashing());
    assert_eq!(enemy.damage_flash_frames, 10);

    // Flash should decrease with updates
    enemy.update();
    assert_eq!(enemy.damage_flash_frames, 9);
    assert!(enemy.is_flashing());

    // Flash should eventually stop
    for _ in 0..9 {
        enemy.update();
    }
    assert_eq!(enemy.damage_flash_frames, 0);
    assert!(!enemy.is_flashing());
}
