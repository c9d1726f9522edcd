use simple::{Player, ProjectileOwner, ProjectileType, WeaponType};

#[test]
fn test_player_new() {
    let player = Player::new(40, 20);
    assert_eq!(player.x, 40);
    assert_eq!(player.y, 20);
    assert_eq!(player.health, 100);
    assert_eq!(player.fire_cooldown, 0);
    assert_eq!(player.current_weapon, WeaponType::BasicGun);
}

#[test]
fn test_player_movement_left() {
    let mut player = Player::new(10, 10);
    player.move_left(0);
    assert_eq!(player.x, 9);

    // Test boundary
    player.x = 0;
    player.move_left(0);
    assert_eq!(player.x, 0);
}

#[test]
fn test_player_movement_right() {
    let mut player = Player::new(10, 10);
    player.move_right(79);
    assert_eq!(player.x, 11);

    // Test boundary
    player.x = 79;
    player.move_right(79);
    assert_eq!(player.x, 79);
}

#[test]
fn test_player_movement_up() {
    let mut player = Player::new(10, 10);
    player.move_up(0);
    assert_eq!(player.y, 9);

    // Test boundary
    player.y = 0;
    player.move_up(0);
    assert_eq!(player.y, 0);
}

#[test]
fn test_player_movement_down() {
    let mut player = Player::new(10, 10);
    player.move_down(23);
    assert_eq!(player.y, 11);

    // Test boundary
    player.y = 23;
    player.move_down(23);
    assert_eq!(player.y, 23);
}

#[test]
fn test_player_fire_cooldown() {
    let mut player = Player::new(10, 10);
    assert!(player.can_fire());

    player.reset_cooldown();
    assert_eq!(player.fire_cooldown, 10);
    assert!(!player.can_fire());

    // Test cooldown update
    for _ in 0..10 {
        player.update_cooldown();
    }
    assert!(player.can_fire());
}

#[test]
fn test_player_take_damage() {
    let mut player = Player::new(10, 10);
    player.take_damage(30);
    assert_eq!(player.health, 70);
    assert!(player.is_alive());

    player.take_damage(80);
    assert_eq!(player.health, 0);
    assert!(!player.is_alive());
}

#[test]
fn test_player_try_fire_basic_gun() {
    let mut player = Player::new(10, 10);
    let projectiles = player.try_fire();
    assert_eq!(projectiles.len(), 1);
    assert_eq!(projectiles[0].owner, ProjectileOwner::Player);
    assert_eq!(projectiles[0].projectile_type, ProjectileType::Bullet);
}

#[test]
fn test_player_try_fire_sword() {
    let mut player = Player::new(10, 10);
    player.change_weapon(WeaponType::Sword);
    let projectiles = player.try_fire();
    assert_eq!(projectiles.len(), 1);
    assert_eq!(projectiles[0].projectile_type, ProjectileType::Slash);
    assert_eq!(projectiles[0].lifetime, Some(10));
}

#[test]
fn test_player_try_fire_bug() {
    let mut player = Player::new(10, 10);
    player.change_weapon(WeaponType::Bug);
    let projectiles = player.try_fire();
    assert_eq!(projectiles.len(), 2);
    assert_eq!(projectiles[0].velocity_x, -1);
    assert_eq!(projectiles[1].velocity_x, 1);
}

#[test]
fn test_player_cooldown_prevents_firing() {
    let mut player = Player::new(10, 10);
    player.try_fire();
    let projectiles = player.try_fire();
    assert_eq!(projectiles.len(), 0);
}

#[test]
fn test_player_damage_flash() {
    let mut player = Player::new(10, 10);
    assert!(!player.is_flashing());
    assert_eq!(player.damage_flash_frames, 0);

    // Take damage should trigger flash
    player.take_damage(10);
    assert!(player.is_flashing());
    assert_eq!(player.damage_flash_frames, 10);

    // Flash should decrease with updates
    player.update_cooldown();
    assert_eq!(player.damage_flash_frames, 9);
    assert!(player.is_flashing());

    // Flash should eventually stop
    for _ in 0..9 {
        player.update_cooldown();
    }
    assert_eq!(player.damage_flash_frames, 0);
    assert!(!player.is_flashing());
}
