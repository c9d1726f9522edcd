use simple::{Projectile, ProjectileOwner, ProjectileType};

#[test]
fn test_projectile_new() {
    let projectile = Projectile::new(10, 10, ProjectileOwner::Player);
    assert_eq!(projectile.x, 10);
    assert_eq!(projectile.y, 10);
    assert_eq!(projectile.owner, ProjectileOwner::Player);
    assert_eq!(projectile.damage, 10);
}

#[test]
fn test_player_projectile_moves_up() {
    let mut projectile = Projectile::new(10, 10, ProjectileOwner::Player);
    projectile.update();
    assert_eq!(projectile.y, 9);
}

#[test]
fn test_enemy_projectile_moves_down() {
    let mut projectile = Projectile::new(10, 10, ProjectileOwner::Enemy);
    projectile.update();
    assert_eq!(projectile.y, 11);
}

#[test]
fn test_projectile_horizontal_velocity() {
    let mut projectile = Projectile::new_with_type(
        10,
        10,
        ProjectileOwner::Player,
        ProjectileType::BugShot,
        2,
        None,
    );
    projectile.update();
    assert_eq!(projectile.x, 12);
    assert_eq!(projectile.y, 9);
}

#[test]
fn test_projectile_out_of_bounds() {
    let projectile = Projectile::new(0, 0, ProjectileOwner::Player);
    assert!(projectile.is_out_of_bounds(0, 80, 24));

    let projectile = Projectile::new(10, 24, ProjectileOwner::Enemy);
    assert!(projectile.is_out_of_bounds(0, 80, 24));
}

#[test]
fn test_projectile_lifetime() {
    let mut projectile = Projectile::new_with_type(
        10,
        10,
        ProjectileOwner::Player,
        ProjectileType::Slash,
        0,
        Some(3),
    );

    assert!(!projectile.is_out_of_bounds(0, 80, 24));
    projectile.update();
    assert_eq!(projectile.lifetime, Some(2));
    projectile.update();
    assert_eq!(projectile.lifetime, Some(1));
    projectile.update();
    assert_eq!(projectile.lifetime, Some(0));
    assert!(projectile.is_out_of_bounds(0, 80, 24));
}
