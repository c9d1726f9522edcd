use simple::collision::{EXPLOSION_DAMAGE, RAM_DAMAGE};
use simple::tick::{ENEMY_FIRE_DENOMINATOR, ENEMY_FIRE_NUMERATOR};
use simple::world::{enemy_type_from_roll, formation_type_from_roll, weapon_type_from_roll};
use simple::{
    Enemy, EnemyType, Formation, FormationType, GameState, InputAction, Pickup, Player, Projectile,
    ProjectileOwner, ProjectileType, WeaponType, World,
};

/// A world whose lane is 100 columns wide and 60 rows tall.
fn open_field() -> World {
    World::with_screen(102, 60, 0)
}

fn bomb_at(x: u16, y: u16) -> Projectile {
    Projectile::new_with_damage(
        x,
        y,
        ProjectileOwner::Player,
        ProjectileType::BomberProjectile,
        0,
        Some(0),
        5,
    )
}

fn free_enemy(x: u16, y: u16, kind: EnemyType) -> Enemy {
    let mut e = Enemy::new_in_formation(x, y, kind, 0, (0, 0));
    e.formation_id = None;
    e
}

#[test]
fn basic_enemy_dies_on_second_hit_in_collisions() {
    let mut w = open_field();
    w.enemies.push(free_enemy(20, 10, EnemyType::Basic));
    w.projectiles.push(Projectile::new(22, 12, ProjectileOwner::Player));
    w.check_collisions();
    assert_eq!(w.enemies.len(), 1);
    assert_eq!(w.enemies[0].health, 5);
    assert!(w.projectiles.is_empty());
    assert_eq!(w.score, 0);

    w.projectiles.push(Projectile::new(22, 12, ProjectileOwner::Player));
    w.check_collisions();
    assert!(w.enemies.is_empty());
    assert_eq!(w.score, 10);
    assert_eq!(w.particles.len(), 9);
}

#[test]
fn shot_hits_only_first_overlapping_enemy() {
    let mut w = open_field();
    w.enemies.push(free_enemy(20, 10, EnemyType::Tank));
    w.enemies.push(free_enemy(20, 10, EnemyType::Tank));
    w.projectiles.push(Projectile::new(22, 12, ProjectileOwner::Player));
    w.check_collisions();
    assert_eq!(w.enemies[0].health, 20);
    assert_eq!(w.enemies[1].health, 30);
}

#[test]
fn formation_turns_back_at_right_margin() {
    let mut f = Formation::new(70, 10, FormationType::VShape);
    for _ in 0..3 {
        f.update(80);
    }
    assert_eq!(f.direction_x, 1);
    f.update(80);
    assert_eq!(f.direction_x, -1);
    assert_eq!(f.center_x, 70);
    // Its rightmost member stays past the margin even one cell to the left, so
    // the next sweep is blocked too and turns it again.
    for _ in 0..4 {
        f.update(80);
    }
    assert_eq!(f.center_x, 70);
    assert_eq!(f.direction_x, 1);
    assert_eq!(f.center_y, 11);
}

#[test]
fn formation_moves_while_inside_margins() {
    // Rightmost member at +24 must stay at or left of 80 - 10.
    let mut f = Formation::new(45, 10, FormationType::VShape);
    for _ in 0..4 {
        f.update(80);
    }
    assert_eq!(f.center_x, 46);
    assert_eq!(f.direction_x, 1);
    for _ in 0..4 {
        f.update(80);
    }
    assert_eq!(f.center_x, 46);
    assert_eq!(f.direction_x, -1);
}

#[test]
fn formation_members_follow_center_every_tick() {
    let mut w = open_field();
    w.spawn_formation_with(FormationType::Diamond, EnemyType::Basic, 50);
    for _ in 0..40 {
        w.update_game();
        for e in w.enemies.iter() {
            if let Some(f) = e.formation_id {
                let c = &w.formations[f];
                assert_eq!(e.x as i32, c.center_x as i32 + e.formation_offset.0 as i32);
                assert_eq!(e.y as i32, c.center_y as i32 + e.formation_offset.1 as i32);
            }
        }
    }
    assert_eq!(w.frame_count, 40);
}

#[test]
fn member_position_is_clamped_at_zero() {
    let mut e = Enemy::new_in_formation(10, 10, EnemyType::Basic, 0, (-24, 0));
    e.update_formation_position(5, 3);
    assert_eq!(e.x, 0);
    assert_eq!(e.y, 3);
}

#[test]
fn bomb_explosion_reaches_radius_boundary() {
    let mut w = open_field();
    // Tank 8 wide and 5 tall: its center is (x + 4, y + 2).
    w.enemies.push(free_enemy(10, 10, EnemyType::Tank)); // center (14, 12): distance 8
    w.enemies.push(free_enemy(10, 30, EnemyType::Tank)); // far away
    w.enemies.push(free_enemy(31, 10, EnemyType::Tank)); // center (35, 12): distance 13
    w.projectiles.push(bomb_at(22, 12));
    w.check_collisions();
    assert!(w.projectiles.is_empty());
    assert_eq!(w.enemies.len(), 3);
    assert_eq!(w.enemies[0].health, 30 - EXPLOSION_DAMAGE);
    assert_eq!(w.enemies[1].health, 30);
    assert_eq!(w.enemies[2].health, 30);
    assert_eq!(w.particles.len(), 9);
}

#[test]
fn bomb_explosion_destroys_weak_enemies() {
    let mut w = open_field();
    w.enemies.push(free_enemy(10, 10, EnemyType::Basic)); // center (13, 11)
    w.enemies.push(free_enemy(14, 10, EnemyType::Fast)); // center (18, 12)
    w.projectiles.push(bomb_at(15, 11));
    w.check_collisions();
    assert!(w.enemies.is_empty());
    assert_eq!(w.score, 30);
    assert_eq!(w.particles.len(), 27);
}

#[test]
fn bomb_just_out_of_fuse_explodes_during_tick() {
    let mut w = open_field();
    w.spawn_delay_frames = 50;
    w.enemies.push(free_enemy(10, 10, EnemyType::Tank));
    let mut b = bomb_at(14, 13);
    b.lifetime = Some(1);
    w.projectiles.push(b);
    w.update_game();
    assert!(w.projectiles.iter().all(|p| p.owner != ProjectileOwner::Player));
    assert_eq!(w.enemies[0].health, 30 - EXPLOSION_DAMAGE);
}

#[test]
fn pruning_keeps_survivors_in_order() {
    let mut w = open_field();
    let kinds = [EnemyType::Basic, EnemyType::Tank, EnemyType::Fast, EnemyType::Tank];
    for (k, kind) in kinds.iter().enumerate() {
        w.enemies.push(free_enemy(10 * k as u16, 10, *kind));
    }
    for k in 0..4u16 {
        let mut p = Projectile::new(10 * k + 2, 11, ProjectileOwner::Player);
        p.damage = 15;
        w.projectiles.push(p);
    }
    w.projectiles.push(Projectile::new(90, 40, ProjectileOwner::Player));
    w.projectiles.push(Projectile::new(91, 41, ProjectileOwner::Enemy));
    w.check_collisions();
    assert_eq!(w.enemies.len(), 2);
    assert_eq!(w.enemies[0].x, 10);
    assert_eq!(w.enemies[1].x, 30);
    assert_eq!(w.enemies[0].health, 15);
    assert_eq!(w.projectiles.len(), 2);
    assert_eq!(w.projectiles[0].x, 90);
    assert_eq!(w.projectiles[1].x, 91);
    assert_eq!(w.score, 10 + 20);
}

#[test]
fn pruning_carries_formation_members() {
    let mut w = open_field();
    w.spawn_formation_with(FormationType::Wall, EnemyType::Basic, 50);
    w.spawn_formation_with(FormationType::VShape, EnemyType::Basic, 50);
    assert_eq!(w.enemies.len(), 21);
    // Destroy the first member of the wall, at (26, 5).
    w.enemies[0].health = 5;
    w.projectiles.push(Projectile::new(27, 6, ProjectileOwner::Player));
    w.check_collisions();
    assert_eq!(w.enemies.len(), 20);
    assert_eq!(w.formations[0].enemy_indices, (0..13).collect::<Vec<usize>>());
    assert_eq!(w.formations[1].enemy_indices, (13..20).collect::<Vec<usize>>());
}

#[test]
fn pickup_under_player_changes_weapon() {
    let mut w = open_field();
    w.player = Player::new(40, 20);
    w.pickups.push(Pickup::new(10, 3, WeaponType::Sword));
    w.pickups.push(Pickup::new(42, 21, WeaponType::Bomber));
    w.check_collisions();
    assert_eq!(w.player.current_weapon, WeaponType::Bomber);
    assert_eq!(w.pickups.len(), 1);
    assert_eq!(w.pickups[0].weapon_type, WeaponType::Sword);
}

#[test]
fn last_overlapping_pickup_wins() {
    let mut w = open_field();
    w.player = Player::new(40, 20);
    w.pickups.push(Pickup::new(40, 20, WeaponType::Bug));
    w.pickups.push(Pickup::new(44, 22, WeaponType::Sword));
    w.check_collisions();
    assert_eq!(w.player.current_weapon, WeaponType::Sword);
    assert!(w.pickups.is_empty());
}

#[test]
fn enemy_shot_and_ram_hurt_player() {
    let mut w = open_field();
    w.player = Player::new(40, 20);
    w.projectiles.push(Projectile::new(42, 21, ProjectileOwner::Enemy));
    w.enemies.push(free_enemy(37, 18, EnemyType::Basic));
    w.check_collisions();
    assert_eq!(w.player.health, 100 - 10 - RAM_DAMAGE);
    assert_eq!(w.player.damage_flash_frames, 10);
    assert!(w.enemies.is_empty());
    assert!(w.projectiles.is_empty());
    assert_eq!(w.score, 0);
}

#[test]
fn player_death_ends_game() {
    let mut w = open_field();
    w.spawn_delay_frames = 50;
    w.player = Player::new(40, 20);
    w.player.health = 10;
    w.projectiles.push(Projectile::new(42, 20, ProjectileOwner::Enemy));
    w.update_game();
    assert_eq!(w.player.health, 0);
    assert_eq!(w.game_state, GameState::GameOver);
}

#[test]
fn wave_spawns_after_delay() {
    let mut w = open_field();
    w.spawn_delay_frames = 2;
    w.update_game();
    assert!(w.enemies.is_empty());
    w.update_game();
    assert!(w.enemies.is_empty());
    w.update_game();
    assert_eq!(w.formations.len(), 1);
    assert!(!w.enemies.is_empty());
    assert_eq!(w.spawn_delay_frames, 90);
}

#[test]
fn random_wave_is_placed_inside_lane() {
    for _ in 0..50 {
        let mut w = World::with_screen(202, 60, 0);
        w.spawn_formation();
        let f = &w.formations[0];
        assert!(f.center_x >= 30 && f.center_x < 170);
        assert_eq!(f.center_y, 5);
        assert_eq!(w.enemies.len(), f.get_positions().len());
        assert!(w.enemies.iter().all(|e| e.enemy_type == w.enemies[0].enemy_type));
    }
}

#[test]
fn random_pickup_is_placed_inside_lane() {
    for _ in 0..50 {
        let mut w = World::with_screen(22, 60, 0);
        w.spawn_pickup();
        assert_eq!(w.pickups.len(), 1);
        assert!(w.pickups[0].x >= 3 && w.pickups[0].x < 17);
        assert_eq!(w.pickups[0].y, 3);
    }
}

#[test]
fn narrow_lane_places_wave_at_padding() {
    let mut w = World::with_screen(40, 60, 0);
    w.spawn_formation();
    assert_eq!(w.formations[0].center_x, 30);
}

#[test]
fn new_world_has_one_wave() {
    let w = World::new();
    assert!(w.running);
    assert_eq!(w.game_state, GameState::Playing);
    assert_eq!(w.formations.len(), 1);
    assert_eq!(w.enemies.len(), w.formations[0].get_positions().len());
    assert_eq!(w.player.x, 80);
    assert_eq!(w.player.y, 56);
}

#[test]
fn rolls_map_to_kinds() {
    assert_eq!(formation_type_from_roll(0), FormationType::VShape);
    assert_eq!(formation_type_from_roll(1), FormationType::Diamond);
    assert_eq!(formation_type_from_roll(2), FormationType::Wall);
    assert_eq!(formation_type_from_roll(3), FormationType::Block);
    assert_eq!(enemy_type_from_roll(6), EnemyType::Basic);
    assert_eq!(enemy_type_from_roll(7), EnemyType::Fast);
    assert_eq!(enemy_type_from_roll(8), EnemyType::Fast);
    assert_eq!(enemy_type_from_roll(9), EnemyType::Tank);
    assert_eq!(weapon_type_from_roll(0), WeaponType::BasicGun);
    assert_eq!(weapon_type_from_roll(3), WeaponType::Bomber);
}

#[test]
fn spawned_wave_positions_are_center_plus_offset() {
    let mut w = open_field();
    w.spawn_formation_with(FormationType::Block, EnemyType::Tank, 40);
    assert_eq!(w.enemies.len(), 16);
    assert_eq!((w.enemies[0].x, w.enemies[0].y), (28, 5));
    assert_eq!((w.enemies[15].x, w.enemies[15].y), (52, 17));
    assert_eq!(w.enemies[3].formation_id, Some(0));
    assert_eq!(w.enemies[3].health, 30);
    assert_eq!(w.formations[0].enemy_indices.len(), 16);
}

#[test]
fn enemy_fire_with_given_decisions() {
    let mut w = open_field();
    w.enemies.push(free_enemy(10, 10, EnemyType::Basic));
    w.enemies.push(free_enemy(30, 10, EnemyType::Tank));
    w.enemies[1].fire_cooldown = 3;
    let fired = w.enemy_fire_with(&vec![true, true]);
    assert_eq!(fired, 1);
    assert_eq!(w.projectiles.len(), 1);
    assert_eq!((w.projectiles[0].x, w.projectiles[0].y), (13, 13));
    assert_eq!(w.projectiles[0].owner, ProjectileOwner::Enemy);
    let none = w.enemy_fire_with(&vec![false]);
    assert_eq!(none, 0);
    assert!(ENEMY_FIRE_NUMERATOR < ENEMY_FIRE_DENOMINATOR);
}

#[test]
fn actions_move_and_fire() {
    let mut w = open_field();
    w.player = Player::new(94, 2);
    let fired = w.process_actions(&vec![
        InputAction::MoveRight,
        InputAction::MoveRight,
        InputAction::MoveUp,
        InputAction::Fire,
        InputAction::Fire,
    ]);
    assert_eq!(w.player.x, 94);
    assert_eq!(w.player.y, 2);
    assert_eq!(fired, 1);
    assert_eq!(w.projectiles.len(), 1);
    assert_eq!(w.projectiles[0].x, 96);
    w.process_actions(&vec![InputAction::MoveLeft, InputAction::MoveDown, InputAction::Pause]);
    assert_eq!((w.player.x, w.player.y), (93, 3));
    assert_eq!(w.game_state, GameState::Paused);
    w.process_actions(&vec![InputAction::Resume, InputAction::Quit]);
    assert_eq!(w.game_state, GameState::Playing);
    assert!(!w.running);
}

#[test]
fn restart_gives_fresh_game() {
    let mut w = open_field();
    w.score = 500;
    w.running = false;
    w.process_actions(&vec![InputAction::Restart]);
    assert_eq!(w.score, 0);
    assert!(w.running);
    assert_eq!(w.formations.len(), 1);
}

#[test]
fn bomber_fires_slow_bomb() {
    let mut p = Player::new(10, 10);
    p.change_weapon(WeaponType::Bomber);
    let shots = p.try_fire();
    assert_eq!(shots.len(), 1);
    assert_eq!(shots[0].projectile_type, ProjectileType::BomberProjectile);
    assert_eq!(shots[0].lifetime, Some(90));
    assert_eq!(shots[0].damage, 5);
    assert_eq!(p.fire_cooldown, 30);
    let mut b = shots[0];
    b.update();
    assert_eq!(b.y, 10);
    b.update();
    b.update();
    assert_eq!(b.lifetime, Some(87));
    assert_eq!(b.y, 9);
}

#[test]
fn lane_width_saturates() {
    assert_eq!(World::with_screen(102, 60, 0).lane_width(), 100);
    assert_eq!(World::with_screen(60, 70, 50).lane_width(), 0);
    assert_eq!(World::with_screen(200, 70, 50).lane_width(), 98);
}

#[test]
fn pickup_falls_every_fifteenth_tick() {
    let mut k = Pickup::new(5, 3, WeaponType::Bug);
    for _ in 0..14 {
        k.update();
    }
    assert_eq!(k.y, 3);
    k.update();
    assert_eq!(k.y, 4);
    assert_eq!(k.get_char(), 'B');
    assert!(k.is_out_of_bounds(4));
}

#[test]
fn free_enemy_descends_on_its_cadence() {
    let mut e = free_enemy(5, 5, EnemyType::Fast);
    e.update();
    assert_eq!(e.y, 6);
    for _ in 0..4 {
        e.update();
    }
    assert_eq!(e.y, 6);
    e.update();
    assert_eq!(e.y, 7);
    let mut bound = Enemy::new_in_formation(5, 5, EnemyType::Fast, 0, (0, 0));
    bound.update();
    assert_eq!(bound.y, 5);
    assert_eq!(bound.fire_cooldown, 1);
}

#[test]
fn weapon_names() {
    assert_eq!(WeaponType::BasicGun.get_name(), "Basic Gun");
    assert_eq!(WeaponType::Bomber.get_name(), "The Bomber");
}

#[test]
fn health_never_below_zero_after_many_hits() {
    let mut e = free_enemy(0, 0, EnemyType::Tank);
    let hits = [7u8, 9, 200, 3];
    for h in hits {
        e.take_damage(h);
    }
    assert_eq!(e.health, 0);
    let mut p = Player::new(0, 0);
    for h in [30u8, 30, 30] {
        p.take_damage(h);
    }
    assert_eq!(p.health, 10);
}

#[test]
fn new_world_is_a_fresh_game() {
    let w = World::new();
    assert_eq!((w.player.x, w.player.y), (80, 56));
    assert_eq!(w.player.health, 100);
    assert!(w.projectiles.is_empty() && w.particles.is_empty() && w.pickups.is_empty());
    assert_eq!((w.score, w.frame_count, w.spawn_delay_frames), (0, 0, 0));
    assert_eq!((w.screen_width, w.screen_height, w.edge_width), (60, 70, 50));
    let f = &w.formations[0];
    assert_eq!((f.center_x, f.center_y, f.direction_x), (30, 5, 1));
    assert_eq!(f.enemy_indices, (0..w.enemies.len()).collect::<Vec<usize>>());
}

#[test]
fn restart_then_actions_apply_to_fresh_game() {
    let mut w = open_field();
    w.player = Player::new(10, 10);
    w.player.health = 3;
    w.projectiles.push(Projectile::new(5, 5, ProjectileOwner::Enemy));
    w.frame_count = 77;
    let fired = w.process_actions(&vec![
        InputAction::Fire,
        InputAction::Restart,
        InputAction::MoveLeft,
        InputAction::Fire,
    ]);
    assert_eq!(fired, 2);
    assert_eq!((w.player.x, w.player.y), (79, 56));
    assert_eq!(w.player.health, 100);
    assert_eq!(w.projectiles.len(), 1);
    assert_eq!(w.projectiles[0].owner, ProjectileOwner::Player);
    assert_eq!(w.frame_count, 0);
    assert_eq!(w.screen_width, 60);
}

#[test]
fn tick_with_draws_spawns_wave_and_pickup() {
    let mut w = open_field();
    w.frame_count = 179;
    let shots = w.update_game_with(
        Some((FormationType::VShape, EnemyType::Tank, 50)),
        &vec![true; 7],
        Some((WeaponType::Bug, 20)),
    );
    assert_eq!(w.frame_count, 180);
    assert_eq!(w.formations.len(), 1);
    assert_eq!(w.enemies.len(), 7);
    assert!(w.enemies.iter().all(|e| e.enemy_type == EnemyType::Tank));
    assert_eq!(w.spawn_delay_frames, 90);
    // Freshly spawned enemies have just counted their first tick: none is ready.
    assert_eq!(shots, 0);
    assert_eq!(w.pickups.len(), 1);
    assert_eq!(w.pickups[0].weapon_type, WeaponType::Bug);
    assert_eq!(w.pickups[0].x, 20);
}

#[test]
fn tick_with_draws_counts_down_wave_timer() {
    let mut w = open_field();
    w.spawn_delay_frames = 5;
    w.update_game_with(Some((FormationType::Wall, EnemyType::Basic, 50)), &vec![], None);
    assert!(w.formations.is_empty());
    assert_eq!(w.spawn_delay_frames, 4);
}

#[test]
fn tick_with_draws_fires_ready_enemies() {
    let mut w = open_field();
    w.spawn_delay_frames = 5;
    w.enemies.push(free_enemy(10, 10, EnemyType::Basic));
    w.enemies.push(free_enemy(40, 10, EnemyType::Basic));
    w.enemies[0].fire_cooldown = 119;
    w.enemies[1].fire_cooldown = 119;
    let shots = w.update_game_with(None, &vec![true, false], None);
    assert_eq!(shots, 1);
    assert_eq!(w.projectiles.len(), 1);
    assert_eq!(w.projectiles[0].owner, ProjectileOwner::Enemy);
    assert_eq!(w.spawn_delay_frames, 90);
}
