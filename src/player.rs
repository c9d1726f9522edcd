//! The player's ship and its weapons.
use vstd::prelude::*;

use crate::projectile::{Projectile, ProjectileOwner, ProjectileType, STANDARD_DAMAGE};

verus! {

/// The weapons a player can hold; a pickup carries one of them.
#[derive(Debug, Clone, Copy, PartialEq, Eq, Structural)]
pub enum WeaponType {
    BasicGun,
    Sword,
    Bug,
    Bomber,
}

impl WeaponType {
    pub open spec fn name(self) -> &'static str {
        match self {
            WeaponType::BasicGun => "Basic Gun",
            WeaponType::Sword => "Sword",
            WeaponType::Bug => "Bug",
            WeaponType::Bomber => "The Bomber",
        }
    }

    /// Ticks the player waits between two shots of this weapon.
    pub open spec fn reload_ticks(self) -> u8 {
        match self {
            WeaponType::BasicGun => 10,
            WeaponType::Sword => 8,
            WeaponType::Bug => 10,
            WeaponType::Bomber => 30,
        }
    }

    /// Display name of the weapon.
    pub fn get_name(&self) -> (r: &'static str)
        ensures
            r == self.name(),
    {
        match self {
            WeaponType::BasicGun => "Basic Gun",
            WeaponType::Sword => "Sword",
            WeaponType::Bug => "Bug",
            WeaponType::Bomber => "The Bomber",
        }
    }
}

pub const PLAYER_MAX_HEALTH: u8 = 100;

pub const PLAYER_WIDTH: u16 = 5;

pub const PLAYER_HEIGHT: u16 = 3;

/// Ticks a hit keeps the ship flashing.
pub const HIT_FLASH_TICKS: u8 = 10;

/// Lifetime of a sword slash.
pub const SLASH_TICKS: u8 = 10;

/// Ticks before a bomb explodes.
pub const BOMB_FUSE_TICKS: u8 = 90;

/// Damage of a bomb that strikes an enemy directly.
pub const BOMB_DIRECT_DAMAGE: u8 = 5;

#[derive(Debug, Clone, Copy)]
pub struct Player {
    pub x: u16,
    pub y: u16,
    pub health: u8,
    pub fire_cooldown: u8,
    pub current_weapon: WeaponType,
    pub damage_flash_frames: u8,
}

/// A counter one tick later: it counts down and stops at zero.
pub open spec fn count_down(n: u8) -> u8 {
    if n > 0 {
        (n - 1) as u8
    } else {
        0u8
    }
}

/// The shots that `weapon` fires from the muzzle point `(cx, fy)`.
pub open spec fn volley(weapon: WeaponType, cx: u16, fy: u16) -> Seq<Projectile> {
    let shot = |t: ProjectileType, x: u16, y: u16, vx: i16, life: Option<u8>, dmg: u8|
        Projectile {
            x,
            y,
            owner: ProjectileOwner::Player,
            damage: dmg,
            projectile_type: t,
            velocity_x: vx,
            lifetime: life,
        };
    match weapon {
        WeaponType::BasicGun => seq![shot(ProjectileType::Bullet, cx, fy, 0, None, STANDARD_DAMAGE)],
        WeaponType::Sword => seq![
            shot(
                ProjectileType::Slash,
                cx,
                if fy > 0 { (fy - 1) as u16 } else { 0u16 },
                0,
                Some(SLASH_TICKS),
                STANDARD_DAMAGE,
            ),
        ],
        WeaponType::Bug => seq![
            shot(ProjectileType::BugShot, cx, fy, -1i16, None, STANDARD_DAMAGE),
            shot(ProjectileType::BugShot, cx, fy, 1i16, None, STANDARD_DAMAGE),
        ],
        WeaponType::Bomber => seq![
            shot(
                ProjectileType::BomberProjectile,
                cx,
                fy,
                0,
                Some(BOMB_FUSE_TICKS),
                BOMB_DIRECT_DAMAGE,
            ),
        ],
    }
}

impl Player {
    /// The column the ship fires from.
    pub open spec fn muzzle_x(self) -> u16 {
        if self.x + PLAYER_WIDTH / 2 <= u16::MAX {
            (self.x + PLAYER_WIDTH / 2) as u16
        } else {
            u16::MAX
        }
    }

    /// Health after a hit of `damage`; it never drops below zero.
    pub open spec fn health_after(self, damage: u8) -> u8 {
        if self.health >= damage {
            (self.health - damage) as u8
        } else {
            0u8
        }
    }

    /// A fresh ship at `(x, y)`: full health, basic gun, ready to fire.
    pub open spec fn new_spec(x: u16, y: u16) -> Player {
        Player {
            x,
            y,
            health: PLAYER_MAX_HEALTH,
            fire_cooldown: 0,
            current_weapon: WeaponType::BasicGun,
            damage_flash_frames: 0,
        }
    }

    pub fn new(x: u16, y: u16) -> (r: Player)
        ensures
            r == Player::new_spec(x, y),
    {
        Player {
            x,
            y,
            health: PLAYER_MAX_HEALTH,
            fire_cooldown: 0,
            current_weapon: WeaponType::BasicGun,
            damage_flash_frames: 0,
        }
    }

    /// Steps one column left unless already at `min_x` or left of it.
    pub fn move_left(&mut self, min_x: u16)
        ensures
            *final(self) == (Player {
                x: if old(self).x > min_x { (old(self).x - 1) as u16 } else { old(self).x },
                ..*old(self)
            }),
    {
        if self.x > min_x {
            self.x = self.x - 1;
        }
    }

    /// Steps one column right unless already at `max_x` or right of it.
    pub fn move_right(&mut self, max_x: u16)
        ensures
            *final(self) == (Player {
                x: if old(self).x < max_x { (old(self).x + 1) as u16 } else { old(self).x },
                ..*old(self)
            }),
    {
        if self.x < max_x {
            self.x = self.x + 1;
        }
    }

    /// Steps one row up unless already at `min_y` or above it.
    pub fn move_up(&mut self, min_y: u16)
        ensures
            *final(self) == (Player {
                y: if old(self).y > min_y { (old(self).y - 1) as u16 } else { old(self).y },
                ..*old(self)
            }),
    {
        if self.y > min_y {
            self.y = self.y - 1;
        }
    }

    /// Steps one row down unless already at `max_y` or below it.
    pub fn move_down(&mut self, max_y: u16)
        ensures
            *final(self) == (Player {
                y: if old(self).y < max_y { (old(self).y + 1) as u16 } else { old(self).y },
                ..*old(self)
            }),
    {
        if self.y < max_y {
            self.y = self.y + 1;
        }
    }

    pub fn can_fire(&self) -> (r: bool)
        ensures
            r == (self.fire_cooldown == 0),
    {
        self.fire_cooldown == 0
    }

    /// Starts the reload of the current weapon.
    pub fn reset_cooldown(&mut self)
        ensures
            *final(self) == (Player {
                fire_cooldown: old(self).current_weapon.reload_ticks(),
                ..*old(self)
            }),
    {
        self.fire_cooldown =
        match self.current_weapon {
            WeaponType::BasicGun => 10,
            WeaponType::Sword => 8,
            WeaponType::Bug => 10,
            WeaponType::Bomber => 30,
        };
    }

    /// One tick of the reload and hit-flash timers, each stopping at zero.
    pub fn update_cooldown(&mut self)
        ensures
            *final(self) == (Player {
                fire_cooldown: count_down(old(self).fire_cooldown),
                damage_flash_frames: count_down(old(self).damage_flash_frames),
                ..*old(self)
            }),
    {
        if self.fire_cooldown > 0 {
            self.fire_cooldown = self.fire_cooldown - 1;
        }
        if self.damage_flash_frames > 0 {
            self.damage_flash_frames = self.damage_flash_frames - 1;
        }
    }

    /// Takes a hit: health drops by `damage`, stopping at zero, and the ship flashes.
    pub fn take_damage(&mut self, damage: u8)
        ensures
            *final(self) == (Player {
                health: old(self).health_after(damage),
                damage_flash_frames: HIT_FLASH_TICKS,
                ..*old(self)
            }),
            final(self).health == crate::health::remaining(old(self).health as int, damage as int),
    {
        self.health = self.health.saturating_sub(damage);
        self.damage_flash_frames = HIT_FLASH_TICKS;
    }

    pub fn is_flashing(&self) -> (r: bool)
        ensures
            r == (self.damage_flash_frames > 0),
    {
        self.damage_flash_frames > 0
    }

    pub fn is_alive(&self) -> (r: bool)
        ensures
            r == (self.health > 0),
    {
        self.health > 0
    }

    pub fn get_sprite_lines(&self) -> (r: Vec<&'static str>)
        ensures
            r@ == seq![" /^\\ ", "<|||>", " ||| "],
    {
        vec![" /^\\ ", "<|||>", " ||| "]
    }

    pub fn get_width(&self) -> (r: u16)
        ensures
            r == PLAYER_WIDTH,
    {
        PLAYER_WIDTH
    }

    pub fn get_height(&self) -> (r: u16)
        ensures
            r == PLAYER_HEIGHT,
    {
        PLAYER_HEIGHT
    }

    /// Fires the current weapon if it has reloaded. On success the reload starts
    /// and the new shots are returned; otherwise nothing changes and no shot comes.
    pub fn try_fire(&mut self) -> (r: Vec<Projectile>)
        ensures
            old(self).fire_cooldown != 0 ==> r@.len() == 0 && *final(self) == *old(self),
            old(self).fire_cooldown == 0 ==> {
                &&& *final(self) == (Player {
                    fire_cooldown: old(self).current_weapon.reload_ticks(),
                    ..*old(self)
                })
                &&& r@ == volley(old(self).current_weapon, old(self).muzzle_x(), old(self).y)
            },
    {
        if !self.can_fire() {
            return Vec::new();
        }
        self.reset_cooldown();
        let center_x = self.x.saturating_add(PLAYER_WIDTH / 2);
        let fire_y = self.y;
        match self.current_weapon {
            WeaponType::BasicGun => {
                vec![
                    Projectile::new_with_type(
                        center_x,
                        fire_y,
                        ProjectileOwner::Player,
                        ProjectileType::Bullet,
                        0,
                        None,
                    ),
                ]
            },
            WeaponType::Sword => {
                vec![
                    Projectile::new_with_type(
                        center_x,
                        fire_y.saturating_sub(1),
                        ProjectileOwner::Player,
                        ProjectileType::Slash,
                        0,
                        Some(SLASH_TICKS),
                    ),
                ]
            },
            WeaponType::Bug => {
                vec![
                    Projectile::new_with_type(
                        center_x,
                        fire_y,
                        ProjectileOwner::Player,
                        ProjectileType::BugShot,
                        -1,
                        None,
                    ),
                    Projectile::new_with_type(
                        center_x,
                        fire_y,
                        ProjectileOwner::Player,
                        ProjectileType::BugShot,
                        1,
                        None,
                    ),
                ]
            },
            WeaponType::Bomber => {
                vec![
                    Projectile::new_with_damage(
                        center_x,
                        fire_y,
                        ProjectileOwner::Player,
                        ProjectileType::BomberProjectile,
                        0,
                        Some(BOMB_FUSE_TICKS),
                        BOMB_DIRECT_DAMAGE,
                    ),
                ]
            },
        }
    }

    pub fn change_weapon(&mut self, weapon_type: WeaponType)
        ensures
            *final(self) == (Player { current_weapon: weapon_type, ..*old(self) }),
    {
        self.current_weapon = weapon_type;
    }
}

} // verus!
