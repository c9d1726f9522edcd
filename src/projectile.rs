//! Shots fired by the player or by enemies.
use vstd::prelude::*;

use crate::grid::{clamp_coord, shift_coord};

verus! {

/// Who fired a projectile; it decides the direction of travel and what it can hit.
#[derive(Debug, Clone, Copy, PartialEq, Eq, Structural)]
pub enum ProjectileOwner {
    Player,
    Enemy,
}

/// The kind of shot. `BomberProjectile` is the area weapon: it moves on every
/// third tick only and explodes when its lifetime runs out.
#[derive(Debug, Clone, Copy, PartialEq, Eq, Structural)]
pub enum ProjectileType {
    Bullet,
    Slash,
    BugShot,
    BomberProjectile,
}

/// Damage of a shot built without an explicit damage value.
pub const STANDARD_DAMAGE: u8 = 10;

#[derive(Debug, Clone, Copy)]
pub struct Projectile {
    pub x: u16,
    pub y: u16,
    pub owner: ProjectileOwner,
    pub damage: u8,
    pub projectile_type: ProjectileType,
    pub velocity_x: i16,
    /// Ticks left before the shot expires; `None` lives until it leaves the field.
    pub lifetime: Option<u8>,
}

/// A lifetime counter one tick later: it counts down and stops at zero.
pub open spec fn lifetime_after_tick(l: Option<u8>) -> Option<u8> {
    match l {
        Some(n) => Some(if n > 0 { (n - 1) as u8 } else { 0u8 }),
        None => None,
    }
}

impl Projectile {
    /// Whether the shot travels vertically this tick, given its counted-down lifetime.
    pub open spec fn moves_vertically(self, lifetime: Option<u8>) -> bool {
        self.projectile_type != ProjectileType::BomberProjectile || match lifetime {
            Some(n) => n % 3 == 0,
            None => true,
        }
    }

    /// The shot one tick later.
    pub open spec fn advanced(self) -> Projectile {
        let life = lifetime_after_tick(self.lifetime);
        let y = if !self.moves_vertically(life) {
            self.y
        } else if self.owner == ProjectileOwner::Player {
            if self.y > 0 {
                (self.y - 1) as u16
            } else {
                0u16
            }
        } else {
            clamp_coord(self.y + 1)
        };
        let x = if self.velocity_x != 0 {
            clamp_coord(self.x + self.velocity_x)
        } else {
            self.x
        };
        Projectile { x, y, lifetime: life, ..self }
    }

    /// Whether the shot has expired or left the rectangle `[min_x, max_x) x (0, max_y)`.
    pub open spec fn gone(self, min_x: u16, max_x: u16, max_y: u16) -> bool {
        self.lifetime == Some(0u8) || self.y == 0 || self.y >= max_y || self.x < min_x || self.x
            >= max_x
    }

    /// Whether this is a player's area shot whose lifetime has just run out.
    pub open spec fn detonates(self) -> bool {
        self.owner == ProjectileOwner::Player && self.projectile_type
            == ProjectileType::BomberProjectile && self.lifetime == Some(0u8)
    }

    /// A bullet with standard damage and no lifetime.
    pub fn new(x: u16, y: u16, owner: ProjectileOwner) -> (r: Projectile)
        ensures
            r == (Projectile {
                x,
                y,
                owner,
                damage: STANDARD_DAMAGE,
                projectile_type: ProjectileType::Bullet,
                velocity_x: 0,
                lifetime: None,
            }),
    {
        Projectile {
            x,
            y,
            owner,
            damage: STANDARD_DAMAGE,
            projectile_type: ProjectileType::Bullet,
            velocity_x: 0,
            lifetime: None,
        }
    }

    /// A shot of the given kind with standard damage.
    pub fn new_with_type(
        x: u16,
        y: u16,
        owner: ProjectileOwner,
        projectile_type: ProjectileType,
        velocity_x: i16,
        lifetime: Option<u8>,
    ) -> (r: Projectile)
        ensures
            r == (Projectile {
                x,
                y,
                owner,
                damage: STANDARD_DAMAGE,
                projectile_type,
                velocity_x,
                lifetime,
            }),
    {
        Projectile { x, y, owner, damage: STANDARD_DAMAGE, projectile_type, velocity_x, lifetime }
    }

    /// A shot with every field given.
    pub fn new_with_damage(
        x: u16,
        y: u16,
        owner: ProjectileOwner,
        projectile_type: ProjectileType,
        velocity_x: i16,
        lifetime: Option<u8>,
        damage: u8,
    ) -> (r: Projectile)
        ensures
            r == (Projectile { x, y, owner, damage, projectile_type, velocity_x, lifetime }),
    {
        Projectile { x, y, owner, damage, projectile_type, velocity_x, lifetime }
    }

    /// Advances the shot by one tick: the lifetime counts down, the shot moves one
    /// cell away from its owner (an area shot only on every third tick), and the
    /// horizontal velocity is applied.
    pub fn update(&mut self)
        ensures
            *final(self) == old(self).advanced(),
    {
        if let Some(l) = self.lifetime {
            if l > 0 {
                self.lifetime = Some(l - 1);
            }
        }
        let moves = if self.projectile_type == ProjectileType::BomberProjectile {
            match self.lifetime {
                Some(l) => l % 3 == 0,
                None => true,
            }
        } else {
            true
        };
        if moves {
            match self.owner {
                ProjectileOwner::Player => {
                    if self.y > 0 {
                        self.y = self.y - 1;
                    }
                },
                ProjectileOwner::Enemy => {
                    self.y = self.y.saturating_add(1);
                },
            }
        }
        if self.velocity_x != 0 {
            self.x = shift_coord(self.x, self.velocity_x);
        }
    }

    /// Whether the shot is spent: its lifetime reached zero, or it stands outside
    /// the columns `[min_x, max_x)` or the rows `(0, max_y)`.
    pub fn is_out_of_bounds(&self, min_x: u16, max_x: u16, max_y: u16) -> (r: bool)
        ensures
            r == self.gone(min_x, max_x, max_y),
    {
        if let Some(l) = self.lifetime {
            if l == 0 {
                return true;
            }
        }
        self.y == 0 || self.y >= max_y || self.x < min_x || self.x >= max_x
    }
}

} // verus!
