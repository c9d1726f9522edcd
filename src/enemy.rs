//! Enemy ships.
use vstd::prelude::*;

use crate::grid::{clamp_coord, shift_coord};
use crate::player::count_down;
use crate::player::HIT_FLASH_TICKS;

verus! {

/// Kinds of enemy; each has fixed health, size, points and pace.
#[derive(Debug, Clone, Copy, PartialEq, Eq, Structural)]
pub enum EnemyType {
    Basic,
    Fast,
    Tank,
}

impl EnemyType {
    pub open spec fn max_health(self) -> u8 {
        match self {
            EnemyType::Basic => 15,
            EnemyType::Fast => 10,
            EnemyType::Tank => 30,
        }
    }

    pub open spec fn width(self) -> u16 {
        match self {
            EnemyType::Basic => 7,
            EnemyType::Fast => 8,
            EnemyType::Tank => 8,
        }
    }

    pub open spec fn height(self) -> u16 {
        match self {
            EnemyType::Basic => 3,
            EnemyType::Fast => 5,
            EnemyType::Tank => 5,
        }
    }

    pub open spec fn points(self) -> u32 {
        match self {
            EnemyType::Basic => 10,
            EnemyType::Fast => 20,
            EnemyType::Tank => 30,
        }
    }

    /// A free enemy steps down on the ticks whose counter is a multiple of this.
    pub open spec fn step_interval(self) -> u8 {
        match self {
            EnemyType::Basic => 8,
            EnemyType::Fast => 5,
            EnemyType::Tank => 10,
        }
    }
}

/// An enemy may fire on the ticks whose counter is a multiple of this.
pub const ENEMY_FIRE_PERIOD: u8 = 120;

#[derive(Debug, Clone, Copy)]
pub struct Enemy {
    pub x: u16,
    pub y: u16,
    pub health: u8,
    pub enemy_type: EnemyType,
    /// Tick counter that paces both firing and free descent.
    pub fire_cooldown: u8,
    /// Index of the formation this enemy flies in, if any.
    pub formation_id: Option<usize>,
    /// Offset from the formation's center.
    pub formation_offset: (i16, i16),
    pub damage_flash_frames: u8,
}

impl Enemy {
    pub open spec fn width(self) -> u16 {
        self.enemy_type.width()
    }

    pub open spec fn height(self) -> u16 {
        self.enemy_type.height()
    }

    pub open spec fn points(self) -> u32 {
        self.enemy_type.points()
    }

    /// The cell at the middle of the sprite.
    pub open spec fn center_x(self) -> u16 {
        clamp_coord(self.x + self.width() / 2)
    }

    pub open spec fn center_y(self) -> u16 {
        clamp_coord(self.y + self.height() / 2)
    }

    /// Whether the enemy's position is the formation center `(cx, cy)` plus its offset.
    pub open spec fn placed_at(self, cx: u16, cy: u16) -> bool {
        self.x == clamp_coord(cx + self.formation_offset.0) && self.y == clamp_coord(
            cy + self.formation_offset.1,
        )
    }

    pub open spec fn health_after(self, damage: u8) -> u8 {
        if self.health >= damage {
            (self.health - damage) as u8
        } else {
            0u8
        }
    }

    /// The enemy after a hit of `damage`.
    pub open spec fn damaged(self, damage: u8) -> Enemy {
        Enemy { health: self.health_after(damage), damage_flash_frames: HIT_FLASH_TICKS, ..self }
    }

    /// The enemy one tick later.
    pub open spec fn advanced(self) -> Enemy {
        let y = if self.formation_id.is_none() && self.fire_cooldown
            % self.enemy_type.step_interval() == 0 {
            clamp_coord(self.y + 1)
        } else {
            self.y
        };
        Enemy {
            y,
            fire_cooldown: ((self.fire_cooldown + 1) % 256) as u8,
            damage_flash_frames: count_down(self.damage_flash_frames),
            ..self
        }
    }

    pub open spec fn ready_to_fire(self) -> bool {
        self.fire_cooldown % ENEMY_FIRE_PERIOD == 0
    }

    /// A fresh enemy of `enemy_type` at `(x, y)`, flying in formation `formation_id`
    /// at `offset` from its center.
    pub fn new_in_formation(
        x: u16,
        y: u16,
        enemy_type: EnemyType,
        formation_id: usize,
        offset: (i16, i16),
    ) -> (r: Enemy)
        ensures
            r == (Enemy {
                x,
                y,
                health: enemy_type.max_health(),
                enemy_type,
                fire_cooldown: 0,
                formation_id: Some(formation_id),
                formation_offset: offset,
                damage_flash_frames: 0,
            }),
    {
        let health: u8 = match enemy_type {
            EnemyType::Basic => 15,
            EnemyType::Fast => 10,
            EnemyType::Tank => 30,
        };
        Enemy {
            x,
            y,
            health,
            enemy_type,
            fire_cooldown: 0,
            formation_id: Some(formation_id),
            formation_offset: offset,
            damage_flash_frames: 0,
        }
    }

    /// One tick: the hit flash fades, the counter advances, and an enemy outside
    /// any formation steps down one row on its type's cadence.
    pub fn update(&mut self)
        ensures
            *final(self) == old(self).advanced(),
    {
        if self.damage_flash_frames > 0 {
            self.damage_flash_frames = self.damage_flash_frames - 1;
        }
        if self.formation_id.is_some() {
            self.fire_cooldown = self.fire_cooldown.wrapping_add(1);
            return;
        }
        let interval: u8 = match self.enemy_type {
            EnemyType::Basic => 8,
            EnemyType::Fast => 5,
            EnemyType::Tank => 10,
        };
        if self.fire_cooldown % interval == 0 {
            self.y = self.y.saturating_add(1);
        }
        self.fire_cooldown = self.fire_cooldown.wrapping_add(1);
    }

    /// Places the enemy at the formation center `(center_x, center_y)` plus its
    /// offset, clamped onto the grid.
    pub fn update_formation_position(&mut self, center_x: u16, center_y: u16)
        ensures
            final(self).placed_at(center_x, center_y),
            *final(self) == (Enemy { x: final(self).x, y: final(self).y, ..*old(self) }),
    {
        self.x = shift_coord(center_x, self.formation_offset.0);
        self.y = shift_coord(center_y, self.formation_offset.1);
    }

    pub fn can_fire(&self) -> (r: bool)
        ensures
            r == self.ready_to_fire(),
    {
        self.fire_cooldown % ENEMY_FIRE_PERIOD == 0
    }

    /// Takes a hit: health drops by `damage`, stopping at zero, and the ship flashes.
    pub fn take_damage(&mut self, damage: u8)
        ensures
            *final(self) == old(self).damaged(damage),
            final(self).health == crate::health::remaining(old(self).health as int, damage as int),
    {
        self.health = self.health.saturating_sub(damage);
        self.damage_flash_frames = HIT_FLASH_TICKS;
    }

    pub fn is_flashing(&self) -> (r: bool)
        ensures
            r == (self.damage_flash_frames > 0),
    {
        self.damage_flash_frames > 0
    }

    pub fn is_alive(&self) -> (r: bool)
        ensures
            r == (self.health > 0),
    {
        self.health > 0
    }

    pub fn get_sprite_lines(&self) -> (r: Vec<&'static str>)
        ensures
            r@ == match self.enemy_type {
                EnemyType::Basic => seq!["  \\|/  ", " {===} ", "  /_\\  "],
                EnemyType::Fast => seq!["  <*>  ", " <|||> ", "  <*>  "],
                EnemyType::Tank => seq![" [===] ", " |###| ", " [===] "],
            },
    {
        match self.enemy_type {
            EnemyType::Basic => vec!["  \\|/  ", " {===} ", "  /_\\  "],
            EnemyType::Fast => vec!["  <*>  ", " <|||> ", "  <*>  "],
            EnemyType::Tank => vec![" [===] ", " |###| ", " [===] "],
        }
    }

    pub fn get_width(&self) -> (r: u16)
        ensures
            r == self.width(),
    {
        match self.enemy_type {
            EnemyType::Basic => 7,
            EnemyType::Fast => 8,
            EnemyType::Tank => 8,
        }
    }

    pub fn get_height(&self) -> (r: u16)
        ensures
            r == self.height(),
    {
        match self.enemy_type {
            EnemyType::Basic => 3,
            EnemyType::Fast => 5,
            EnemyType::Tank => 5,
        }
    }

    pub fn get_points(&self) -> (r: u32)
        ensures
            r == self.points(),
    {
        match self.enemy_type {
            EnemyType::Basic => 10,
            EnemyType::Fast => 20,
            EnemyType::Tank => 30,
        }
    }

    pub fn get_center_x(&self) -> (r: u16)
        ensures
            r == self.center_x(),
    {
        self.x.saturating_add(self.get_width() / 2)
    }

    pub fn get_center_y(&self) -> (r: u16)
        ensures
            r == self.center_y(),
    {
        self.y.saturating_add(self.get_height() / 2)
    }
}

} // verus!
