//! Weapon pickups that drift down the field.
use vstd::prelude::*;

use crate::grid::clamp_coord;
use crate::player::WeaponType;

verus! {

/// A pickup falls one row each time its counter reaches a multiple of this.
pub const PICKUP_FALL_PERIOD: u8 = 15;

pub const PICKUP_WIDTH: u16 = 1;

pub const PICKUP_HEIGHT: u16 = 1;

#[derive(Debug, Clone, Copy)]
pub struct Pickup {
    pub x: u16,
    pub y: u16,
    pub weapon_type: WeaponType,
    pub frame_counter: u8,
}

impl WeaponType {
    /// Letter a pickup carrying this weapon shows.
    pub open spec fn letter(self) -> char {
        match self {
            WeaponType::BasicGun => 'G',
            WeaponType::Sword => 'S',
            WeaponType::Bug => 'B',
            WeaponType::Bomber => 'X',
        }
    }
}

impl Pickup {
    /// The pickup one tick later.
    pub open spec fn advanced(self) -> Pickup {
        let counter = ((self.frame_counter + 1) % 256) as u8;
        Pickup {
            frame_counter: counter,
            y: if counter % PICKUP_FALL_PERIOD == 0 {
                clamp_coord(self.y + 1)
            } else {
                self.y
            },
            ..self
        }
    }

    pub fn new(x: u16, y: u16, weapon_type: WeaponType) -> (r: Pickup)
        ensures
            r == (Pickup { x, y, weapon_type, frame_counter: 0 }),
    {
        Pickup { x, y, weapon_type, frame_counter: 0 }
    }

    /// One tick: the counter advances (wrapping) and on every fifteenth value the
    /// pickup falls a row.
    pub fn update(&mut self)
        ensures
            *final(self) == old(self).advanced(),
    {
        self.frame_counter = self.frame_counter.wrapping_add(1);
        if self.frame_counter % PICKUP_FALL_PERIOD == 0 {
            self.y = self.y.saturating_add(1);
        }
    }

    pub fn is_out_of_bounds(&self, max_y: u16) -> (r: bool)
        ensures
            r == (self.y >= max_y),
    {
        self.y >= max_y
    }

    pub fn get_width(&self) -> (r: u16)
        ensures
            r == PICKUP_WIDTH,
    {
        PICKUP_WIDTH
    }

    pub fn get_height(&self) -> (r: u16)
        ensures
            r == PICKUP_HEIGHT,
    {
        PICKUP_HEIGHT
    }

    pub fn get_char(&self) -> (r: char)
        ensures
            r == self.weapon_type.letter(),
    {
        match self.weapon_type {
            WeaponType::BasicGun => 'G',
            WeaponType::Sword => 'S',
            WeaponType::Bug => 'B',
            WeaponType::Bomber => 'X',
        }
    }
}

} // verus!
