//! Cosmetic particles; they never take part in collisions.
use vstd::prelude::*;

use crate::grid::{clamp_coord, shift_coord};
use crate::player::count_down;

verus! {

#[derive(Debug, Clone, Copy)]
pub struct Particle {
    pub x: u16,
    pub y: u16,
    pub velocity_x: i16,
    pub velocity_y: i16,
    pub lifetime: u8,
    pub char: char,
}

/// Ticks a spark of a burst lives.
pub const SPARK_TICKS: u8 = 6;

/// Ticks the flash at the middle of a burst lives.
pub const FLASH_TICKS: u8 = 4;

pub open spec fn particle(x: u16, y: u16, vx: i16, vy: i16, lifetime: u8, c: char) -> Particle {
    Particle { x, y, velocity_x: vx, velocity_y: vy, lifetime, char: c }
}

/// The burst at `(x, y)`: a spark in each of the eight directions, starting from
/// straight up and turning clockwise, then a flash that stays in place.
pub open spec fn burst(x: u16, y: u16) -> Seq<Particle> {
    seq![
        particle(x, y, 0i16, -1i16, SPARK_TICKS, '*'),
        particle(x, y, 1i16, -1i16, SPARK_TICKS, '*'),
        particle(x, y, 1i16, 0i16, SPARK_TICKS, '*'),
        particle(x, y, 1i16, 1i16, SPARK_TICKS, '*'),
        particle(x, y, 0i16, 1i16, SPARK_TICKS, '*'),
        particle(x, y, -1i16, 1i16, SPARK_TICKS, '*'),
        particle(x, y, -1i16, 0i16, SPARK_TICKS, '*'),
        particle(x, y, -1i16, -1i16, SPARK_TICKS, '*'),
        particle(x, y, 0i16, 0i16, FLASH_TICKS, 'o'),
    ]
}

impl Particle {
    /// The particle one tick later.
    pub open spec fn advanced(self) -> Particle {
        Particle {
            lifetime: count_down(self.lifetime),
            x: if self.velocity_x != 0 {
                clamp_coord(self.x + self.velocity_x)
            } else {
                self.x
            },
            y: if self.velocity_y != 0 {
                clamp_coord(self.y + self.velocity_y)
            } else {
                self.y
            },
            ..self
        }
    }

    pub open spec fn outside(self, min_x: u16, max_x: u16, max_y: u16) -> bool {
        self.y >= max_y || self.x < min_x || self.x >= max_x
    }

    pub fn new(x: u16, y: u16, velocity_x: i16, velocity_y: i16, lifetime: u8, char: char) -> (r:
        Particle)
        ensures
            r == particle(x, y, velocity_x, velocity_y, lifetime, char),
    {
        Particle { x, y, velocity_x, velocity_y, lifetime, char }
    }

    /// One tick: the lifetime counts down and the velocity is applied, clamped
    /// onto the grid.
    pub fn update(&mut self)
        ensures
            *final(self) == old(self).advanced(),
    {
        if self.lifetime > 0 {
            self.lifetime = self.lifetime - 1;
        }
        if self.velocity_x != 0 {
            self.x = shift_coord(self.x, self.velocity_x);
        }
        if self.velocity_y != 0 {
            self.y = shift_coord(self.y, self.velocity_y);
        }
    }

    pub fn is_dead(&self) -> (r: bool)
        ensures
            r == (self.lifetime == 0),
    {
        self.lifetime == 0
    }

    pub fn is_out_of_bounds(&self, min_x: u16, max_x: u16, max_y: u16) -> (r: bool)
        ensures
            r == self.outside(min_x, max_x, max_y),
    {
        self.y >= max_y || self.x < min_x || self.x >= max_x
    }
}

/// The burst of particles for an explosion at `(center_x, center_y)`.
pub fn create_explosion_particles(center_x: u16, center_y: u16) -> (r: Vec<Particle>)
    ensures
        r@ == burst(center_x, center_y),
{
    let directions: [(i16, i16); 8] = [
        (0, -1),
        (1, -1),
        (1, 0),
        (1, 1),
        (0, 1),
        (-1, 1),
        (-1, 0),
        (-1, -1),
    ];
    let mut particles: Vec<Particle> = Vec::new();
    let mut i: usize = 0;
    while i < 8
        invariant
            0 <= i <= 8,
            directions@ == seq![
                (0i16, -1i16),
                (1i16, -1i16),
                (1i16, 0i16),
                (1i16, 1i16),
                (0i16, 1i16),
                (-1i16, 1i16),
                (-1i16, 0i16),
                (-1i16, -1i16),
            ],
            particles@ == burst(center_x, center_y).take(i as int),
        decreases 8 - i,
    {
        let (dx, dy) = directions[i];
        particles.push(Particle::new(center_x, center_y, dx, dy, SPARK_TICKS, '*'));
        proof {
            assert(burst(center_x, center_y).take(i + 1) =~= burst(center_x, center_y).take(
                i as int,
            ).push(burst(center_x, center_y)[i as int]));
        }
        i = i + 1;
    }
    particles.push(Particle::new(center_x, center_y, 0, 0, FLASH_TICKS, 'o'));
    proof {
        assert(particles@ =~= burst(center_x, center_y));
    }
    particles
}

} // verus!
