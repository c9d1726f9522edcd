//! Formations: rigid groups of enemies that sweep side to side and descend.
use vstd::prelude::*;

use crate::grid::clamp_coord;

verus! {

#[derive(Debug, Clone, Copy, PartialEq, Eq, Structural)]
pub enum FormationType {
    VShape,
    Diamond,
    Wall,
    Block,
}

/// Cells a formation keeps clear of the lane's left edge.
pub const LEFT_MARGIN: i32 = 5;

/// Cells a formation keeps clear of the lane's right edge.
pub const RIGHT_MARGIN: i32 = 10;

/// The center descends one row on ticks whose counter is a multiple of this.
pub const DESCENT_PERIOD: u16 = 8;

/// The center tries to move sideways on ticks whose counter is a multiple of this.
pub const SWEEP_PERIOD: u16 = 4;

/// Member offsets `(dx, dy)` from the center, for each shape.
pub open spec fn offsets(t: FormationType) -> Seq<(i16, i16)> {
    match t {
        FormationType::VShape => seq![
            (0i16, 0i16),
            (-8i16, 4i16),
            (-16i16, 8i16),
            (-24i16, 12i16),
            (8i16, 4i16),
            (16i16, 8i16),
            (24i16, 12i16),
        ],
        FormationType::Diamond => seq![
            (0i16, 0i16),
            (-8i16, 4i16),
            (8i16, 4i16),
            (-16i16, 8i16),
            (0i16, 8i16),
            (16i16, 8i16),
            (-8i16, 12i16),
            (8i16, 12i16),
            (0i16, 16i16),
        ],
        FormationType::Wall => seq![
            (-24i16, 0i16),
            (-16i16, 0i16),
            (-8i16, 0i16),
            (0i16, 0i16),
            (8i16, 0i16),
            (16i16, 0i16),
            (24i16, 0i16),
            (-24i16, 4i16),
            (-16i16, 4i16),
            (-8i16, 4i16),
            (0i16, 4i16),
            (8i16, 4i16),
            (16i16, 4i16),
            (24i16, 4i16),
        ],
        FormationType::Block => seq![
            (-12i16, 0i16),
            (-4i16, 0i16),
            (4i16, 0i16),
            (12i16, 0i16),
            (-12i16, 4i16),
            (-4i16, 4i16),
            (4i16, 4i16),
            (12i16, 4i16),
            (-12i16, 8i16),
            (-4i16, 8i16),
            (4i16, 8i16),
            (12i16, 8i16),
            (-12i16, 12i16),
            (-4i16, 12i16),
            (4i16, 12i16),
            (12i16, 12i16),
        ],
    }
}

/// Whether a member at horizontal offset `dx` from a center at column `cx` stays
/// inside the margins of a lane `max_x` wide.
pub open spec fn column_in_margins(cx: int, dx: i16, max_x: u16) -> bool {
    LEFT_MARGIN <= cx + dx && cx + dx <= max_x - RIGHT_MARGIN
}

/// Whether every member of a `t`-shaped formation centered at column `cx` stays
/// inside the margins: its leftmost and rightmost members included.
pub open spec fn fits(t: FormationType, cx: int, max_x: u16) -> bool {
    forall|k: int| 0 <= k < offsets(t).len() ==> column_in_margins(cx, #[trigger] offsets(t)[k].0, max_x)
}

#[derive(Debug, Clone)]
pub struct Formation {
    pub center_x: u16,
    pub center_y: u16,
    pub formation_type: FormationType,
    /// Horizontal direction of travel: -1 left, 1 right.
    pub direction_x: i16,
    /// Tick counter that paces descent and sweep.
    pub frame_counter: u16,
    /// Indices, in the enemy collection, of this formation's members.
    pub enemy_indices: Vec<usize>,
}

impl Formation {
    /// The direction of travel is left or right.
    pub open spec fn wf(&self) -> bool {
        self.direction_x == 1 || self.direction_x == -1
    }

    /// Whether `other` has the same position, shape, heading and counter; the
    /// member list may differ.
    pub open spec fn same_course(&self, other: Formation) -> bool {
        &&& self.center_x == other.center_x
        &&& self.center_y == other.center_y
        &&& self.formation_type == other.formation_type
        &&& self.direction_x == other.direction_x
        &&& self.frame_counter == other.frame_counter
    }

    /// The tick counter after `update`.
    pub open spec fn next_counter(&self) -> u16 {
        ((self.frame_counter + 1) % 0x10000) as u16
    }

    /// Whether the next sweep attempt must turn back: moving one cell in the
    /// current direction would put a member outside the margins.
    pub open spec fn blocked(&self, max_x: u16) -> bool {
        !fits(self.formation_type, self.center_x + self.direction_x, max_x)
    }

    /// The formation one tick later in a lane `max_x` wide.
    pub open spec fn advanced(self, max_x: u16) -> Formation {
        let counter = self.next_counter();
        let sweep = counter % SWEEP_PERIOD == 0;
        Formation {
            frame_counter: counter,
            center_y: if counter % DESCENT_PERIOD == 0 {
                clamp_coord(self.center_y + 1)
            } else {
                self.center_y
            },
            center_x: if sweep && !self.blocked(max_x) {
                (self.center_x + self.direction_x) as u16
            } else {
                self.center_x
            },
            direction_x: if sweep && self.blocked(max_x) {
                (-self.direction_x) as i16
            } else {
                self.direction_x
            },
            ..self
        }
    }

    /// A formation of shape `formation_type` centered at `(center_x, center_y)`,
    /// heading right, with no members yet.
    pub fn new(center_x: u16, center_y: u16, formation_type: FormationType) -> (r: Formation)
        ensures
            r.center_x == center_x,
            r.center_y == center_y,
            r.formation_type == formation_type,
            r.direction_x == 1,
            r.frame_counter == 0,
            r.enemy_indices@ == Seq::<usize>::empty(),
            r.wf(),
    {
        Formation {
            center_x,
            center_y,
            formation_type,
            direction_x: 1,
            frame_counter: 0,
            enemy_indices: Vec::new(),
        }
    }

    /// The member offsets `(dx, dy)` from the center for this formation's shape.
    pub fn get_positions(&self) -> (r: Vec<(i16, i16)>)
        ensures
            r@ == offsets(self.formation_type),
    {
        match self.formation_type {
            FormationType::VShape => vec![(0, 0), (-8, 4), (-16, 8), (-24, 12), (8, 4), (16, 8), (24, 12)],
            FormationType::Diamond => vec![
                (0, 0),
                (-8, 4),
                (8, 4),
                (-16, 8),
                (0, 8),
                (16, 8),
                (-8, 12),
                (8, 12),
                (0, 16),
            ],
            FormationType::Wall => vec![
                (-24, 0),
                (-16, 0),
                (-8, 0),
                (0, 0),
                (8, 0),
                (16, 0),
                (24, 0),
                (-24, 4),
                (-16, 4),
                (-8, 4),
                (0, 4),
                (8, 4),
                (16, 4),
                (24, 4),
            ],
            FormationType::Block => vec![
                (-12, 0),
                (-4, 0),
                (4, 0),
                (12, 0),
                (-12, 4),
                (-4, 4),
                (4, 4),
                (12, 4),
                (-12, 8),
                (-4, 8),
                (4, 8),
                (12, 8),
                (-12, 12),
                (-4, 12),
                (4, 12),
                (12, 12),
            ],
        }
    }

    /// One tick of a formation in a lane `max_x` wide. The counter advances
    /// (wrapping); on every eighth tick the center descends a row; on every fourth
    /// tick the center moves one cell in its direction, unless that would put a
    /// member outside the margins, in which case the direction turns instead.
    pub fn update(&mut self, max_x: u16)
        requires
            old(self).wf(),
        ensures
            *final(self) == old(self).advanced(max_x),
            final(self).wf(),
            final(self).frame_counter == old(self).next_counter(),
            final(self).formation_type == old(self).formation_type,
            final(self).enemy_indices == old(self).enemy_indices,
            final(self).center_y == if old(self).next_counter() % DESCENT_PERIOD == 0 {
                clamp_coord(old(self).center_y + 1)
            } else {
                old(self).center_y
            },
            old(self).next_counter() % SWEEP_PERIOD != 0 ==> {
                &&& final(self).center_x == old(self).center_x
                &&& final(self).direction_x == old(self).direction_x
            },
            old(self).next_counter() % SWEEP_PERIOD == 0 && !old(self).blocked(max_x) ==> {
                &&& final(self).center_x == old(self).center_x + old(self).direction_x
                &&& final(self).direction_x == old(self).direction_x
            },
            old(self).next_counter() % SWEEP_PERIOD == 0 && old(self).blocked(max_x) ==> {
                &&& final(self).center_x == old(self).center_x
                &&& final(self).direction_x == -old(self).direction_x
            },
            // The direction turns exactly when a sweep is due and blocked.
            (final(self).direction_x != old(self).direction_x) == (old(self).next_counter()
                % SWEEP_PERIOD == 0 && old(self).blocked(max_x)),
    {
        self.frame_counter = self.frame_counter.wrapping_add(1);
        if self.frame_counter % DESCENT_PERIOD == 0 {
            self.center_y = self.center_y.saturating_add(1);
        }
        if self.frame_counter % SWEEP_PERIOD == 0 {
            let new_x: i32 = self.center_x as i32 + self.direction_x as i32;
            let positions = self.get_positions();
            let mut inside = true;
            let mut i: usize = 0;
            while i < positions.len()
                invariant
                    0 <= i <= positions@.len(),
                    positions@ == offsets(self.formation_type),
                    new_x == self.center_x + self.direction_x,
                    inside == forall|k: int|
                        0 <= k < i ==> column_in_margins(new_x as int, #[trigger] positions@[k].0, max_x),
                decreases positions@.len() - i,
            {
                let dx = positions[i].0 as i32;
                if !(LEFT_MARGIN <= new_x + dx && new_x + dx <= max_x as i32 - RIGHT_MARGIN) {
                    inside = false;
                }
                i = i + 1;
            }
            proof {
                // Every shape has a member at or left of the center and one at or
                // right of it, so a fitting center lies on the grid.
                let o = offsets(self.formation_type);
                let (l, r) = match self.formation_type {
                    FormationType::Block => (0int, 3int),
                    FormationType::Wall => (0int, 6int),
                    _ => (0int, 0int),
                };
                assert(o[l].0 <= 0 && o[r].0 >= 0);
                if inside {
                    assert(column_in_margins(new_x as int, o[l].0, max_x));
                    assert(column_in_margins(new_x as int, o[r].0, max_x));
                }
            }
            if inside {
                self.center_x = new_x as u16;
            } else {
                self.direction_x = -self.direction_x;
            }
        }
    }
}

} // verus!
