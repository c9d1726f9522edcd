//! Coordinates on the playfield grid and the box tests the resolver uses.
use vstd::prelude::*;

verus! {

/// Largest coordinate a cell can have.
pub open spec fn coord_max() -> int {
    u16::MAX as int
}

/// A signed position pulled back onto the grid: below zero becomes zero,
/// above the largest coordinate becomes the largest coordinate.
pub open spec fn clamp_coord(v: int) -> u16 {
    if v < 0 {
        0u16
    } else if v > coord_max() {
        u16::MAX
    } else {
        v as u16
    }
}

/// `base + delta`, clamped onto the grid.
pub fn shift_coord(base: u16, delta: i16) -> (r: u16)
    ensures
        r == clamp_coord(base as int + delta as int),
{
    let v: i32 = base as i32 + delta as i32;
    if v < 0 {
        0
    } else if v > u16::MAX as i32 {
        u16::MAX
    } else {
        v as u16
    }
}

/// Whether the point `(px, py)` lies in the box with corner `(bx, by)`,
/// width `w` and height `h` (right and bottom edges excluded).
pub open spec fn point_in_box(px: u16, py: u16, bx: u16, by: u16, w: u16, h: u16) -> bool {
    bx <= px && (px as int) < bx + w && by <= py && (py as int) < by + h
}

/// Whether two boxes share at least one cell.
pub open spec fn boxes_overlap(
    ax: u16,
    ay: u16,
    aw: u16,
    ah: u16,
    bx: u16,
    by: u16,
    bw: u16,
    bh: u16,
) -> bool {
    (ax as int) < bx + bw && (bx as int) < ax + aw && (ay as int) < by + bh && (by as int) < ay
        + ah
}

pub fn point_in(px: u16, py: u16, bx: u16, by: u16, w: u16, h: u16) -> (r: bool)
    ensures
        r == point_in_box(px, py, bx, by, w, h),
{
    bx <= px && (px as u32) < bx as u32 + w as u32 && by <= py && (py as u32) < by as u32
        + h as u32
}

pub fn overlap(ax: u16, ay: u16, aw: u16, ah: u16, bx: u16, by: u16, bw: u16, bh: u16) -> (r:
    bool)
    ensures
        r == boxes_overlap(ax, ay, aw, ah, bx, by, bw, bh),
{
    (ax as u32) < bx as u32 + bw as u32 && (bx as u32) < ax as u32 + aw as u32 && (ay as u32)
        < by as u32 + bh as u32 && (by as u32) < ay as u32 + ah as u32
}

} // verus!
