use vstd::prelude::*;

verus! {

/// Largest coordinate magnitude the simulation ever stores, in milliunits
/// (2^40). Keeps every collision and motion computation inside `i64`.
pub const COORD_LIMIT: i64 = 1099511627776;

/// Largest extent (width or height) of an entity, in milliunits (2^20).
pub const SIZE_LIMIT: i64 = 1048576;

/// A planar point or extent in milliunits.
#[derive(Clone, Copy, PartialEq, Eq, Structural, Debug)]
pub struct Vec2 {
    pub x: i64,
    pub y: i64,
}

/// Window bounds handed in at startup, in milliunits. The origin sits at
/// the center of the window, so visible x spans `-w/2 .. w/2` and visible
/// y spans `-h/2 .. h/2`.
#[derive(Clone, Copy, PartialEq, Eq, Structural, Debug)]
pub struct WinSize {
    pub w: i64,
    pub h: i64,
}

/// A usable window: wide enough for a formation offset to be drawn and
/// tall enough for a spawn edge band of 100 units to exist, and small
/// enough that every derived coordinate stays far inside `COORD_LIMIT`.
pub open spec fn win_wf(win: WinSize) -> bool {
    &&& 4 <= win.w <= 1048576
    &&& 200002 <= win.h <= 1048576
}

pub open spec fn abs_v(v: int) -> int {
    if v < 0 {
        -v
    } else {
        v
    }
}

/// Two axis-aligned boxes, each given by a center and a full (width, height)
/// extent, overlap iff on both axes the center distance is strictly below
/// the sum of the half extents. A box with a nonpositive extent never
/// overlaps anything.
pub open spec fn spec_overlaps(a: Vec2, asz: Vec2, b: Vec2, bsz: Vec2) -> bool {
    &&& asz.x > 0 && asz.y > 0 && bsz.x > 0 && bsz.y > 0
    &&& 2 * abs_v(a.x - b.x) < asz.x + bsz.x
    &&& 2 * abs_v(a.y - b.y) < asz.y + bsz.y
}

pub fn overlaps(a: Vec2, asz: Vec2, b: Vec2, bsz: Vec2) -> (r: bool)
    requires
        abs_v(a.x as int) <= COORD_LIMIT,
        abs_v(a.y as int) <= COORD_LIMIT,
        abs_v(b.x as int) <= COORD_LIMIT,
        abs_v(b.y as int) <= COORD_LIMIT,
        asz.x <= SIZE_LIMIT,
        asz.y <= SIZE_LIMIT,
        bsz.x <= SIZE_LIMIT,
        bsz.y <= SIZE_LIMIT,
    ensures
        r == spec_overlaps(a, asz, b, bsz),
{
    if asz.x <= 0 || asz.y <= 0 || bsz.x <= 0 || bsz.y <= 0 {
        return false;
    }
    let dx: i64 = if a.x >= b.x {
        a.x - b.x
    } else {
        b.x - a.x
    };
    let dy: i64 = if a.y >= b.y {
        a.y - b.y
    } else {
        b.y - a.y
    };
    2 * dx < asz.x + bsz.x && 2 * dy < asz.y + bsz.y
}

/// Overlap does not depend on the order of the two boxes.
pub proof fn lemma_overlaps_symmetric(a: Vec2, asz: Vec2, b: Vec2, bsz: Vec2)
    ensures
        spec_overlaps(a, asz, b, bsz) == spec_overlaps(b, bsz, a, asz),
{
}

/// Boxes whose centers are at least the sum of the half extents apart on
/// some axis do not overlap.
pub proof fn lemma_separated_boxes_disjoint(a: Vec2, asz: Vec2, b: Vec2, bsz: Vec2)
    requires
        2 * abs_v(a.x - b.x) >= asz.x + bsz.x || 2 * abs_v(a.y - b.y) >= asz.y + bsz.y,
    ensures
        !spec_overlaps(a, asz, b, bsz),
{
}

} // verus!
