use vstd::prelude::*;

verus! {

/// Sub-units per world unit: positions and sizes are fixed-point integers.
pub const SUBUNITS: i64 = 1000;

/// A point in the plane, in sub-units.
#[derive(Clone, Copy, Debug, PartialEq, Eq, Structural)]
pub struct Pos {
    pub x: i64,
    pub y: i64,
}

/// Width and height of a box, in sub-units.
#[derive(Clone, Copy, Debug, PartialEq, Eq, Structural)]
pub struct Size {
    pub w: u32,
    pub h: u32,
}

/// The box used when an entity has no size of its own: one world unit square.
pub open spec fn unit_size() -> Size {
    Size { w: SUBUNITS as u32, h: SUBUNITS as u32 }
}

pub open spec fn size_or_unit(s: Option<Size>) -> Size {
    match s {
        Some(sz) => sz,
        None => unit_size(),
    }
}

/// Open intervals [c - e/2, c + e/2] on one axis overlap (strictly), scaled by 2.
pub open spec fn axis_overlap(ca: int, ea: int, cb: int, eb: int) -> bool {
    2 * ca - ea < 2 * cb + eb && 2 * ca + ea > 2 * cb - eb
}

/// Two boxes, each centred on its position, overlap on both axes.
pub open spec fn boxes_overlap(pa: Pos, sa: Size, pb: Pos, sb: Size) -> bool {
    axis_overlap(pa.x as int, sa.w as int, pb.x as int, sb.w as int)
        && axis_overlap(pa.y as int, sa.h as int, pb.y as int, sb.h as int)
}

pub fn effective_size(s: Option<Size>) -> (r: Size)
    ensures
        r == size_or_unit(s),
{
    match s {
        Some(sz) => sz,
        None => Size { w: SUBUNITS as u32, h: SUBUNITS as u32 },
    }
}

fn axis_overlaps(ca: i64, ea: u32, cb: i64, eb: u32) -> (r: bool)
    ensures
        r == axis_overlap(ca as int, ea as int, cb as int, eb as int),
{
    let a2 = 2 * (ca as i128);
    let b2 = 2 * (cb as i128);
    a2 - (ea as i128) < b2 + (eb as i128) && a2 + (ea as i128) > b2 - (eb as i128)
}

/// Axis-aligned overlap of two boxes centred on `pa` and `pb`; touching edges do not count.
pub fn overlaps(pa: Pos, sa: Size, pb: Pos, sb: Size) -> (r: bool)
    ensures
        r == boxes_overlap(pa, sa, pb, sb),
{
    axis_overlaps(pa.x, sa.w, pb.x, sb.w) && axis_overlaps(pa.y, sa.h, pb.y, sb.h)
}

} // verus!
