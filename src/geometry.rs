use vstd::prelude::*;

verus! {

/// A point in a view's local coordinates.
#[derive(Clone, Copy, Debug, PartialEq, Eq, Structural)]
pub struct LocalPoint {
    pub x: i64,
    pub y: i64,
}

/// A size in a view's local coordinates.
#[derive(Clone, Copy, Debug, PartialEq, Eq, Structural)]
pub struct LocalSize {
    pub width: i64,
    pub height: i64,
}

/// An offset from a parent's origin.
#[derive(Clone, Copy, Debug, PartialEq, Eq, Structural)]
pub struct LocalOffset {
    pub x: i64,
    pub y: i64,
}

/// A rectangle given by its origin and size.
#[derive(Clone, Copy, Debug, PartialEq, Eq, Structural)]
pub struct LocalRect {
    pub origin: LocalPoint,
    pub size: LocalSize,
}

/// An affine transform from local to world coordinates, as the matrix
/// `[m11 m12; m21 m22; m31 m32]` applied to row vectors.
#[derive(Clone, Copy, Debug, PartialEq, Eq, Structural)]
pub struct LocalToWorld {
    pub m11: i64,
    pub m12: i64,
    pub m21: i64,
    pub m22: i64,
    pub m31: i64,
    pub m32: i64,
}

/// The geometry recorded for a view by the layout pass.
#[derive(Clone, Copy, Debug, PartialEq, Eq, Structural)]
pub struct LayoutBox {
    pub rect: LocalRect,
    pub offset: LocalOffset,
}

impl LocalPoint {
    /// The origin.
    pub fn zero() -> (r: LocalPoint)
        ensures
            r.x == 0 && r.y == 0,
    {
        LocalPoint { x: 0, y: 0 }
    }
}

impl LocalOffset {
    /// The zero offset.
    pub fn zero() -> (r: LocalOffset)
        ensures
            r.x == 0 && r.y == 0,
    {
        LocalOffset { x: 0, y: 0 }
    }
}

impl LocalRect {
    /// The rectangle with the given origin and size.
    pub fn new(origin: LocalPoint, size: LocalSize) -> (r: LocalRect)
        ensures
            r.origin == origin && r.size == size,
    {
        LocalRect { origin, size }
    }
}

impl LocalToWorld {
    /// The identity transform.
    pub fn identity() -> (r: LocalToWorld)
        ensures
            r.m11 == 1 && r.m12 == 0 && r.m21 == 0 && r.m22 == 1 && r.m31 == 0 && r.m32 == 0,
    {
        LocalToWorld { m11: 1, m12: 0, m21: 0, m22: 1, m31: 0, m32: 0 }
    }
}

/// The layout box that a wrapper records for itself: origin at zero, the
/// size its child reported, no offset.
pub open spec fn wrapper_box(size: LocalSize) -> LayoutBox {
    LayoutBox {
        rect: LocalRect { origin: LocalPoint { x: 0, y: 0 }, size },
        offset: LocalOffset { x: 0, y: 0 },
    }
}

} // verus!
