//! Positions and sizes, kept exactly.

use vstd::prelude::*;

verus! {

/// A position in a widget's parent. Each coordinate is kept as the bit
/// pattern of a binary64 number, so that positions can be stored and compared
/// exactly; zero is the pattern of `+0.0`.
#[derive(Clone, Copy, Debug, PartialEq, Eq, Structural)]
pub struct Point {
    pub x: u64,
    pub y: u64,
}

/// The extent of a widget, each length kept as the bit pattern of a binary64
/// number.
#[derive(Clone, Copy, Debug, PartialEq, Eq, Structural)]
pub struct Size {
    pub width: u64,
    pub height: u64,
}

/// The smallest and the largest size that a layout may answer with.
#[derive(Clone, Copy, Debug, PartialEq, Eq, Structural)]
pub struct BoxConstraints {
    pub min: Size,
    pub max: Size,
}

impl Point {
    /// The point `(0, 0)`.
    pub open spec fn spec_origin() -> Point {
        Point { x: 0, y: 0 }
    }

    /// The point `(0, 0)`.
    #[verifier::when_used_as_spec(spec_origin)]
    pub fn origin() -> (p: Point)
        ensures
            p == Point::spec_origin(),
    {
        Point { x: 0, y: 0 }
    }
}

impl Size {
    /// The size with no width and no height.
    pub open spec fn spec_zero() -> Size {
        Size { width: 0, height: 0 }
    }

    /// The size with no width and no height.
    #[verifier::when_used_as_spec(spec_zero)]
    pub fn zero() -> (s: Size)
        ensures
            s == Size::spec_zero(),
    {
        Size { width: 0, height: 0 }
    }
}

} // verus!
