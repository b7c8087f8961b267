//! Fixed-point coordinates, points in curve space and pixel space, and the
//! dimensions of the render target.

use vstd::prelude::*;

verus! {

/// The fixed-point representation of `1.0`: every coordinate, colour
/// component, width and radius of this crate is an integer number of
/// millionths.
pub const UNIT: i32 = 1_000_000;

/// The largest width or height of a render target, in whole pixels.
///
/// Up to this bound every pixel coordinate of a point in curve space fits
/// in 64 bits, and every whole pixel position is exactly representable in
/// single precision.
pub const MAX_DIMENSION: u32 = 16_777_216;

/// A point in curve space: the unit square with the origin at the bottom
/// left and `y` growing upwards. Coordinates are millionths; control points
/// lie in `0..=UNIT`, samples of a spline may overshoot.
#[derive(Clone, Copy, Debug, PartialEq, Eq, Structural)]
pub struct Point {
    pub x: i32,
    pub y: i32,
}

/// A point in pixel space: the origin at the top left and `y` growing
/// downwards. Coordinates are millionths of a pixel.
#[derive(Clone, Copy, Debug, PartialEq, Eq, Structural)]
pub struct PixelPoint {
    pub x: i64,
    pub y: i64,
}

/// The dimensions of the pixel buffer that is rendered to, in whole pixels.
///
/// Both dimensions are at least 1 and at most [`MAX_DIMENSION`].
#[derive(Clone, Copy, Debug, PartialEq, Eq)]
pub struct Canvas {
    width: u32,
    height: u32,
}

impl Canvas {
    #[verifier::type_invariant]
    spec fn inv(self) -> bool {
        &&& 1 <= self.width <= MAX_DIMENSION
        &&& 1 <= self.height <= MAX_DIMENSION
    }

    /// The width in pixels, as contracts see it.
    pub closed spec fn spec_width(self) -> u32 {
        self.width
    }

    /// The height in pixels, as contracts see it.
    pub closed spec fn spec_height(self) -> u32 {
        self.height
    }

    /// Whether the dimensions are those of a render target. They are for
    /// every canvas that exists when the program runs.
    pub open spec fn is_target(self) -> bool {
        Self::admits(self.spec_width() as u32, self.spec_height() as u32)
    }

    /// Whether a buffer of `width` by `height` pixels can be a render target.
    pub open spec fn admits(width: u32, height: u32) -> bool {
        &&& 1 <= width <= MAX_DIMENSION
        &&& 1 <= height <= MAX_DIMENSION
    }

    /// Describes a render target of `width` by `height` pixels; `None` when a
    /// dimension is zero or exceeds [`MAX_DIMENSION`].
    pub fn new(width: u32, height: u32) -> (canvas: Option<Canvas>)
        ensures
            canvas is Some <==> Self::admits(width, height),
            canvas matches Some(c) ==> c.spec_width() == width && c.spec_height() == height
                && c.is_target(),
    {
        if 1 <= width && width <= MAX_DIMENSION && 1 <= height && height <= MAX_DIMENSION {
            Some(Canvas { width, height })
        } else {
            None
        }
    }

    /// The width in pixels.
    pub fn width(&self) -> (w: u32)
        ensures
            w == self.spec_width(),
            self.is_target(),
    {
        proof {
            use_type_invariant(self);
        }
        self.width
    }

    /// The height in pixels.
    pub fn height(&self) -> (h: u32)
        ensures
            h == self.spec_height(),
            self.is_target(),
    {
        proof {
            use_type_invariant(self);
        }
        self.height
    }
}

} // verus!
