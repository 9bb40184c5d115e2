//! Integer geometry of the downsampled blur passes.
use vstd::prelude::*;

verus! {

/// Blur passes run at half resolution.
pub const DOWNSAMPLE_FACTOR: u32 = 2;

/// The most samples a gaussian kernel takes on each side of its center.
pub const MAX_GAUSSIAN_SAMPLES_PER_SIDE: u32 = 32;

/// A dimension after downsampling: rounded up so odd edges stay covered, at least one.
pub open spec fn downsampled(dimension: int) -> int {
    if dimension <= 0 {
        1
    } else {
        (dimension + DOWNSAMPLE_FACTOR - 1) / DOWNSAMPLE_FACTOR as int
    }
}

/// Texture dimension for the downsampled blur passes; allocations must agree.
pub fn downsampled_dimension(dimension: u32) -> (r: u32)
    ensures
        r == downsampled(dimension as int),
{
    let rounded_up = dimension / DOWNSAMPLE_FACTOR + if dimension % DOWNSAMPLE_FACTOR == 0 {
        0
    } else {
        1
    };
    if rounded_up == 0 {
        1
    } else {
        rounded_up
    }
}

/// The direction of a separable blur pass.
#[derive(Clone, Copy, Debug, PartialEq, Eq, Structural)]
pub enum BlurAxis {
    Horizontal,
    Vertical,
}

/// The shape a filtered group is clipped to when it is composited.
#[derive(Clone, Copy, Debug, PartialEq, Eq, Structural)]
pub enum FilterCompositeClip {
    RoundedBounds,
    ContentShape,
}

/// A scissor rectangle in downsampled texels.
#[derive(Clone, Copy, Debug, PartialEq, Eq, Structural)]
pub struct ScissorRectangle {
    pub x: u32,
    pub y: u32,
    pub width: u32,
    pub height: u32,
}

impl ScissorRectangle {
    /// The rectangle between two corners already rounded outward to downsampled texels:
    /// a maximum below its minimum collapses onto the minimum.
    pub fn from_downsampled_edges(minimum_x: u32, minimum_y: u32, maximum_x: u32, maximum_y: u32) -> (r: Self)
        ensures
            r.x == minimum_x,
            r.y == minimum_y,
            r.width == if maximum_x > minimum_x { maximum_x - minimum_x } else { 0 },
            r.height == if maximum_y > minimum_y { maximum_y - minimum_y } else { 0 },
    {
        let maximum_x = if maximum_x > minimum_x { maximum_x } else { minimum_x };
        let maximum_y = if maximum_y > minimum_y { maximum_y } else { minimum_y };
        ScissorRectangle {
            x: minimum_x,
            y: minimum_y,
            width: maximum_x - minimum_x,
            height: maximum_y - minimum_y,
        }
    }

    /// The scissor of blurred bounds in a target of `full_width` by `full_height` pixels,
    /// given its edges already scaled to downsampled texels and rounded outward (negative
    /// values taken as 0): each edge is clamped to the downsampled target, and a maximum
    /// below its minimum collapses onto the minimum.
    pub fn for_rounded_edges(
        minimum_x: u32,
        minimum_y: u32,
        maximum_x: u32,
        maximum_y: u32,
        full_width: u32,
        full_height: u32,
    ) -> (r: Self)
        ensures
            r.x == clamp_to(minimum_x as int, downsampled(full_width as int)),
            r.y == clamp_to(minimum_y as int, downsampled(full_height as int)),
            r.x + r.width == at_least_int(clamp_to(maximum_x as int, downsampled(full_width as int)), r.x as int),
            r.y + r.height == at_least_int(clamp_to(maximum_y as int, downsampled(full_height as int)), r.y as int),
    {
        let width = downsampled_dimension(full_width);
        let height = downsampled_dimension(full_height);
        let min_x = if minimum_x < width { minimum_x } else { width };
        let min_y = if minimum_y < height { minimum_y } else { height };
        let max_x = if maximum_x < width { maximum_x } else { width };
        let max_y = if maximum_y < height { maximum_y } else { height };
        Self::from_downsampled_edges(min_x, min_y, max_x, max_y)
    }

    /// Whether the rectangle covers no texel.
    pub fn is_empty(self) -> (r: bool)
        ensures
            r == (self.width == 0 || self.height == 0),
    {
        self.width == 0 || self.height == 0
    }
}

/// `value`, but at most `maximum`.
pub open spec fn clamp_to(value: int, maximum: int) -> int {
    if value < maximum {
        value
    } else {
        maximum
    }
}

/// `value`, but at least `minimum`.
pub open spec fn at_least_int(value: int, minimum: int) -> int {
    if value < minimum {
        minimum
    } else {
        value
    }
}

} // verus!
