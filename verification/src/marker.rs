//! What the marker detector reports, and the rectangle drawn around it.

use vstd::prelude::*;

verus! {

/// A pixel position: `x` counts columns from the left, `y` rows from the top.
/// A detector may place a corner outside the picture.
#[derive(Clone, Copy, Debug, PartialEq, Eq, Structural)]
pub struct Point {
    pub x: i32,
    pub y: i32,
}

/// The four corners of a detected marker, in the order the detector gives
/// them: going round the marker, so that the first and the third lie
/// diagonally opposite.
#[derive(Clone, Copy, Debug)]
pub struct Quad {
    pub corners: [Point; 4],
}

/// What the detector found in one frame: at most one marker, and the text it
/// carries where that could be read. The text is not used by this library.
#[derive(Debug)]
pub struct Detection {
    pub quad: Option<Quad>,
    pub payload: Option<String>,
}

/// An upright rectangle of pixels. All four bounds belong to it.
#[derive(Clone, Copy, Debug, PartialEq, Eq, Structural)]
pub struct Rect {
    pub left: i32,
    pub top: i32,
    pub right: i32,
    pub bottom: i32,
}

/// Pixels that the outline of a rectangle is wide.
pub const OUTLINE_WIDTH: i32 = 2;

/// The sample of the highlight colour in the given channel: full first
/// channel, nothing in the others.
pub open spec fn highlight_sample(channel: int) -> u8 {
    if channel == 0 {
        255
    } else {
        0
    }
}

/// The sample of the highlight colour in the given channel.
pub fn highlight(channel: usize) -> (sample: u8)
    ensures
        sample == highlight_sample(channel as int),
{
    if channel == 0 {
        255
    } else {
        0
    }
}

impl Rect {
    /// The smallest upright rectangle that holds both points.
    pub open spec fn spec_spanning(a: Point, b: Point) -> Rect {
        Rect {
            left: if a.x <= b.x { a.x } else { b.x },
            top: if a.y <= b.y { a.y } else { b.y },
            right: if a.x <= b.x { b.x } else { a.x },
            bottom: if a.y <= b.y { b.y } else { a.y },
        }
    }

    /// The smallest upright rectangle that holds both points.
    #[verifier::when_used_as_spec(spec_spanning)]
    pub fn spanning(a: Point, b: Point) -> (rect: Rect)
        ensures
            rect == Rect::spec_spanning(a, b),
    {
        Rect {
            left: if a.x <= b.x { a.x } else { b.x },
            top: if a.y <= b.y { a.y } else { b.y },
            right: if a.x <= b.x { b.x } else { a.x },
            bottom: if a.y <= b.y { b.y } else { a.y },
        }
    }

    /// Whether the pixel in column `x` of row `y` belongs to the rectangle.
    pub open spec fn contains(&self, x: int, y: int) -> bool {
        self.left <= x <= self.right && self.top <= y <= self.bottom
    }

    /// Whether the pixel in column `x` of row `y` lies on the outline: in the
    /// rectangle, and fewer than [`OUTLINE_WIDTH`] pixels from one of its
    /// four bounds.
    pub open spec fn on_outline(&self, x: int, y: int) -> bool {
        &&& self.contains(x, y)
        &&& (x - self.left < OUTLINE_WIDTH || self.right - x < OUTLINE_WIDTH || y - self.top
            < OUTLINE_WIDTH || self.bottom - y < OUTLINE_WIDTH)
    }

    /// Whether the pixel in column `x` of row `y` lies on the outline.
    pub fn outlines(&self, x: usize, y: usize) -> (yes: bool)
        ensures
            yes == self.on_outline(x as int, y as int),
    {
        if x > i32::MAX as usize || y > i32::MAX as usize {
            return false;
        }
        let x: i64 = x as i64;
        let y: i64 = y as i64;
        let left: i64 = self.left as i64;
        let top: i64 = self.top as i64;
        let right: i64 = self.right as i64;
        let bottom: i64 = self.bottom as i64;
        let width: i64 = OUTLINE_WIDTH as i64;
        left <= x && x <= right && top <= y && y <= bottom && (x - left < width || right - x
            < width || y - top < width || bottom - y < width)
    }
}

impl Quad {
    /// The upright rectangle spanned by the first and the third corner.
    pub open spec fn spec_bounds(&self) -> Rect {
        Rect::spec_spanning(self.corners[0], self.corners[2])
    }

    /// The upright rectangle spanned by the first and the third corner.
    #[verifier::when_used_as_spec(spec_bounds)]
    pub fn bounds(&self) -> (rect: Rect)
        ensures
            rect == self.spec_bounds(),
    {
        Rect::spanning(self.corners[0], self.corners[2])
    }
}

impl Detection {
    /// The rectangle to outline in this frame, if a marker was found.
    pub open spec fn spec_outline(&self) -> Option<Rect> {
        match self.quad {
            Some(quad) => Some(quad.spec_bounds()),
            None => None,
        }
    }

    /// The rectangle to outline in this frame, if a marker was found.
    #[verifier::when_used_as_spec(spec_outline)]
    pub fn outline(&self) -> (rect: Option<Rect>)
        ensures
            rect == self.spec_outline(),
    {
        match &self.quad {
            Some(quad) => Some(quad.bounds()),
            None => None,
        }
    }
}

/// The rectangle of a marker has the first and the third corner of the
/// marker as two of its own corners, whichever of them lies where. Its
/// outline runs through all four of its corners, and through nothing outside
/// the rectangle.
pub proof fn law_outline_runs_through_the_corners(quad: Quad, x: int, y: int)
    ensures
        ({
            let first = quad.corners[0];
            let third = quad.corners[2];
            let rect = quad.spec_bounds();
            &&& rect.left <= rect.right && rect.top <= rect.bottom
            &&& (first.x == rect.left && third.x == rect.right) || (first.x == rect.right
                && third.x == rect.left)
            &&& (first.y == rect.top && third.y == rect.bottom) || (first.y == rect.bottom
                && third.y == rect.top)
            &&& rect.on_outline(first.x as int, first.y as int)
            &&& rect.on_outline(third.x as int, third.y as int)
            &&& rect.on_outline(first.x as int, third.y as int)
            &&& rect.on_outline(third.x as int, first.y as int)
            &&& rect.on_outline(x, y) ==> rect.contains(x, y)
        }),
{
}

} // verus!
