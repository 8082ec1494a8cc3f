//! Shapes on the playfield and the two overlap tests the game uses.
//!
//! Lengths and positions are whole numbers of thousandths of a pixel, so
//! every test below is exact: nothing is rounded and nothing can overflow.

use vstd::prelude::*;

verus! {

/// The colours an entity can be drawn in.
#[derive(Clone, Copy, Debug, PartialEq, Eq, Structural)]
pub enum Color {
    Beige,
    Blue,
    Brown,
    DarkBlue,
    DarkBrown,
    DarkGray,
    DarkGreen,
    DarkPurple,
    Gray,
    Green,
    Lime,
    Magenta,
    Maroon,
    Orange,
    Pink,
    Purple,
    Red,
    SkyBlue,
    Violet,
    Yellow,
    Gold,
}

/// An axis-aligned box given by its top-left corner and its extents.
#[derive(Clone, Copy, Debug, PartialEq, Eq, Structural)]
pub struct Rect {
    /// Twice the x coordinate of the left edge.
    pub left2: i64,
    /// Twice the y coordinate of the top edge.
    pub top2: i64,
    /// Width.
    pub w: u32,
    /// Height.
    pub h: u32,
}

impl Rect {
    /// Twice the x coordinate of the right edge.
    pub open spec fn right2(self) -> int {
        self.left2 + 2 * self.w
    }

    /// Twice the y coordinate of the bottom edge.
    pub open spec fn bottom2(self) -> int {
        self.top2 + 2 * self.h
    }

    /// Two boxes overlap when neither lies strictly to one side of the
    /// other; boxes that only touch along an edge do overlap.
    pub open spec fn spec_overlaps(self, other: Rect) -> bool {
        &&& self.left2 <= other.right2()
        &&& self.right2() >= other.left2
        &&& self.top2 <= other.bottom2()
        &&& self.bottom2() >= other.top2
    }

    /// Whether the two boxes share at least one point.
    pub fn overlaps(&self, other: &Rect) -> (hit: bool)
        ensures
            hit == self.spec_overlaps(*other),
    {
        let self_right: i128 = self.left2 as i128 + 2 * (self.w as i128);
        let self_bottom: i128 = self.top2 as i128 + 2 * (self.h as i128);
        let other_right: i128 = other.left2 as i128 + 2 * (other.w as i128);
        let other_bottom: i128 = other.top2 as i128 + 2 * (other.h as i128);
        self.left2 as i128 <= other_right && self_right >= other.left2 as i128
            && self.top2 as i128 <= other_bottom && self_bottom >= other.top2 as i128
    }
}

/// A moving object: the ship, a bullet, or the body of an enemy.
///
/// `size` is both the diameter of the object seen as a circle and the side of
/// the object seen as a square; `w` and `h` are the extents of the sprite it
/// is drawn with.
#[derive(Clone, Copy, Debug, PartialEq, Eq, Structural)]
pub struct Shape {
    pub size: u32,
    /// Units per second.
    pub speed: u32,
    pub x: i32,
    pub y: i32,
    pub w: u32,
    pub h: u32,
    pub color: Color,
    /// Set once the object has been hit; it is then dropped at the next prune.
    pub collided: bool,
}

/// Twice the distance along one axis from a point to the nearest point of a
/// segment of length `side` centred `gap` away.
pub open spec fn reach2(gap: int, side: int) -> int {
    let away = if gap < 0 { -gap } else { gap };
    if 2 * away > side { 2 * away - side } else { 0 }
}

impl Shape {
    /// A shape is well formed when it has a positive size.
    pub open spec fn wf(self) -> bool {
        self.size > 0
    }

    /// The box of the sprite: its corner sits half a `size` up and left of
    /// the centre, and it extends by `w` and `h`.
    pub open spec fn spec_rect(self) -> Rect {
        Rect {
            left2: (2 * self.x - self.size) as i64,
            top2: (2 * self.y - self.size) as i64,
            w: self.w,
            h: self.h,
        }
    }

    /// `self` seen as a square of side `size` touches `circle` seen as a
    /// disc of diameter `size`: the point of the square nearest to the disc's
    /// centre is no further from it than the disc's radius.
    pub open spec fn spec_collides_with_circle(self, circle: Shape) -> bool {
        let dx2 = reach2(self.x - circle.x, self.size as int);
        let dy2 = reach2(self.y - circle.y, self.size as int);
        dx2 * dx2 + dy2 * dy2 <= circle.size * circle.size
    }

    /// The sprite boxes of the two shapes overlap.
    pub open spec fn spec_collides_with(self, other: Shape) -> bool {
        self.spec_rect().spec_overlaps(other.spec_rect())
    }

    /// The box of the sprite.
    pub fn rect(&self) -> (r: Rect)
        ensures
            r == self.spec_rect(),
    {
        Rect {
            left2: 2 * (self.x as i64) - (self.size as i64),
            top2: 2 * (self.y as i64) - (self.size as i64),
            w: self.w,
            h: self.h,
        }
    }

    /// Square-against-disc test, used for an enemy against the ship.
    pub fn collides_with_circle(&self, circle: &Shape) -> (hit: bool)
        ensures
            hit == self.spec_collides_with_circle(*circle),
    {
        let dx2: u64 = axis_reach2(self.x, circle.x, self.size);
        let dy2: u64 = axis_reach2(self.y, circle.y, self.size);
        let reach: u128 = square(dx2) + square(dy2);
        reach <= square(circle.size as u64)
    }

    /// Box-against-box test, used for bullets.
    pub fn collides_with(&self, other: &Shape) -> (hit: bool)
        ensures
            hit == self.spec_collides_with(*other),
    {
        self.rect().overlaps(&other.rect())
    }

    /// Asks for the shape to be dropped at the next prune. Marking a shape
    /// that is already marked changes nothing.
    pub fn mark_collided(&mut self)
        ensures
            *final(self) == old(self).marked(),
    {
        self.collided = true;
    }

    /// The shape with its `collided` flag set.
    pub open spec fn marked(self) -> Shape {
        Shape { collided: true, ..self }
    }
}

fn axis_reach2(a: i32, b: i32, side: u32) -> (r: u64)
    ensures
        r == reach2(a - b, side as int),
        r <= 0x2_0000_0000,
{
    let gap: i64 = a as i64 - b as i64;
    let away: i64 = if gap < 0 { -gap } else { gap };
    if 2 * away > side as i64 {
        (2 * away - side as i64) as u64
    } else {
        0
    }
}

fn square(v: u64) -> (r: u128)
    requires
        v <= 0x2_0000_0000,
    ensures
        r == v * v,
        r <= 0x4_0000_0000_0000_0000,
{
    assert(v * v <= 0x2_0000_0000 * 0x2_0000_0000) by (nonlinear_arith)
        requires
            v <= 0x2_0000_0000,
    ;
    (v as u128) * (v as u128)
}

/// Marking twice is the same as marking once.
pub proof fn lemma_mark_collided_idempotent(s: Shape)
    ensures
        s.marked().marked() == s.marked(),
        s.collided ==> s.marked() == s,
{
}

} // verus!
