use vstd::prelude::*;

verus! {

/// Largest coordinate and size that a rectangle holds: half of `i32::MAX`, so that
/// the right and bottom edges of any rectangle still fit in an `i32`.
pub const MAX_INT_VALUE: u32 = 1073741823;

/// Smallest coordinate that a rectangle holds: half of `i32::MIN`.
pub const MIN_INT_VALUE: i32 = -1073741824;

/// A coordinate clamped into `[MIN_INT_VALUE, MAX_INT_VALUE]`.
pub open spec fn clamped_position(v: i32) -> int {
    if v > MAX_INT_VALUE {
        MAX_INT_VALUE as int
    } else if v < MIN_INT_VALUE {
        MIN_INT_VALUE as int
    } else {
        v as int
    }
}

/// A size clamped into `[1, MAX_INT_VALUE]`: a rectangle is never empty.
pub open spec fn clamped_size(v: u32) -> int {
    if v == 0 {
        1
    } else if v > MAX_INT_VALUE {
        MAX_INT_VALUE as int
    } else {
        v as int
    }
}

/// Whether the half-open intervals `[a, a + aw)` and `[b, b + bw)` share a point.
pub open spec fn intervals_overlap(a: int, aw: int, b: int, bw: int) -> bool {
    let lo = if a < b { b } else { a };
    let hi = if a + aw < b + bw { a + aw } else { b + bw };
    lo < hi
}

/// A non-empty axis-aligned rectangle of the window, in pixels.
#[derive(Debug, Clone, Copy, PartialEq, Eq)]
pub struct Rect {
    x: i32,
    y: i32,
    w: u32,
    h: u32,
}

impl Rect {
    /// Every rectangle lies in the clamped ranges.
    #[verifier::type_invariant]
    pub open spec fn inv(self) -> bool {
        self.wf()
    }

    pub closed spec fn left(self) -> int {
        self.x as int
    }

    pub closed spec fn top(self) -> int {
        self.y as int
    }

    pub closed spec fn spec_width(self) -> int {
        self.w as int
    }

    pub closed spec fn spec_height(self) -> int {
        self.h as int
    }

    /// Coordinates and sizes lie in the clamped ranges.
    pub open spec fn wf(self) -> bool {
        &&& MIN_INT_VALUE <= self.left() <= MAX_INT_VALUE
        &&& MIN_INT_VALUE <= self.top() <= MAX_INT_VALUE
        &&& 1 <= self.spec_width() <= MAX_INT_VALUE
        &&& 1 <= self.spec_height() <= MAX_INT_VALUE
    }

    /// Whether the two rectangles share an inner point (a shared edge does not count).
    pub open spec fn overlaps(self, other: Rect) -> bool {
        &&& intervals_overlap(self.left(), self.spec_width(), other.left(), other.spec_width())
        &&& intervals_overlap(self.top(), self.spec_height(), other.top(), other.spec_height())
    }

    /// The rectangle that `new` builds from these arguments.
    pub closed spec fn spec_new(x: i32, y: i32, width: u32, height: u32) -> Rect {
        Rect {
            x: clamped_position(x) as i32,
            y: clamped_position(y) as i32,
            w: clamped_size(width) as u32,
            h: clamped_size(height) as u32,
        }
    }

    /// The rectangle with corner `(x, y)` and the given size; coordinates are clamped into
    /// the range of rectangle coordinates and a size of 0 becomes 1.
    pub fn new(x: i32, y: i32, width: u32, height: u32) -> (r: Rect)
        ensures
            r.wf(),
            r.left() == clamped_position(x),
            r.top() == clamped_position(y),
            r.spec_width() == clamped_size(width),
            r.spec_height() == clamped_size(height),
            r == Rect::spec_new(x, y, width, height),
    {
        Rect {
            x: clamp_position(x),
            y: clamp_position(y),
            w: clamp_size(width),
            h: clamp_size(height),
        }
    }

    pub fn x(&self) -> (r: i32)
        ensures
            r == self.left(),
            MIN_INT_VALUE <= r <= MAX_INT_VALUE,
    {
        proof {
            use_type_invariant(self);
        }
        self.x
    }

    pub fn y(&self) -> (r: i32)
        ensures
            r == self.top(),
            MIN_INT_VALUE <= r <= MAX_INT_VALUE,
    {
        proof {
            use_type_invariant(self);
        }
        self.y
    }

    pub fn width(&self) -> (r: u32)
        ensures
            r == self.spec_width(),
            1 <= r <= MAX_INT_VALUE,
    {
        proof {
            use_type_invariant(self);
        }
        self.w
    }

    pub fn height(&self) -> (r: u32)
        ensures
            r == self.spec_height(),
            1 <= r <= MAX_INT_VALUE,
    {
        proof {
            use_type_invariant(self);
        }
        self.h
    }

    /// Moves the left edge to `x`, clamped into the range of rectangle coordinates.
    pub fn set_x(&mut self, x: i32)
        ensures
            final(self).left() == clamped_position(x),
            final(self).top() == old(self).top(),
            final(self).spec_width() == old(self).spec_width(),
            final(self).spec_height() == old(self).spec_height(),
            final(self).wf(),
    {
        proof {
            use_type_invariant(&*self);
        }
        self.x = clamp_position(x);
    }

    /// Moves the top edge to `y`, clamped into the range of rectangle coordinates.
    pub fn set_y(&mut self, y: i32)
        ensures
            final(self).top() == clamped_position(y),
            final(self).left() == old(self).left(),
            final(self).spec_width() == old(self).spec_width(),
            final(self).spec_height() == old(self).spec_height(),
            final(self).wf(),
    {
        proof {
            use_type_invariant(&*self);
        }
        self.y = clamp_position(y);
    }

    /// Whether the two rectangles overlap; rectangles that only share an edge do not.
    pub fn has_intersection(&self, other: Rect) -> (r: bool)
        ensures
            r == self.overlaps(other),
            self.wf(),
            other.wf(),
    {
        proof {
            use_type_invariant(self);
            use_type_invariant(&other);
        }
        let a_min = if other.x > self.x { other.x } else { self.x };
        let a_end: i32 = self.x + self.w as i32;
        let b_end: i32 = other.x + other.w as i32;
        let a_max = if b_end < a_end { b_end } else { a_end };
        if a_max <= a_min {
            return false;
        }
        let c_min = if other.y > self.y { other.y } else { self.y };
        let c_end: i32 = self.y + self.h as i32;
        let d_end: i32 = other.y + other.h as i32;
        let c_max = if d_end < c_end { d_end } else { c_end };
        if c_max <= c_min {
            return false;
        }
        true
    }
}

fn clamp_position(v: i32) -> (r: i32)
    ensures
        r == clamped_position(v),
{
    if v > MAX_INT_VALUE as i32 {
        MAX_INT_VALUE as i32
    } else if v < MIN_INT_VALUE {
        MIN_INT_VALUE
    } else {
        v
    }
}

fn clamp_size(v: u32) -> (r: u32)
    ensures
        r == clamped_size(v),
{
    if v == 0 {
        1
    } else if v > MAX_INT_VALUE {
        MAX_INT_VALUE
    } else {
        v
    }
}

/// A rectangle overlaps itself, and overlapping is symmetric.
pub proof fn lemma_overlap_reflexive_symmetric(a: Rect, b: Rect)
    requires
        a.wf(),
        b.wf(),
    ensures
        a.overlaps(a),
        a.overlaps(b) == b.overlaps(a),
{
}

/// Two rectangles whose x ranges meet only at an edge do not overlap.
pub proof fn lemma_shared_edge_no_overlap(a: Rect, b: Rect)
    requires
        a.wf(),
        b.wf(),
        b.left() == a.left() + a.spec_width(),
    ensures
        !a.overlaps(b),
{
}

} // verus!
