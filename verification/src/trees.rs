use vstd::prelude::*;
use crate::geometry::position::div_toward_zero;
use crate::geometry::rect::{clamped_position, clamped_size, Rect};

verus! {

/// A tree of the scenery: a trunk and a triangle of leaves.
#[derive(Debug, Clone, Copy, PartialEq, Eq, Structural)]
pub struct Tree {
    pub x: i32,
    pub y: i32,
    pub size: i32,
}

impl Tree {
    pub fn new(x: i32, y: i32, size: i32) -> (t: Tree)
        ensures
            t == (Tree { x, y, size }),
    {
        Tree { x, y, size }
    }

    /// The trunk: half as wide as the tree is tall, its corner at the tree's position.
    pub fn trunk_rect(&self) -> (r: Rect)
        ensures
            r.left() == clamped_position(self.x),
            r.top() == clamped_position(self.y),
            r.spec_width() == clamped_size(div_toward_zero(self.size as int, 2) as u32),
            r.spec_height() == clamped_size(self.size as u32),
    {
        let half: i32 = self.size / 2;
        Rect::new(self.x, self.y, half as u32, self.size as u32)
    }

    /// The corners of the triangle of leaves: left, right and top.
    pub fn leaf_triangle(&self) -> (r: [(i32, i32); 3])
        requires
            i32::MIN <= self.x - div_toward_zero(self.size as int, 2) <= i32::MAX,
            i32::MIN <= self.y + div_toward_zero(self.size as int, 2) <= i32::MAX,
            i32::MIN <= self.x + self.size <= i32::MAX,
            i32::MIN <= self.x + div_toward_zero(self.size as int, 4) <= i32::MAX,
            i32::MIN <= self.y - self.size <= i32::MAX,
        ensures
            r@ == seq![
                ((self.x - div_toward_zero(self.size as int, 2)) as i32, (self.y + div_toward_zero(self.size as int, 2)) as i32),
                ((self.x + self.size) as i32, (self.y + div_toward_zero(self.size as int, 2)) as i32),
                ((self.x + div_toward_zero(self.size as int, 4)) as i32, (self.y - self.size) as i32),
            ],
    {
        let r = [
            (self.x - self.size / 2, self.y + self.size / 2),
            (self.x + self.size, self.y + self.size / 2),
            (self.x + self.size / 4, self.y - self.size),
        ];
        assert(r@ =~= seq![
                ((self.x - div_toward_zero(self.size as int, 2)) as i32, (self.y + div_toward_zero(self.size as int, 2)) as i32),
                ((self.x + self.size) as i32, (self.y + div_toward_zero(self.size as int, 2)) as i32),
                ((self.x + div_toward_zero(self.size as int, 4)) as i32, (self.y - self.size) as i32),
            ]);
        r
    }
}

} // verus!
