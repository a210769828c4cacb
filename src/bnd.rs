use vstd::prelude::*;
use crate::point::FixVec;

verus! {

/// An axis-aligned bounding box, `min` and `max` corners included.
#[derive(Clone, Copy, Debug, PartialEq, Eq, Structural)]
pub struct FixBnd {
    pub min: FixVec,
    pub max: FixVec,
}

/// The smaller of two integers.
pub open spec fn min_of(a: i64, b: i64) -> i64 {
    if a < b {
        a
    } else {
        b
    }
}

/// The larger of two integers.
pub open spec fn max_of(a: i64, b: i64) -> i64 {
    if a < b {
        b
    } else {
        a
    }
}

/// The smallest box holding both points.
pub open spec fn bnd_of(p0: FixVec, p1: FixVec) -> FixBnd {
    FixBnd {
        min: FixVec { x: min_of(p0.x, p1.x), y: min_of(p0.y, p1.y) },
        max: FixVec { x: max_of(p0.x, p1.x), y: max_of(p0.y, p1.y) },
    }
}

impl FixBnd {
    /// The two boxes share at least one point.
    pub open spec fn collides(self, b: FixBnd) -> bool {
        !(self.max.x < b.min.x || self.min.x > b.max.x) && !(self.max.y < b.min.y || self.min.y > b.max.y)
    }

    /// `b` lies inside this box.
    pub open spec fn holds_box(self, b: FixBnd) -> bool {
        self.max.x >= b.max.x && self.min.x <= b.min.x && self.max.y >= b.max.y && self.min.y <= b.min.y
    }

    /// `p` lies inside this box.
    pub open spec fn holds_point(self, p: FixVec) -> bool {
        self.min.x <= p.x <= self.max.x && self.min.y <= p.y <= self.max.y
    }

    pub fn new_min_max(min: FixVec, max: FixVec) -> (r: FixBnd)
        ensures
            r.min == min,
            r.max == max,
    {
        FixBnd { min, max }
    }

    /// The box from `(-radius, -radius)` to `(radius, radius)`.
    pub fn new_radius(radius: i64) -> (r: FixBnd)
        requires
            radius > i64::MIN,
        ensures
            r.min == (FixVec { x: -radius as i64, y: -radius as i64 }),
            r.max == (FixVec { x: radius, y: radius }),
    {
        FixBnd { min: FixVec::new(-radius, -radius), max: FixVec::new(radius, radius) }
    }

    /// The smallest box holding all the points.
    pub fn new_poitns(points: &[FixVec]) -> (r: FixBnd)
        requires
            points@.len() > 0,
        ensures
            exists|j: int| 0 <= j < points@.len() && r.min.x == points@[j].x,
            exists|j: int| 0 <= j < points@.len() && r.min.y == points@[j].y,
            exists|j: int| 0 <= j < points@.len() && r.max.x == points@[j].x,
            exists|j: int| 0 <= j < points@.len() && r.max.y == points@[j].y,
            forall|j: int| 0 <= j < points@.len() ==> r.holds_point(#[trigger] points@[j]),
    {
        let p0 = points[0];
        let mut min_x = p0.x;
        let mut max_x = p0.x;
        let mut min_y = p0.y;
        let mut max_y = p0.y;

        let n = points.len();
        let mut i: usize = 1;
        while i < n
            invariant
                n == points@.len(),
                1 <= i <= n,
                exists|j: int| 0 <= j < i && min_x == points@[j].x,
                exists|j: int| 0 <= j < i && min_y == points@[j].y,
                exists|j: int| 0 <= j < i && max_x == points@[j].x,
                exists|j: int| 0 <= j < i && max_y == points@[j].y,
                forall|j: int|
                    0 <= j < i ==> min_x <= (#[trigger] points@[j]).x <= max_x && min_y <= points@[j].y <= max_y,
            decreases n - i,
        {
            let p = points[i];
            if p.x < min_x {
                min_x = p.x;
            }
            if p.y < min_y {
                min_y = p.y;
            }
            if p.x > max_x {
                max_x = p.x;
            }
            if p.y > max_y {
                max_y = p.y;
            }
            i += 1;
        }

        FixBnd { min: FixVec::new(min_x, min_y), max: FixVec::new(max_x, max_y) }
    }

    /// The smallest box holding both points.
    pub fn new_two_points(p0: FixVec, p1: FixVec) -> (r: FixBnd)
        ensures
            r == bnd_of(p0, p1),
    {
        let xx = if p0.x < p1.x { (p0.x, p1.x) } else { (p1.x, p0.x) };
        let yy = if p0.y < p1.y { (p0.y, p1.y) } else { (p1.y, p0.y) };
        FixBnd { min: FixVec::new(xx.0, yy.0), max: FixVec::new(xx.1, yy.1) }
    }

    /// The smallest box holding both boxes.
    pub fn union(self, b: Self) -> (r: FixBnd)
        ensures
            r.min.x == min_of(self.min.x, b.min.x),
            r.min.y == min_of(self.min.y, b.min.y),
            r.max.x == max_of(self.max.x, b.max.x),
            r.max.y == max_of(self.max.y, b.max.y),
    {
        let min_x = if self.min.x < b.min.x { self.min.x } else { b.min.x };
        let min_y = if self.min.y < b.min.y { self.min.y } else { b.min.y };
        let max_x = if self.max.x < b.max.x { b.max.x } else { self.max.x };
        let max_y = if self.max.y < b.max.y { b.max.y } else { self.max.y };
        FixBnd { min: FixVec::new(min_x, min_y), max: FixVec::new(max_x, max_y) }
    }

    /// The two boxes share at least one point.
    pub fn is_collide(self, b: FixBnd) -> (r: bool)
        ensures
            r == self.collides(b),
    {
        if self.max.x < b.min.x || self.min.x > b.max.x {
            return false;
        }
        if self.max.y < b.min.y || self.min.y > b.max.y {
            return false;
        }
        true
    }

    /// `b` lies inside this box.
    pub fn is_inside(self, b: FixBnd) -> (r: bool)
        ensures
            r == self.holds_box(b),
    {
        let is_x = self.max.x >= b.max.x && self.min.x <= b.min.x;
        let is_y = self.max.y >= b.max.y && self.min.y <= b.min.y;
        is_x && is_y
    }

    /// `p` lies inside this box.
    pub fn is_contain(self, p: FixVec) -> (r: bool)
        ensures
            r == self.holds_point(p),
    {
        self.min.x <= p.x && p.x <= self.max.x && self.min.y <= p.y && p.y <= self.max.y
    }
}

} // verus!
