use vstd::prelude::*;
use crate::fix_float::in_i32;
use crate::grid::point::IntPoint;

verus! {

/// An axis-aligned rectangle of the integer grid, borders included.
#[derive(Debug, Clone, Copy, PartialEq, Eq, Structural)]
pub struct IntRect {
    pub min_x: i32,
    pub max_x: i32,
    pub min_y: i32,
    pub max_y: i32,
}

pub open spec fn min_of(a: int, b: int) -> int {
    if a <= b {
        a
    } else {
        b
    }
}

pub open spec fn max_of(a: int, b: int) -> int {
    if a >= b {
        a
    } else {
        b
    }
}

/// The smallest rectangle that holds `rect` and `p`.
pub open spec fn grown(rect: IntRect, p: IntPoint) -> IntRect {
    IntRect {
        min_x: min_of(rect.min_x as int, p.x as int) as i32,
        max_x: max_of(rect.max_x as int, p.x as int) as i32,
        min_y: min_of(rect.min_y as int, p.y as int) as i32,
        max_y: max_of(rect.max_y as int, p.y as int) as i32,
    }
}

/// The smallest rectangle that holds every point of a non-empty sequence.
pub open spec fn bounding_box(points: Seq<IntPoint>) -> IntRect
    decreases points.len(),
{
    if points.len() <= 1 {
        let p = points[0];
        IntRect { min_x: p.x, max_x: p.x, min_y: p.y, max_y: p.y }
    } else {
        grown(bounding_box(points.drop_last()), points.last())
    }
}

/// The smallest rectangle that holds two rectangles.
pub open spec fn union_of(a: IntRect, b: IntRect) -> IntRect {
    IntRect {
        min_x: min_of(a.min_x as int, b.min_x as int) as i32,
        max_x: max_of(a.max_x as int, b.max_x as int) as i32,
        min_y: min_of(a.min_y as int, b.min_y as int) as i32,
        max_y: max_of(a.max_y as int, b.max_y as int) as i32,
    }
}

fn min_i32(a: i32, b: i32) -> (r: i32)
    ensures
        r == min_of(a as int, b as int),
{
    if a <= b {
        a
    } else {
        b
    }
}

fn max_i32(a: i32, b: i32) -> (r: i32)
    ensures
        r == max_of(a as int, b as int),
{
    if a >= b {
        a
    } else {
        b
    }
}

impl IntRect {
    /// The minimum does not exceed the maximum on either axis.
    pub open spec fn well_formed(self) -> bool {
        self.min_x <= self.max_x && self.min_y <= self.max_y
    }

    /// `p` lies in the rectangle or on its border.
    pub open spec fn holds(self, p: IntPoint) -> bool {
        self.min_x <= p.x <= self.max_x && self.min_y <= p.y <= self.max_y
    }

    pub fn width(&self) -> (r: i32)
        requires
            in_i32(self.max_x - self.min_x),
        ensures
            r == self.max_x - self.min_x,
    {
        self.max_x - self.min_x
    }

    pub fn height(&self) -> (r: i32)
        requires
            in_i32(self.max_y - self.min_y),
        ensures
            r == self.max_y - self.min_y,
    {
        self.max_y - self.min_y
    }

    pub fn new(min_x: i32, max_x: i32, min_y: i32, max_y: i32) -> (r: Self)
        ensures
            r == (IntRect { min_x, max_x, min_y, max_y }),
    {
        Self { min_x, max_x, min_y, max_y }
    }

    pub fn with_min_max(min: IntPoint, max: IntPoint) -> (r: Self)
        ensures
            r == (IntRect { min_x: min.x, max_x: max.x, min_y: min.y, max_y: max.y }),
    {
        Self { min_x: min.x, max_x: max.x, min_y: min.y, max_y: max.y }
    }

    /// The rectangle with the corners `a` and `b`, in any order.
    pub fn with_ab(a: IntPoint, b: IntPoint) -> (r: Self)
        ensures
            r == (IntRect {
                min_x: min_of(a.x as int, b.x as int) as i32,
                max_x: max_of(a.x as int, b.x as int) as i32,
                min_y: min_of(a.y as int, b.y as int) as i32,
                max_y: max_of(a.y as int, b.y as int) as i32,
            }),
    {
        let (min_x, max_x) = if a.x < b.x {
            (a.x, b.x)
        } else {
            (b.x, a.x)
        };
        let (min_y, max_y) = if a.y < b.y {
            (a.y, b.y)
        } else {
            (b.y, a.y)
        };
        Self { min_x, max_x, min_y, max_y }
    }

    /// The bounding rectangle of the points; `None` for no points.
    pub fn with_points(points: &[IntPoint]) -> (r: Option<Self>)
        ensures
            points@.len() == 0 ==> r.is_none(),
            points@.len() > 0 ==> r == Some(bounding_box(points@)),
            r matches Some(b) ==> forall|i: int|
                0 <= i < points@.len() ==> b.holds(#[trigger] points@[i]),
    {
        if points.len() == 0 {
            return None;
        }
        let first_point = points[0];
        let mut rect = Self {
            min_x: first_point.x,
            max_x: first_point.x,
            min_y: first_point.y,
            max_y: first_point.y,
        };
        let mut i: usize = 1;
        while i < points.len()
            invariant
                1 <= i <= points@.len(),
                rect == bounding_box(points@.subrange(0, i as int)),
                rect.well_formed(),
            decreases points@.len() - i,
        {
            let p = points[i];
            proof {
                let s = points@.subrange(0, i as int + 1);
                assert(s.drop_last() == points@.subrange(0, i as int));
            }
            rect.unsafe_add_point(&p);
            i += 1;
        }
        proof {
            assert(points@.subrange(0, points@.len() as int) == points@);
            lemma_bounding_box_tight(points@);
        }
        Some(rect)
    }

    /// The bounding rectangle of two rectangles.
    pub fn with_rects(rect0: &Self, rect1: &Self) -> (r: Self)
        ensures
            r == union_of(*rect0, *rect1),
    {
        let min_x = min_i32(rect0.min_x, rect1.min_x);
        let max_x = max_i32(rect0.max_x, rect1.max_x);
        let min_y = min_i32(rect0.min_y, rect1.min_y);
        let max_y = max_i32(rect0.max_y, rect1.max_y);
        Self::new(min_x, max_x, min_y, max_y)
    }

    /// The bounding rectangle of the rectangles that are there; `None` if neither is.
    pub fn with_optional_rects(rect0: Option<Self>, rect1: Option<Self>) -> (r: Option<Self>)
        ensures
            r == (match (rect0, rect1) {
                (Some(r0), Some(r1)) => Some(union_of(r0, r1)),
                (Some(r0), None) => Some(r0),
                (None, Some(r1)) => Some(r1),
                (None, None) => None,
            }),
    {
        match (rect0, rect1) {
            (Some(r0), Some(r1)) => Some(Self::with_rects(&r0, &r1)),
            (Some(r0), None) => Some(r0),
            (None, Some(r1)) => Some(r1),
            (None, None) => None,
        }
    }

    /// Grows the rectangle to hold `point`.
    pub fn add_point(&mut self, point: &IntPoint)
        ensures
            *final(self) == grown(*old(self), *point),
    {
        self.max_x = max_i32(self.max_x, point.x);
        self.min_x = min_i32(self.min_x, point.x);
        self.max_y = max_i32(self.max_y, point.y);
        self.min_y = min_i32(self.min_y, point.y);
    }

    /// Grows a well-formed rectangle to hold `point`; on such a rectangle a point below the
    /// minimum cannot be above the maximum, so one test per axis may be skipped.
    pub fn unsafe_add_point(&mut self, point: &IntPoint)
        requires
            old(self).well_formed(),
        ensures
            *final(self) == grown(*old(self), *point),
            final(self).well_formed(),
    {
        if self.min_x > point.x {
            self.min_x = point.x
        } else if self.max_x < point.x {
            self.max_x = point.x
        }
        if self.min_y > point.y {
            self.min_y = point.y
        } else if self.max_y < point.y {
            self.max_y = point.y
        }
    }

    pub fn contains(&self, point: IntPoint) -> (r: bool)
        ensures
            r == self.holds(point),
    {
        self.min_x <= point.x && point.x <= self.max_x && self.min_y <= point.y && point.y
            <= self.max_y
    }

    /// `point` lies in the rectangle grown by `radius` on every side.
    pub fn contains_with_radius(&self, point: IntPoint, radius: i32) -> (r: bool)
        requires
            in_i32(self.min_x - radius),
            in_i32(self.max_x + radius),
            in_i32(self.min_y - radius),
            in_i32(self.max_y + radius),
        ensures
            r == (self.min_x - radius <= point.x <= self.max_x + radius && self.min_y - radius
                <= point.y <= self.max_y + radius),
    {
        let min_x = self.min_x - radius;
        let max_x = self.max_x + radius;
        let min_y = self.min_y - radius;
        let max_y = self.max_y + radius;
        min_x <= point.x && point.x <= max_x && min_y <= point.y && point.y <= max_y
    }

    /// The rectangles share at least one point, borders included.
    pub fn is_intersect_border_include(&self, other: &Self) -> (r: bool)
        ensures
            r == (self.min_x <= other.max_x && self.max_x >= other.min_x && self.min_y
                <= other.max_y && self.max_y >= other.min_y),
    {
        let x = self.min_x <= other.max_x && self.max_x >= other.min_x;
        let y = self.min_y <= other.max_y && self.max_y >= other.min_y;
        x && y
    }

    /// The interiors of the rectangles overlap.
    pub fn is_intersect_border_exclude(&self, other: &Self) -> (r: bool)
        ensures
            r == (self.min_x < other.max_x && self.max_x > other.min_x && self.min_y
                < other.max_y && self.max_y > other.min_y),
    {
        let x = self.min_x < other.max_x && self.max_x > other.min_x;
        let y = self.min_y < other.max_y && self.max_y > other.min_y;
        x && y
    }
}

/// The bounding box holds every point of the sequence, and each of its sides touches one.
pub proof fn lemma_bounding_box_tight(points: Seq<IntPoint>)
    requires
        points.len() > 0,
    ensures
        bounding_box(points).well_formed(),
        forall|i: int| 0 <= i < points.len() ==> bounding_box(points).holds(#[trigger] points[i]),
        exists|i: int| 0 <= i < points.len() && #[trigger] points[i].x == bounding_box(points).min_x,
        exists|i: int| 0 <= i < points.len() && #[trigger] points[i].x == bounding_box(points).max_x,
        exists|i: int| 0 <= i < points.len() && #[trigger] points[i].y == bounding_box(points).min_y,
        exists|i: int| 0 <= i < points.len() && #[trigger] points[i].y == bounding_box(points).max_y,
    decreases points.len(),
{
    if points.len() > 1 {
        let prefix = points.drop_last();
        lemma_bounding_box_tight(prefix);
        assert forall|i: int| 0 <= i < points.len() implies bounding_box(points).holds(
            #[trigger] points[i],
        ) by {
            if i < points.len() - 1 {
                assert(prefix[i] == points[i]);
            }
        }
        let b = bounding_box(prefix);
        let n = points.len() - 1;
        if points.last().x < b.min_x {
            assert(points[n].x == bounding_box(points).min_x);
        } else {
            let i = choose|i: int| 0 <= i < prefix.len() && #[trigger] prefix[i].x == b.min_x;
            assert(points[i].x == bounding_box(points).min_x);
        }
        if points.last().x > b.max_x {
            assert(points[n].x == bounding_box(points).max_x);
        } else {
            let i = choose|i: int| 0 <= i < prefix.len() && #[trigger] prefix[i].x == b.max_x;
            assert(points[i].x == bounding_box(points).max_x);
        }
        if points.last().y < b.min_y {
            assert(points[n].y == bounding_box(points).min_y);
        } else {
            let i = choose|i: int| 0 <= i < prefix.len() && #[trigger] prefix[i].y == b.min_y;
            assert(points[i].y == bounding_box(points).min_y);
        }
        if points.last().y > b.max_y {
            assert(points[n].y == bounding_box(points).max_y);
        } else {
            let i = choose|i: int| 0 <= i < prefix.len() && #[trigger] prefix[i].y == b.max_y;
            assert(points[i].y == bounding_box(points).max_y);
        }
    } else {
        assert(points[0].x == bounding_box(points).min_x);
        assert(points[0].x == bounding_box(points).max_x);
        assert(points[0].y == bounding_box(points).min_y);
        assert(points[0].y == bounding_box(points).max_y);
    }
}

} // verus!
