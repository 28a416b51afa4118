//! Integer rectangles on a tile map.

use vstd::prelude::*;
use crate::dungeon::IPosition;

verus! {

/// A rectangle given by its smallest and largest column and row.
#[derive(Debug, Clone, Copy, PartialEq, Eq, Structural)]
pub struct IRect {
    pub x_min: i32,
    pub y_min: i32,
    pub x_max: i32,
    pub y_max: i32,
}

/// A walk over the points of a rectangle, row by row.
#[derive(Debug, Clone, Copy, PartialEq, Eq, Structural)]
pub struct IRectIter {
    pub rect: IRect,
    pub countx: i32,
    pub county: i32,
    pub next: i32,
}

/// An ellipse, given by the rectangle around it.
#[derive(Debug, Clone, Copy, PartialEq, Eq, Structural)]
pub struct IEclipse {
    pub rect: IRect,
}

/// A triangle, given by the rectangle around it.
#[derive(Debug, Clone, Copy, PartialEq, Eq, Structural)]
pub struct ITriangle {
    pub rect: IRect,
}

/// Whether `v` is a value of `i32`.
pub open spec fn fits_i32(v: int) -> bool {
    i32::MIN <= v <= i32::MAX
}

/// The smaller of two integers.
pub open spec fn lesser(a: int, b: int) -> int {
    if a <= b {
        a
    } else {
        b
    }
}

/// The larger of two integers.
pub open spec fn greater(a: int, b: int) -> int {
    if a >= b {
        a
    } else {
        b
    }
}

/// Half of `v`, a half rounded away from zero.
pub open spec fn half_rounded(v: int) -> int {
    if v >= 0 {
        (v + 1) / 2
    } else {
        -((1 - v) / 2)
    }
}

/// Half of `v`, a half rounded away from zero.
fn half_round(v: i32) -> (h: i32)
    ensures
        h == half_rounded(v as int),
{
    if v >= 0 {
        v / 2 + v % 2
    } else if v == i32::MIN {
        -1073741824
    } else {
        let w: i32 = -v;
        -(w / 2 + w % 2)
    }
}

impl IRect {
    /// Whether the two rectangles share a point, their borders included.
    pub open spec fn intersects(self, rect: IRect) -> bool {
        &&& self.x_min <= rect.x_max
        &&& self.x_max >= rect.x_min
        &&& self.y_min <= rect.y_max
        &&& self.y_max >= rect.y_min
    }

    /// Whether all four corners of `self` lie strictly inside `rect`.
    pub open spec fn inside(self, rect: IRect) -> bool {
        &&& rect.x_min < self.x_min < rect.x_max
        &&& rect.y_min < self.y_min < rect.y_max
        &&& rect.x_min < self.x_max < rect.x_max
        &&& rect.y_min < self.y_max < rect.y_max
    }

    /// The rectangle that two rectangles have in common: the larger of the
    /// minima and the smaller of the maxima.
    pub open spec fn overlap(self, rect: IRect) -> IRect {
        IRect {
            x_min: greater(self.x_min as int, rect.x_min as int) as i32,
            y_min: greater(self.y_min as int, rect.y_min as int) as i32,
            x_max: lesser(self.x_max as int, rect.x_max as int) as i32,
            y_max: lesser(self.y_max as int, rect.y_max as int) as i32,
        }
    }

    /// Whether the rectangle can grow by `value` on every side, or shrink for
    /// a negative `value`, without leaving `i32`.
    pub open spec fn can_grow(self, value: int) -> bool {
        &&& fits_i32(self.x_min - value)
        &&& fits_i32(self.y_min - value)
        &&& fits_i32(self.x_max + value)
        &&& fits_i32(self.y_max + value)
    }

    /// The rectangle grown by `value` on every side.
    pub open spec fn grown(self, value: int) -> IRect {
        IRect {
            x_min: (self.x_min - value) as i32,
            y_min: (self.y_min - value) as i32,
            x_max: (self.x_max + value) as i32,
            y_max: (self.y_max + value) as i32,
        }
    }

    /// The rectangle with the given minima and maxima.
    pub fn new(x_min: i32, y_min: i32, x_max: i32, y_max: i32) -> (r: IRect)
        ensures
            r == (IRect { x_min, y_min, x_max, y_max }),
    {
        IRect { x_min, y_min, x_max, y_max }
    }

    /// The rectangle from `(0, 0)` to `(1, 1)`.
    pub fn unit() -> (r: IRect)
        ensures
            r == (IRect { x_min: 0, y_min: 0, x_max: 1, y_max: 1 }),
    {
        IRect { x_min: 0, y_min: 0, x_max: 1, y_max: 1 }
    }

    /// The rectangle of the given width and height around `pos`: half of
    /// each, rounded away from zero, lies on the side of the maxima, the
    /// rest on the side of the minima.
    pub fn new_from_center_position(pos: &IPosition, width: i32, height: i32) -> (r: IRect)
        requires
            fits_i32(pos.x - (width - half_rounded(width as int))),
            fits_i32(pos.y - (height - half_rounded(height as int))),
            fits_i32(pos.x + half_rounded(width as int)),
            fits_i32(pos.y + half_rounded(height as int)),
        ensures
            r.x_min == pos.x - (width - half_rounded(width as int)),
            r.y_min == pos.y - (height - half_rounded(height as int)),
            r.x_max == pos.x + half_rounded(width as int),
            r.y_max == pos.y + half_rounded(height as int),
    {
        let half_width = half_round(width);
        let half_height = half_round(height);
        let x_min = pos.x - (width - half_width);
        let y_min = pos.y - (height - half_height);
        let x_max = pos.x + half_width;
        let y_max = pos.y + half_height;
        IRect { x_min, y_min, x_max, y_max }
    }

    /// The distance from the smallest to the largest column.
    pub fn width(&self) -> (w: i32)
        requires
            fits_i32(self.x_max - self.x_min),
        ensures
            w == self.x_max - self.x_min,
    {
        self.x_max - self.x_min
    }

    /// The distance from the smallest to the largest row.
    pub fn height(&self) -> (h: i32)
        requires
            fits_i32(self.y_max - self.y_min),
        ensures
            h == self.y_max - self.y_min,
    {
        self.y_max - self.y_min
    }

    /// The middle of the rectangle: from the minima, half of the width and
    /// of the height, a half rounded away from zero.
    pub fn center(&self) -> (c: IPosition)
        requires
            fits_i32(self.x_max - self.x_min),
            fits_i32(self.y_max - self.y_min),
            fits_i32(self.x_min + half_rounded(self.x_max - self.x_min)),
            fits_i32(self.y_min + half_rounded(self.y_max - self.y_min)),
        ensures
            c.x == self.x_min + half_rounded(self.x_max - self.x_min),
            c.y == self.y_min + half_rounded(self.y_max - self.y_min),
    {
        IPosition {
            x: self.x_min + half_round(self.width()),
            y: self.y_min + half_round(self.height()),
        }
    }

    /// What the two rectangles have in common, if they share a point.
    pub fn intersect(&self, rect: &IRect) -> (r: Option<IRect>)
        ensures
            r == if self.intersects(*rect) {
                Some(self.overlap(*rect))
            } else {
                None
            },
    {
        if self.is_intersect(rect) {
            Some(
                IRect {
                    x_min: if self.x_min >= rect.x_min {
                        self.x_min
                    } else {
                        rect.x_min
                    },
                    y_min: if self.y_min >= rect.y_min {
                        self.y_min
                    } else {
                        rect.y_min
                    },
                    x_max: if self.x_max <= rect.x_max {
                        self.x_max
                    } else {
                        rect.x_max
                    },
                    y_max: if self.y_max <= rect.y_max {
                        self.y_max
                    } else {
                        rect.y_max
                    },
                },
            )
        } else {
            None
        }
    }

    /// Widens the rectangle, as far as needed, to hold `pos`.
    pub fn expand_to_contain(&mut self, pos: &IPosition)
        ensures
            final(self).x_min == lesser(pos.x as int, old(self).x_min as int),
            final(self).y_min == lesser(pos.y as int, old(self).y_min as int),
            final(self).x_max == greater(pos.x as int, old(self).x_max as int),
            final(self).y_max == greater(pos.y as int, old(self).y_max as int),
    {
        if pos.x < self.x_min {
            self.x_min = pos.x;
        }
        if pos.y < self.y_min {
            self.y_min = pos.y;
        }
        if pos.x > self.x_max {
            self.x_max = pos.x;
        }
        if pos.y > self.y_max {
            self.y_max = pos.y;
        }
    }

    /// Makes the rectangle equal to `rect`.
    pub fn fit_to(&mut self, rect: &IRect)
        ensures
            *final(self) == *rect,
    {
        self.x_min = rect.x_min;
        self.y_min = rect.y_min;
        self.x_max = rect.x_max;
        self.y_max = rect.y_max;
    }

    /// Cuts the rectangle down to what it has in common with `rect`; a
    /// rectangle that shares no point with `rect` stays as it is.
    pub fn constraint_to(&mut self, rect: &IRect)
        ensures
            *final(self) == if old(self).intersects(*rect) {
                old(self).overlap(*rect)
            } else {
                *old(self)
            },
    {
        let intersect_rect = self.intersect(rect);
        match intersect_rect {
            Some(result_rect) => {
                self.x_min = result_rect.x_min;
                self.y_min = result_rect.y_min;
                self.x_max = result_rect.x_max;
                self.y_max = result_rect.y_max;
            },
            _ => {},
        }
    }

    /// Grows the rectangle by `value` on every side; a negative `value`
    /// shrinks it.
    pub fn expand_shrink(&mut self, value: i32)
        requires
            old(self).can_grow(value as int),
        ensures
            *final(self) == old(self).grown(value as int),
    {
        self.x_min -= value;
        self.y_min -= value;
        self.y_max += value;
        self.x_max += value;
    }

    /// The rectangle grown by `value` on every side; a negative `value`
    /// shrinks it.
    pub fn expand_shrink_as(&self, value: i32) -> (r: IRect)
        requires
            self.can_grow(value as int),
        ensures
            r == self.grown(value as int),
    {
        let x_min = self.x_min - value;
        let y_min = self.y_min - value;
        let x_max = self.x_max + value;
        let y_max = self.y_max + value;
        IRect { x_min, y_min, x_max, y_max }
    }

    /// Whether the two rectangles share a point, their borders included.
    pub fn is_intersect(&self, rect: &IRect) -> (b: bool)
        ensures
            b == self.intersects(*rect),
    {
        self.x_min <= rect.x_max && self.x_max >= rect.x_min && self.y_min <= rect.y_max
            && self.y_max >= rect.y_min
    }

    /// Whether all four corners of the rectangle lie strictly inside `rect`.
    pub fn is_inside(&self, rect: &IRect) -> (b: bool)
        ensures
            b == self.inside(*rect),
    {
        (rect.x_min < self.x_min && self.x_min < rect.x_max) && (rect.y_min < self.y_min
            && self.y_min < rect.y_max) && (rect.x_min < self.x_max && self.x_max < rect.x_max)
            && (rect.y_min < self.y_max && self.y_max < rect.y_max)
    }

    /// Whether all four corners of `rect` lie strictly inside the rectangle.
    pub fn can_hold(&self, rect: &IRect) -> (b: bool)
        ensures
            b == rect.inside(*self),
    {
        rect.is_inside(self)
    }

    /// A walk over the rectangle that starts at its minima and moves `step`
    /// columns at a time.
    pub fn iter(&self, step: i32) -> (it: IRectIter)
        ensures
            it.rect == *self,
            it.countx == 0,
            it.county == 0,
            it.next == step,
    {
        IRectIter::from_rect(self, step)
    }
}

impl IRectIter {
    /// A walk over `rect` that starts at its minima and moves `step` columns
    /// at a time.
    pub fn from_rect(rect: &IRect, step: i32) -> (it: IRectIter)
        ensures
            it.rect == *rect,
            it.countx == 0,
            it.county == 0,
            it.next == step,
    {
        IRectIter { rect: *rect, countx: 0, county: 0, next: step }
    }

    /// The column at which the walk stands.
    pub open spec fn column(self) -> int {
        self.rect.x_min + self.countx
    }

    /// The row at which the walk stands.
    pub open spec fn row(self) -> int {
        self.rect.y_min + self.county
    }

    /// Whether the walk is over: it stands at the largest row or below it,
    /// or the rectangle has no column to walk.
    pub open spec fn finished(self) -> bool {
        self.row() >= self.rect.y_max || self.column() >= self.rect.x_max
    }

    /// Whether the step from where the walk stands leaves its row.
    pub open spec fn leaves_row(self) -> bool {
        self.column() + self.next >= self.rect.x_max
    }

    /// Whether the walk can take its next step without leaving `i32`.
    pub open spec fn can_advance(self) -> bool {
        &&& fits_i32(self.column())
        &&& fits_i32(self.row())
        &&& !self.finished() ==> {
            &&& fits_i32(self.countx + self.next)
            &&& fits_i32(self.column() + self.next)
            &&& self.leaves_row() ==> fits_i32(self.county + 1)
        }
    }

    /// The walk after its next step: on by the step in the same row, or,
    /// where that reaches the largest column or goes beyond it, on to the
    /// start of the next row. A walk that is over stays where it is.
    pub open spec fn advanced(self) -> IRectIter {
        if self.finished() {
            self
        } else if self.leaves_row() {
            IRectIter { countx: 0, county: (self.county + 1) as i32, ..self }
        } else {
            IRectIter { countx: (self.countx + self.next) as i32, ..self }
        }
    }

    /// The point at which the walk stands, and a step onwards; `None` once
    /// the walk is over. The walk visits the columns from the smallest up
    /// to, not including, the largest, and the rows likewise.
    pub fn next(&mut self) -> (point: Option<(i32, i32)>)
        requires
            old(self).can_advance(),
        ensures
            point == if old(self).finished() {
                None
            } else {
                Some((old(self).column() as i32, old(self).row() as i32))
            },
            *final(self) == old(self).advanced(),
    {
        let current_value = (self.rect.x_min + self.countx, self.rect.y_min + self.county);
        if current_value.1 >= self.rect.y_max || current_value.0 >= self.rect.x_max {
            return None;
        } else {
            if current_value.0 + self.next >= self.rect.x_max {
                self.countx = 0;
                self.county += 1;
            } else {
                self.countx += self.next;
            }
            return Some(current_value);
        }
    }
}

impl IEclipse {
    /// The ellipse in the unit rectangle.
    pub fn unit() -> (e: IEclipse)
        ensures
            e.rect == (IRect { x_min: 0, y_min: 0, x_max: 1, y_max: 1 }),
    {
        IEclipse { rect: IRect::unit() }
    }
}

impl ITriangle {
    /// The ellipse in the unit rectangle.
    pub fn unit() -> (e: IEclipse)
        ensures
            e.rect == (IRect { x_min: 0, y_min: 0, x_max: 1, y_max: 1 }),
    {
        IEclipse { rect: IRect::unit() }
    }
}

} // verus!
