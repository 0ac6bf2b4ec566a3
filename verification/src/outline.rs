//! Assembly of a glyph's outline-drawing command stream into closed polygon
//! contours.
//!
//! A move-to flushes any accumulated contour and starts a new one; line-to
//! appends; a quadratic curve is subdivided into a fixed three straight
//! segments by repeated linear interpolation of the control-to-endpoint
//! chord, not by true Bezier evaluation; a cubic curve contributes only its
//! terminal point, degrading to a straight line; close flushes the contour.

use crate::geom::{coord_ok, floor_div, lemma_div_bound, vec2_ok, Vec2, COORD_LIMIT};
use vstd::prelude::*;

verus! {

/// Every point is within sixteen coordinate limits: subdivision points of a
/// quadratic curve may overshoot the raw inputs a little, never this much.
pub open spec fn pts_loose(s: Seq<Vec2>) -> bool {
    forall|i: int|
        0 <= i < s.len() ==> -16 * COORD_LIMIT <= (#[trigger] s[i]).x <= 16 * COORD_LIMIT && -16
            * COORD_LIMIT <= s[i].y <= 16 * COORD_LIMIT
}

/// The three points a quadratic curve from the current point `p0` with
/// control `ctrl` to `end` contributes: two interpolated interior points and
/// the endpoint itself, all with floor rounding.
pub open spec fn quad_points(p0: Vec2, ctrl: Vec2, end: Vec2) -> Seq<(int, int)> {
    let d01x = (ctrl.x - p0.x) / 3;
    let d01y = (ctrl.y - p0.y) / 3;
    let d12x = (end.x - ctrl.x) / 3;
    let d12y = (end.y - ctrl.y) / 3;
    let ax = p0.x + d01x;
    let ay = p0.y + d01y;
    let bx1 = ctrl.x + d12x;
    let by1 = ctrl.y + d12y;
    let ax2 = ax + d01x;
    let ay2 = ay + d01y;
    let bx2 = bx1 + d12x;
    let by2 = by1 + d12y;
    let cx = ax2 + (bx2 - ax2) / 3;
    let cy = ay2 + (by2 - ay2) / 3;
    seq![(ax, ay), (cx, cy), (end.x as int, end.y as int)]
}

/// Collects a glyph's outline commands into closed contours.
pub struct OutlineAssembler {
    contour: Vec<Vec2>,
    contours: Vec<Vec<Vec2>>,
}

impl OutlineAssembler {
    /// The contour being accumulated.
    pub closed spec fn current(&self) -> Seq<Vec2> {
        self.contour@
    }

    /// The contours flushed so far, each as its point sequence.
    pub closed spec fn finished(&self) -> Seq<Seq<Vec2>> {
        self.contours@.map_values(|c: Vec<Vec2>| c@)
    }

    /// Accumulated points are loosely bounded, and the point a curve
    /// continues from is strictly bounded.
    pub open spec fn wf(&self) -> bool {
        &&& pts_loose(self.current())
        &&& self.current().len() > 0 ==> vec2_ok(self.current().last())
    }

    /// An assembler with no contours and nothing accumulated.
    pub fn new() -> (a: OutlineAssembler)
        ensures
            a.current().len() == 0,
            a.finished().len() == 0,
            a.wf(),
    {
        let a = OutlineAssembler { contour: Vec::new(), contours: Vec::new() };
        proof {
            assert(a.finished() =~= Seq::<Seq<Vec2>>::empty());
        }
        a
    }

    /// Flushes the accumulated contour, if any, onto the finished list.
    fn flush_contour(&mut self)
        requires
            old(self).wf(),
        ensures
            final(self).wf(),
            final(self).current().len() == 0,
            old(self).current().len() > 0 ==> final(self).finished() == old(self).finished().push(
                old(self).current(),
            ),
            old(self).current().len() == 0 ==> final(self).finished() == old(self).finished(),
    {
        if self.contour.len() > 0 {
            let mut taken: Vec<Vec2> = Vec::new();
            core::mem::swap(&mut taken, &mut self.contour);
            let ghost before = self.contours@;
            self.contours.push(taken);
            proof {
                assert(self.contours@.map_values(|c: Vec<Vec2>| c@) =~= before.map_values(
                    |c: Vec<Vec2>| c@,
                ).push(taken@));
            }
        }
    }

    /// Starts a new contour at `(x, y)`, flushing the previous one first.
    pub fn move_to(&mut self, x: i64, y: i64)
        requires
            old(self).wf(),
            coord_ok(x as int),
            coord_ok(y as int),
        ensures
            final(self).wf(),
            final(self).current() == seq![Vec2 { x, y }],
            old(self).current().len() > 0 ==> final(self).finished() == old(self).finished().push(
                old(self).current(),
            ),
            old(self).current().len() == 0 ==> final(self).finished() == old(self).finished(),
    {
        self.flush_contour();
        self.contour.push(Vec2 { x, y });
        proof {
            assert(self.current() =~= seq![Vec2 { x, y }]);
        }
    }

    /// Appends a straight segment to `(x, y)`.
    pub fn line_to(&mut self, x: i64, y: i64)
        requires
            old(self).wf(),
            coord_ok(x as int),
            coord_ok(y as int),
        ensures
            final(self).wf(),
            final(self).current() == old(self).current().push(Vec2 { x, y }),
            final(self).finished() == old(self).finished(),
    {
        self.contour.push(Vec2 { x, y });
    }

    /// Appends a quadratic curve to `(x, y)` with control `(x1, y1)`,
    /// subdivided into three straight segments; with no current point, only
    /// the endpoint is appended.
    pub fn quad_to(&mut self, x1: i64, y1: i64, x: i64, y: i64)
        requires
            old(self).wf(),
            coord_ok(x1 as int),
            coord_ok(y1 as int),
            coord_ok(x as int),
            coord_ok(y as int),
        ensures
            final(self).wf(),
            final(self).finished() == old(self).finished(),
            old(self).current().len() > 0 ==> {
                let pts = quad_points(
                    old(self).current().last(),
                    Vec2 { x: x1, y: y1 },
                    Vec2 { x, y },
                );
                final(self).current().len() == old(self).current().len() + 3
                    && final(self).current().subrange(0, old(self).current().len() as int) == old(
                    self,
                ).current() && final(self).current()[old(self).current().len() as int].x as int
                    == pts[0].0 && final(self).current()[old(self).current().len() as int].y as int
                    == pts[0].1 && final(self).current()[old(self).current().len() as int + 1].x as int
                    == pts[1].0 && final(self).current()[old(self).current().len() as int + 1].y as int
                    == pts[1].1 && final(self).current()[old(self).current().len() as int + 2] == (
                Vec2 { x, y })
            },
            old(self).current().len() == 0 ==> final(self).current() == old(self).current().push(
                Vec2 { x, y },
            ),
    {
        if self.contour.len() == 0 {
            self.contour.push(Vec2 { x, y });
        } else {
            let last = self.contour[self.contour.len() - 1];
            proof {
                assert(last == old(self).current().last());
                lemma_div_bound(x1 as int - last.x as int, 3);
                lemma_div_bound(y1 as int - last.y as int, 3);
                lemma_div_bound(x as int - x1 as int, 3);
                lemma_div_bound(y as int - y1 as int, 3);
            }
            let d01x = floor_div(x1 - last.x, 3);
            let d01y = floor_div(y1 - last.y, 3);
            let d12x = floor_div(x - x1, 3);
            let d12y = floor_div(y - y1, 3);
            let ax = last.x + d01x;
            let ay = last.y + d01y;
            let bx1 = x1 + d12x;
            let by1 = y1 + d12y;
            let ax2 = ax + d01x;
            let ay2 = ay + d01y;
            let bx2 = bx1 + d12x;
            let by2 = by1 + d12y;
            proof {
                lemma_div_bound(bx2 as int - ax2 as int, 3);
                lemma_div_bound(by2 as int - ay2 as int, 3);
            }
            let cx = ax2 + floor_div(bx2 - ax2, 3);
            let cy = ay2 + floor_div(by2 - ay2, 3);
            self.contour.push(Vec2 { x: ax, y: ay });
            self.contour.push(Vec2 { x: cx, y: cy });
            self.contour.push(Vec2 { x, y });
            proof {
                assert(self.current().subrange(0, old(self).current().len() as int) =~= old(
                    self,
                ).current());
            }
        }
    }

    /// Appends a cubic curve's terminal point only: cubic segments degrade
    /// to straight lines, a documented approximation.
    pub fn curve_to(&mut self, _x1: i64, _y1: i64, _x2: i64, _y2: i64, x: i64, y: i64)
        requires
            old(self).wf(),
            coord_ok(x as int),
            coord_ok(y as int),
        ensures
            final(self).wf(),
            final(self).current() == old(self).current().push(Vec2 { x, y }),
            final(self).finished() == old(self).finished(),
    {
        self.contour.push(Vec2 { x, y });
    }

    /// Closes the accumulated contour, flushing it onto the finished list.
    pub fn close(&mut self)
        requires
            old(self).wf(),
        ensures
            final(self).wf(),
            final(self).current().len() == 0,
            old(self).current().len() > 0 ==> final(self).finished() == old(self).finished().push(
                old(self).current(),
            ),
            old(self).current().len() == 0 ==> final(self).finished() == old(self).finished(),
    {
        self.flush_contour();
    }

    /// Hands out the finished contours. A glyph whose stream drew nothing
    /// yields no contours.
    pub fn into_contours(self) -> (r: Vec<Vec<Vec2>>)
        ensures
            r@.map_values(|c: Vec<Vec2>| c@) == self.finished(),
    {
        self.contours
    }
}

} // verus!
