//! The closed set of drawable shapes, tessellated by one exhaustive
//! dispatch, and submission of a shape to the accumulator in one call.

use crate::circle::{circle_mesh, DebugDrawCircle};
use crate::draw::DebugDraw;
use crate::geom::Vec2;
use crate::line::{line_mesh, DebugLine};
use crate::mesh::DebugDrawMesh;
use crate::rectangle::{rectangle_mesh, DebugRectangle};
use crate::text::{text_mesh, DebugText};
use crate::triangle::{triangle_mesh, DebugTriangle};
use vstd::prelude::*;

verus! {

/// One shape to draw: the closed variant over every primitive the engine
/// tessellates.
#[derive(Clone, Debug)]
pub enum DebugDrawDrawable {
    Line(DebugLine),
    Rectangle(DebugRectangle),
    Circle(DebugDrawCircle),
    Triangle(DebugTriangle),
    Text(DebugText),
}

/// The mesh each shape tessellates into.
pub open spec fn drawable_mesh(d: DebugDrawDrawable, m: DebugDrawMesh) -> bool {
    match d {
        DebugDrawDrawable::Line(l) => if l.from == l.to {
            m.vertices@.len() == 0 && m.indices@.len() == 0 && m.depth == 0
        } else {
            line_mesh(l, m)
        },
        DebugDrawDrawable::Rectangle(r) => if r.size == (Vec2 { x: 0, y: 0 }) {
            m.vertices@.len() == 0 && m.indices@.len() == 0 && m.depth == 0
        } else {
            rectangle_mesh(r, m)
        },
        DebugDrawDrawable::Circle(c) => circle_mesh(c, m),
        DebugDrawDrawable::Triangle(t) => triangle_mesh(t, m),
        DebugDrawDrawable::Text(t) => text_mesh(t, m),
    }
}

impl DebugDrawDrawable {
    /// The carried shape is well-formed.
    pub open spec fn wf(&self) -> bool {
        match *self {
            DebugDrawDrawable::Line(l) => l.wf(),
            DebugDrawDrawable::Rectangle(r) => r.wf(),
            DebugDrawDrawable::Circle(c) => c.wf(),
            DebugDrawDrawable::Triangle(t) => t.wf(),
            DebugDrawDrawable::Text(t) => t.wf(),
        }
    }

    /// Tessellates the shape into its mesh, by exhaustive dispatch.
    pub fn to_mesh(&self) -> (m: DebugDrawMesh)
        requires
            self.wf(),
        ensures
            m.wf(),
            drawable_mesh(*self, m),
    {
        match self {
            DebugDrawDrawable::Line(l) => l.to_mesh(),
            DebugDrawDrawable::Rectangle(r) => r.to_mesh(),
            DebugDrawDrawable::Circle(c) => c.to_mesh(),
            DebugDrawDrawable::Triangle(t) => t.to_mesh(),
            DebugDrawDrawable::Text(t) => t.to_mesh(),
        }
    }
}

impl DebugDraw {
    /// Tessellates the shape and submits the mesh for this frame.
    pub fn draw(&mut self, drawable: &DebugDrawDrawable)
        requires
            old(self).wf(),
            drawable.wf(),
        ensures
            final(self).wf(),
            final(self).pending().len() == old(self).pending().len() + 1,
            forall|i: int|
                0 <= i < old(self).pending().len() ==> final(self).pending()[i] == old(
                    self,
                ).pending()[i],
            drawable_mesh(*drawable, final(self).pending().last()),
            final(self).pending().last().wf(),
    {
        let m = drawable.to_mesh();
        self.submit(m);
    }
}

} // verus!
