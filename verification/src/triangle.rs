//! Tessellation of a filled triangle with a consistent counter-clockwise
//! winding, whatever order the caller listed the corners in.

use crate::geom::{lemma_mul_bound, vec2_ok, Vec2, COORD_LIMIT};
use crate::mesh::{Color, DebugDrawMesh, DebugDrawVertex};
use vstd::prelude::*;

verus! {

/// A filled triangle to draw.
#[derive(Clone, Copy, Debug)]
pub struct DebugTriangle {
    pub points: [Vec2; 3],
    pub color: Color,
    pub depth: i64,
}

/// Twice the signed area of the triangle `(a, b, c)` by the shoelace sum:
/// positive when the corners run counter-clockwise.
pub open spec fn doubled_area(a: Vec2, b: Vec2, c: Vec2) -> int {
    a.x * b.y + b.x * c.y + c.x * a.y - b.x * a.y - c.x * b.y - a.x * c.y
}

/// The mesh a triangle tessellates into: its three corners in the given
/// order, with the index triple reversed when the corners run clockwise.
pub open spec fn triangle_mesh(t: DebugTriangle, m: DebugDrawMesh) -> bool {
    &&& m.vertices@.len() == 3
    &&& m.vertices@[0].position == t.points@[0]
    &&& m.vertices@[1].position == t.points@[1]
    &&& m.vertices@[2].position == t.points@[2]
    &&& m.vertices@[0].color == t.color
    &&& m.vertices@[1].color == t.color
    &&& m.vertices@[2].color == t.color
    &&& m.indices@ == if doubled_area(t.points@[0], t.points@[1], t.points@[2]) < 0 {
        seq![0u32, 2u32, 1u32]
    } else {
        seq![0u32, 1u32, 2u32]
    }
    &&& m.depth == t.depth
}

impl DebugTriangle {
    /// All three corners are small enough for the winding test's products.
    pub open spec fn wf(&self) -> bool {
        &&& vec2_ok(self.points@[0])
        &&& vec2_ok(self.points@[1])
        &&& vec2_ok(self.points@[2])
    }

    /// A black point triangle at the origin, depth zero.
    pub fn default() -> (t: DebugTriangle)
        ensures
            t.points@[0] == (Vec2 { x: 0, y: 0 }),
            t.points@[1] == (Vec2 { x: 0, y: 0 }),
            t.points@[2] == (Vec2 { x: 0, y: 0 }),
            t.color == (Color { r: 0, g: 0, b: 0, a: 255 }),
            t.depth == 0,
            t.wf(),
    {
        let z = Vec2::zero();
        DebugTriangle { points: [z, z, z], color: Color::black(), depth: 0 }
    }

    /// Tessellates the triangle, reversing the index order when the corners
    /// were listed clockwise so the emitted triangle is counter-clockwise.
    pub fn to_mesh(&self) -> (m: DebugDrawMesh)
        requires
            self.wf(),
        ensures
            m.wf(),
            triangle_mesh(*self, m),
    {
        let a = self.points[0];
        let b = self.points[1];
        let c = self.points[2];
        proof {
            lemma_mul_bound(b.x as int, a.y as int, COORD_LIMIT as int, COORD_LIMIT as int);
            lemma_mul_bound(c.x as int, b.y as int, COORD_LIMIT as int, COORD_LIMIT as int);
            lemma_mul_bound(a.x as int, c.y as int, COORD_LIMIT as int, COORD_LIMIT as int);
            lemma_mul_bound(a.x as int, b.y as int, COORD_LIMIT as int, COORD_LIMIT as int);
            lemma_mul_bound(b.x as int, c.y as int, COORD_LIMIT as int, COORD_LIMIT as int);
            lemma_mul_bound(c.x as int, a.y as int, COORD_LIMIT as int, COORD_LIMIT as int);
        }
        let clockwise = b.x * a.y + c.x * b.y + a.x * c.y > a.x * b.y + b.x * c.y + c.x * a.y;
        let vertices: Vec<DebugDrawVertex> = vec![
            DebugDrawVertex { position: a, color: self.color },
            DebugDrawVertex { position: b, color: self.color },
            DebugDrawVertex { position: c, color: self.color },
        ];
        let indices: Vec<u32> = if clockwise {
            vec![0u32, 2u32, 1u32]
        } else {
            vec![0u32, 1u32, 2u32]
        };
        let m = DebugDrawMesh { vertices, indices, depth: self.depth };
        proof {
            if clockwise {
                assert(m.indices@ =~= seq![0u32, 2u32, 1u32]);
            } else {
                assert(m.indices@ =~= seq![0u32, 1u32, 2u32]);
            }
        }
        m
    }
}

/// Swapping the last two corners flips the sign of the doubled signed area.
pub proof fn lemma_area_swap(a: Vec2, b: Vec2, c: Vec2)
    ensures
        doubled_area(a, c, b) == -doubled_area(a, b, c),
{
}

/// A tessellated triangle with nonzero area is counter-clockwise when read
/// in the emitted index order, whichever way its corners were listed.
pub proof fn lemma_triangle_winding(t: DebugTriangle, m: DebugDrawMesh)
    requires
        triangle_mesh(t, m),
        doubled_area(t.points@[0], t.points@[1], t.points@[2]) != 0,
    ensures
        doubled_area(
            m.vertices@[m.indices@[0] as int].position,
            m.vertices@[m.indices@[1] as int].position,
            m.vertices@[m.indices@[2] as int].position,
        ) > 0,
{
    let p0 = t.points@[0];
    let p1 = t.points@[1];
    let p2 = t.points@[2];
    if doubled_area(p0, p1, p2) < 0 {
        lemma_area_swap(p0, p1, p2);
        assert(m.indices@[0] == 0u32 && m.indices@[1] == 2u32 && m.indices@[2] == 1u32);
    } else {
        assert(m.indices@[0] == 0u32 && m.indices@[1] == 1u32 && m.indices@[2] == 2u32);
    }
}

} // verus!
