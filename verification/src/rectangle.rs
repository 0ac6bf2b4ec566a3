//! Tessellation of a rotated rectangle into a quad of two triangles.

use crate::geom::{
    floor_div, lemma_div_bound, rot_x, rot_y, rotate, rotor_ok, vec2_ok, Rotor, Vec2, COORD_LIMIT,
    FX_ONE,
};
use crate::mesh::{Color, DebugDrawMesh, DebugDrawVertex};
use vstd::arithmetic::div_mod::lemma_div_multiples_vanish;
use vstd::prelude::*;

verus! {

/// A rectangle to draw: a center position, a full size, and a rotation.
#[derive(Clone, Copy, Debug, PartialEq, Eq, Structural)]
pub struct DebugRectangle {
    pub position: Vec2,
    pub size: Vec2,
    pub rotation: Rotor,
    pub color: Color,
    pub depth: i64,
}

/// The mesh a rectangle tessellates into: the four corners at the center
/// displaced by the rotated componentwise half-size, in the order
/// `(+,+) (-,+) (+,-) (-,-)`, with the fixed index quad `[0, 1, 2, 3, 2, 1]`.
pub open spec fn rectangle_mesh(r: DebugRectangle, m: DebugDrawMesh) -> bool {
    let hx = r.size.x as int / 2;
    let hy = r.size.y as int / 2;
    &&& m.vertices@.len() == 4
    &&& m.indices@ == seq![0u32, 1u32, 2u32, 3u32, 2u32, 1u32]
    &&& m.vertices@[0].position.x as int == r.position.x + rot_x(r.rotation, hx, hy)
    &&& m.vertices@[0].position.y as int == r.position.y + rot_y(r.rotation, hx, hy)
    &&& m.vertices@[1].position.x as int == r.position.x + rot_x(r.rotation, -hx, hy)
    &&& m.vertices@[1].position.y as int == r.position.y + rot_y(r.rotation, -hx, hy)
    &&& m.vertices@[2].position.x as int == r.position.x + rot_x(r.rotation, hx, -hy)
    &&& m.vertices@[2].position.y as int == r.position.y + rot_y(r.rotation, hx, -hy)
    &&& m.vertices@[3].position.x as int == r.position.x + rot_x(r.rotation, -hx, -hy)
    &&& m.vertices@[3].position.y as int == r.position.y + rot_y(r.rotation, -hx, -hy)
    &&& forall|i: int| 0 <= i < 4 ==> m.vertices@[i].color == r.color
    &&& m.depth == r.depth
}

impl DebugRectangle {
    /// Position, size and rotation are small enough for tessellation.
    pub open spec fn wf(&self) -> bool {
        &&& vec2_ok(self.position)
        &&& vec2_ok(self.size)
        &&& rotor_ok(self.rotation)
    }

    /// A zero-size unrotated black rectangle at the origin, depth zero.
    pub fn default() -> (r: DebugRectangle)
        ensures
            r.position == (Vec2 { x: 0, y: 0 }),
            r.size == (Vec2 { x: 0, y: 0 }),
            r.rotation == (Rotor { cos: FX_ONE, sin: 0 }),
            r.color == (Color { r: 0, g: 0, b: 0, a: 255 }),
            r.depth == 0,
            r.wf(),
    {
        DebugRectangle {
            position: Vec2::zero(),
            size: Vec2::zero(),
            rotation: Rotor::identity(),
            color: Color::black(),
            depth: 0,
        }
    }

    /// Tessellates the rectangle. A degenerate rectangle (zero size) yields
    /// the empty mesh, not an error; otherwise the quad described by
    /// `rectangle_mesh`.
    pub fn to_mesh(&self) -> (m: DebugDrawMesh)
        requires
            self.wf(),
        ensures
            m.wf(),
            self.size == (Vec2 { x: 0, y: 0 }) ==> m.vertices@.len() == 0 && m.indices@.len() == 0
                && m.depth == 0,
            self.size != (Vec2 { x: 0, y: 0 }) ==> rectangle_mesh(*self, m),
    {
        if self.size.x == 0 && self.size.y == 0 {
            return DebugDrawMesh::new();
        }
        proof {
            lemma_div_bound(self.size.x as int, 2);
            lemma_div_bound(self.size.y as int, 2);
        }
        let hx = floor_div(self.size.x, 2);
        let hy = floor_div(self.size.y, 2);
        let c0 = rotate(self.rotation, Vec2 { x: hx, y: hy });
        let c1 = rotate(self.rotation, Vec2 { x: -hx, y: hy });
        let c2 = rotate(self.rotation, Vec2 { x: hx, y: -hy });
        let c3 = rotate(self.rotation, Vec2 { x: -hx, y: -hy });
        let p0 = Vec2 { x: self.position.x + c0.x, y: self.position.y + c0.y };
        let p1 = Vec2 { x: self.position.x + c1.x, y: self.position.y + c1.y };
        let p2 = Vec2 { x: self.position.x + c2.x, y: self.position.y + c2.y };
        let p3 = Vec2 { x: self.position.x + c3.x, y: self.position.y + c3.y };
        let vertices: Vec<DebugDrawVertex> = vec![
            DebugDrawVertex { position: p0, color: self.color },
            DebugDrawVertex { position: p1, color: self.color },
            DebugDrawVertex { position: p2, color: self.color },
            DebugDrawVertex { position: p3, color: self.color },
        ];
        let indices: Vec<u32> = vec![0u32, 1u32, 2u32, 3u32, 2u32, 1u32];
        let m = DebugDrawMesh { vertices, indices, depth: self.depth };
        proof {
            assert(m.indices@ =~= seq![0u32, 1u32, 2u32, 3u32, 2u32, 1u32]);
        }
        m
    }
}

/// An unrotated rectangle's corners sit exactly at the center displaced by
/// plus or minus half the size, componentwise.
pub proof fn lemma_rectangle_axis_aligned(r: DebugRectangle, m: DebugDrawMesh)
    requires
        rectangle_mesh(r, m),
        r.rotation == (Rotor { cos: FX_ONE, sin: 0 }),
    ensures
        m.vertices@[0].position.x as int == r.position.x + r.size.x as int / 2,
        m.vertices@[0].position.y as int == r.position.y + r.size.y as int / 2,
        m.vertices@[1].position.x as int == r.position.x - r.size.x as int / 2,
        m.vertices@[1].position.y as int == r.position.y + r.size.y as int / 2,
        m.vertices@[2].position.x as int == r.position.x + r.size.x as int / 2,
        m.vertices@[2].position.y as int == r.position.y - r.size.y as int / 2,
        m.vertices@[3].position.x as int == r.position.x - r.size.x as int / 2,
        m.vertices@[3].position.y as int == r.position.y - r.size.y as int / 2,
{
    let hx = r.size.x as int / 2;
    let hy = r.size.y as int / 2;
    lemma_div_multiples_vanish(hx, FX_ONE as int);
    lemma_div_multiples_vanish(hy, FX_ONE as int);
    lemma_div_multiples_vanish(-hx, FX_ONE as int);
    lemma_div_multiples_vanish(-hy, FX_ONE as int);
    assert(hx * FX_ONE == FX_ONE as int * hx && hy * FX_ONE == FX_ONE as int * hy && (-hx)
        * FX_ONE == FX_ONE as int * (-hx) && (-hy) * FX_ONE == FX_ONE as int * (-hy))
        by (nonlinear_arith);
    assert(hx * 0 == 0 && hy * 0 == 0 && (-hx) * 0 == 0 && (-hy) * 0 == 0) by (nonlinear_arith);
}

} // verus!
