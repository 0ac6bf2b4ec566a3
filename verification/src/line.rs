//! Tessellation of a thick line segment into a quad of two triangles.

use crate::geom::{
    floor_div, isqrt_u64, lemma_div_bound, lemma_mul_bound, lemma_sqrt_of, sqrt_of, vec2_ok, Vec2,
    COORD_LIMIT,
};
use crate::mesh::{Color, DebugDrawMesh, DebugDrawVertex};
use vstd::prelude::*;

verus! {

/// How a line is painted: one color for the whole quad, or one color per
/// endpoint with no blending across the thickness.
#[derive(Clone, Copy, Debug, PartialEq, Eq, Structural)]
pub enum DebugLineColor {
    Solid(Color),
    Gradient(Color, Color),
}

impl DebugLineColor {
    /// Solid opaque black.
    pub fn default() -> (c: DebugLineColor)
        ensures
            c == DebugLineColor::Solid(Color { r: 0, g: 0, b: 0, a: 255 }),
    {
        DebugLineColor::Solid(Color::black())
    }
}

impl From<Color> for DebugLineColor {
    /// A plain color paints a line solidly.
    fn from(value: Color) -> (c: DebugLineColor) {
        DebugLineColor::Solid(value)
    }
}

impl vstd::std_specs::convert::FromSpecImpl<Color> for DebugLineColor {
    open spec fn obeys_from_spec() -> bool {
        true
    }

    open spec fn from_spec(value: Color) -> DebugLineColor {
        DebugLineColor::Solid(value)
    }
}

/// The color assigned to the two vertices at the `from` end.
pub open spec fn from_color(c: DebugLineColor) -> Color {
    match c {
        DebugLineColor::Solid(x) => x,
        DebugLineColor::Gradient(f, _) => f,
    }
}

/// The color assigned to the two vertices at the `to` end.
pub open spec fn to_color(c: DebugLineColor) -> Color {
    match c {
        DebugLineColor::Solid(x) => x,
        DebugLineColor::Gradient(_, t) => t,
    }
}

/// A line segment to draw with a given thickness, color and depth key.
#[derive(Clone, Copy, Debug, PartialEq, Eq, Structural)]
pub struct DebugLine {
    pub from: Vec2,
    pub to: Vec2,
    pub color: DebugLineColor,
    pub thickness: i64,
    pub depth: i64,
}

/// The integer length of the segment: the square root of the squared
/// distance, rounded down.
pub open spec fn line_len(from: Vec2, to: Vec2) -> int {
    sqrt_of(
        (from.x - to.x) * (from.x - to.x) + (from.y - to.y) * (from.y - to.y),
    )
}

/// First component of the half-thickness offset orthogonal to the segment:
/// the segment direction rotated a quarter turn, scaled to half the
/// thickness, with floor rounding.
pub open spec fn ortho_x(from: Vec2, to: Vec2, thickness: int) -> int {
    (-(from.y - to.y) * (thickness / 2)) / line_len(from, to)
}

/// Second component of the half-thickness orthogonal offset.
pub open spec fn ortho_y(from: Vec2, to: Vec2, thickness: int) -> int {
    ((from.x - to.x) * (thickness / 2)) / line_len(from, to)
}

/// The mesh a non-degenerate line tessellates into: four vertices at the
/// endpoints displaced by the orthogonal offset, and the fixed index quad
/// `[0, 1, 2, 3, 2, 1]`.
pub open spec fn line_mesh(l: DebugLine, m: DebugDrawMesh) -> bool {
    let ox = ortho_x(l.from, l.to, l.thickness as int);
    let oy = ortho_y(l.from, l.to, l.thickness as int);
    &&& m.vertices@.len() == 4
    &&& m.indices@ == seq![0u32, 1u32, 2u32, 3u32, 2u32, 1u32]
    &&& m.vertices@[0].position.x as int == l.from.x - ox
    &&& m.vertices@[0].position.y as int == l.from.y - oy
    &&& m.vertices@[1].position.x as int == l.from.x + ox
    &&& m.vertices@[1].position.y as int == l.from.y + oy
    &&& m.vertices@[2].position.x as int == l.to.x - ox
    &&& m.vertices@[2].position.y as int == l.to.y - oy
    &&& m.vertices@[3].position.x as int == l.to.x + ox
    &&& m.vertices@[3].position.y as int == l.to.y + oy
    &&& m.vertices@[0].color == from_color(l.color)
    &&& m.vertices@[1].color == from_color(l.color)
    &&& m.vertices@[2].color == to_color(l.color)
    &&& m.vertices@[3].color == to_color(l.color)
    &&& m.depth == l.depth
}

impl DebugLine {
    /// Coordinates and thickness are small enough for tessellation.
    pub open spec fn wf(&self) -> bool {
        &&& vec2_ok(self.from)
        &&& vec2_ok(self.to)
        &&& 0 <= self.thickness <= COORD_LIMIT
    }

    /// A zero-length black line of thickness one at depth zero.
    pub fn default() -> (l: DebugLine)
        ensures
            l.from == (Vec2 { x: 0, y: 0 }),
            l.to == (Vec2 { x: 0, y: 0 }),
            l.color == DebugLineColor::Solid(Color { r: 0, g: 0, b: 0, a: 255 }),
            l.thickness == 1,
            l.depth == 0,
            l.wf(),
    {
        DebugLine {
            from: Vec2::zero(),
            to: Vec2::zero(),
            color: DebugLineColor::Solid(Color::black()),
            thickness: 1,
            depth: 0,
        }
    }

    /// Tessellates the line. A degenerate line (both endpoints equal) yields
    /// the empty mesh; otherwise the quad described by `line_mesh`.
    pub fn to_mesh(&self) -> (m: DebugDrawMesh)
        requires
            self.wf(),
        ensures
            m.wf(),
            self.from == self.to ==> m.vertices@.len() == 0 && m.indices@.len() == 0 && m.depth
                == 0,
            self.from != self.to ==> line_mesh(*self, m),
    {
        if self.from.x == self.to.x && self.from.y == self.to.y {
            DebugDrawMesh::new()
        } else {
            let dx = self.from.x - self.to.x;
            let dy = self.from.y - self.to.y;
            proof {
                lemma_mul_bound(dx as int, dx as int, 2 * COORD_LIMIT, 2 * COORD_LIMIT);
                lemma_mul_bound(dy as int, dy as int, 2 * COORD_LIMIT, 2 * COORD_LIMIT);
                assert(dx * dx >= 0 && dy * dy >= 0) by (nonlinear_arith);
                assert(dx * dx + dy * dy >= 1) by (nonlinear_arith)
                    requires
                        dx != 0 || dy != 0,
                ;
            }
            let sq: i64 = dx * dx + dy * dy;
            let len_u = isqrt_u64(sq as u64);
            proof {
                assert((len_u as int) * (len_u as int) <= 8 * 16777216 * 16777216);
                assert(len_u < 0x8000000u64) by (nonlinear_arith)
                    requires
                        (len_u as int) * (len_u as int) <= 8 * 16777216 * 16777216,
                ;
                assert(((len_u as int) + 1) * ((len_u as int) + 1) > (sq as u64) as int);
                assert(len_u >= 1) by (nonlinear_arith)
                    requires
                        ((len_u as int) + 1) * ((len_u as int) + 1) > (sq as u64) as int,
                        (sq as u64) as int >= 1,
                ;
            }
            let len = len_u as i64;
            let ht = floor_div(self.thickness, 2);
            proof {
                lemma_mul_bound(-dy as int, ht as int, 2 * COORD_LIMIT, COORD_LIMIT as int);
                lemma_mul_bound(dx as int, ht as int, 2 * COORD_LIMIT, COORD_LIMIT as int);
                lemma_div_bound(-dy * ht, len as int);
                lemma_div_bound(dx * ht, len as int);
                lemma_sqrt_of(sq as int, len as int);
            }
            let ox = floor_div(-dy * ht, len);
            let oy = floor_div(dx * ht, len);
            let (fc, tc) = match self.color {
                DebugLineColor::Solid(c) => (c, c),
                DebugLineColor::Gradient(f, t) => (f, t),
            };
            let p0 = Vec2 { x: self.from.x - ox, y: self.from.y - oy };
            let p1 = Vec2 { x: self.from.x + ox, y: self.from.y + oy };
            let p2 = Vec2 { x: self.to.x - ox, y: self.to.y - oy };
            let p3 = Vec2 { x: self.to.x + ox, y: self.to.y + oy };
            let vertices: Vec<DebugDrawVertex> = vec![
                DebugDrawVertex { position: p0, color: fc },
                DebugDrawVertex { position: p1, color: fc },
                DebugDrawVertex { position: p2, color: tc },
                DebugDrawVertex { position: p3, color: tc },
            ];
            let indices: Vec<u32> = vec![0u32, 1u32, 2u32, 3u32, 2u32, 1u32];
            let m = DebugDrawMesh { vertices, indices, depth: self.depth };
            proof {
                assert(m.indices@ =~= seq![0u32, 1u32, 2u32, 3u32, 2u32, 1u32]);
            }
            m
        }
    }
}

/// The four vertices of a non-degenerate line mesh form a parallelogram:
/// the edge from vertex 0 to vertex 1 equals the edge from vertex 2 to
/// vertex 3, and each edge's midpoint is the line's endpoint it belongs to.
pub proof fn lemma_line_mesh_centered(l: DebugLine, m: DebugDrawMesh)
    requires
        line_mesh(l, m),
    ensures
        m.vertices@[1].position.x - m.vertices@[0].position.x == m.vertices@[3].position.x
            - m.vertices@[2].position.x,
        m.vertices@[1].position.y - m.vertices@[0].position.y == m.vertices@[3].position.y
            - m.vertices@[2].position.y,
        m.vertices@[0].position.x + m.vertices@[1].position.x == 2 * l.from.x,
        m.vertices@[0].position.y + m.vertices@[1].position.y == 2 * l.from.y,
        m.vertices@[2].position.x + m.vertices@[3].position.x == 2 * l.to.x,
        m.vertices@[2].position.y + m.vertices@[3].position.y == 2 * l.to.y,
{
}

} // verus!
