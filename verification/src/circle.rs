//! Tessellation of a circle into a triangle fan around a center vertex.
//!
//! The trigonometry lives outside this library: the caller supplies one unit
//! rotor per segment (the direction of angle `i / N` turns), and the
//! tessellator composes each with the circle's own rotation and scales it by
//! the documented radial factor of half the radius.

use crate::geom::{
    floor_div, lemma_div_bound, lemma_mul_bound, rmul_cos, rmul_sin, rotor_mul, rotor_ok,
    rotor_unit, vec2_ok, Rotor, Vec2, COORD_LIMIT, FX_ONE,
};
use crate::mesh::{Color, DebugDrawMesh, DebugDrawVertex};
use vstd::prelude::*;

verus! {

/// A circle to draw: a center, a radius, how many perimeter segments to use,
/// a rotation, and one direction rotor per segment.
#[derive(Clone, Debug)]
pub struct DebugDrawCircle {
    pub position: Vec2,
    pub radius: i64,
    pub segments: u8,
    pub rotation: Rotor,
    pub segment_dirs: Vec<Rotor>,
    pub color: Color,
}

/// The mesh a circle tessellates into: one perimeter vertex per segment at
/// the rotated direction scaled by half the radius, a center vertex last,
/// and a fan of index triples `(N, i, (i + 1) % N)`.
pub open spec fn circle_mesh(c: DebugDrawCircle, m: DebugDrawMesh) -> bool {
    let n = c.segments as int;
    let hr = c.radius as int / 2;
    &&& m.vertices@.len() == n + 1
    &&& m.indices@.len() == 3 * n
    &&& forall|i: int|
        0 <= i < n ==> m.vertices@[i].position.x as int == c.position.x + (rmul_cos(
            c.rotation,
            c.segment_dirs@[i],
        ) * hr) / (FX_ONE as int)
    &&& forall|i: int|
        0 <= i < n ==> m.vertices@[i].position.y as int == c.position.y + (rmul_sin(
            c.rotation,
            c.segment_dirs@[i],
        ) * hr) / (FX_ONE as int)
    &&& m.vertices@[n].position == c.position
    &&& forall|i: int| 0 <= i < n + 1 ==> m.vertices@[i].color == c.color
    &&& forall|i: int|
        #![trigger m.indices@[3 * i]]
        0 <= i < n ==> m.indices@[3 * i] as int == n && m.indices@[3 * i + 1] as int == i
            && m.indices@[3 * i + 2] as int == (i + 1) % n
    &&& m.depth == 0
}

impl DebugDrawCircle {
    /// Position and radius are small enough, the rotation and the segment
    /// directions are unit rotations up to rounding, and there is exactly
    /// one direction per segment.
    pub open spec fn wf(&self) -> bool {
        &&& vec2_ok(self.position)
        &&& 0 <= self.radius <= COORD_LIMIT
        &&& rotor_ok(self.rotation)
        &&& rotor_unit(self.rotation)
        &&& self.segment_dirs@.len() == self.segments as int
        &&& forall|i: int|
            0 <= i < self.segment_dirs@.len() ==> rotor_ok(#[trigger] self.segment_dirs@[i])
                && rotor_unit(self.segment_dirs@[i])
    }

    /// A zero-radius unrotated black circle of 64 segments at the origin.
    /// The direction table starts empty: the host supplies one unit rotor
    /// per segment (the trigonometry lives outside this library) before the
    /// circle is well-formed for tessellation.
    pub fn default() -> (c: DebugDrawCircle)
        ensures
            c.position == (Vec2 { x: 0, y: 0 }),
            c.radius == 0,
            c.segments == 64,
            c.rotation == (Rotor { cos: FX_ONE, sin: 0 }),
            c.segment_dirs@.len() == 0,
            c.color == (Color { r: 0, g: 0, b: 0, a: 255 }),
    {
        DebugDrawCircle {
            position: Vec2::zero(),
            radius: 0,
            segments: 64,
            rotation: Rotor::identity(),
            segment_dirs: Vec::new(),
            color: Color::black(),
        }
    }

    /// Tessellates the circle into the fan described by `circle_mesh`.
    pub fn to_mesh(&self) -> (m: DebugDrawMesh)
        requires
            self.wf(),
        ensures
            m.wf(),
            circle_mesh(*self, m),
    {
        proof {
            lemma_div_bound(self.radius as int, 2);
        }
        let n = self.segments;
        let hr = floor_div(self.radius, 2);
        let mut vertices: Vec<DebugDrawVertex> = Vec::new();
        let mut indices: Vec<u32> = Vec::new();
        let mut i: usize = 0;
        while i < n as usize
            invariant
                self.wf(),
                n == self.segments,
                0 <= i <= n as int,
                hr == self.radius as int / 2,
                0 <= hr <= COORD_LIMIT,
                vertices@.len() == i,
                indices@.len() == 3 * i,
                forall|k: int|
                    0 <= k < i ==> vertices@[k].position.x as int == self.position.x + (rmul_cos(
                        self.rotation,
                        self.segment_dirs@[k],
                    ) * hr) / (FX_ONE as int),
                forall|k: int|
                    0 <= k < i ==> vertices@[k].position.y as int == self.position.y + (rmul_sin(
                        self.rotation,
                        self.segment_dirs@[k],
                    ) * hr) / (FX_ONE as int),
                forall|k: int| 0 <= k < i ==> vertices@[k].color == self.color,
                forall|k: int|
                    #![trigger indices@[3 * k]]
                    0 <= k < i ==> indices@[3 * k] as int == n as int && indices@[3 * k + 1] as int
                        == k && indices@[3 * k + 2] as int == (k + 1) % (n as int),
                forall|j: int| 0 <= j < indices@.len() ==> indices@[j] as int <= n as int,
            decreases n as int - i,
        {
            let dir = self.segment_dirs[i];
            let d = rotor_mul(self.rotation, dir);
            proof {
                lemma_mul_bound(d.cos as int, hr as int, 2 * FX_ONE, COORD_LIMIT as int);
                lemma_mul_bound(d.sin as int, hr as int, 2 * FX_ONE, COORD_LIMIT as int);
                lemma_div_bound(d.cos * hr, FX_ONE as int);
                lemma_div_bound(d.sin * hr, FX_ONE as int);
            }
            let px = self.position.x + floor_div(d.cos * hr, FX_ONE);
            let py = self.position.y + floor_div(d.sin * hr, FX_ONE);
            vertices.push(DebugDrawVertex { position: Vec2 { x: px, y: py }, color: self.color });
            indices.push(n as u32);
            indices.push(i as u32);
            let wrap = (i as u32 + 1) % (n as u32);
            indices.push(wrap);
            proof {
                assert(indices@.len() == 3 * (i as int) + 3);
                assert(indices@[3 * (i as int)] == n as u32);
                assert(indices@[3 * (i as int) + 1] == i as u32);
                assert(indices@[3 * (i as int) + 2] == wrap);
                assert(wrap as int == ((i as int) + 1) % (n as int));
            }
            i = i + 1;
        }
        vertices.push(DebugDrawVertex { position: self.position, color: self.color });
        let m = DebugDrawMesh { vertices, indices, depth: 0 };
        proof {
            let nn = n as int;
            assert(m.vertices@.len() == nn + 1);
            assert(m.indices@.len() == 3 * nn);
            assert(m.vertices@[nn].position == self.position);
            assert(forall|k: int| 0 <= k < nn + 1 ==> m.vertices@[k].color == self.color);
            assert(forall|i: int|
                0 <= i < nn ==> m.vertices@[i].position.x as int == self.position.x + (rmul_cos(
                    self.rotation,
                    self.segment_dirs@[i],
                ) * (self.radius as int / 2)) / (FX_ONE as int));
            assert(forall|i: int|
                0 <= i < nn ==> m.vertices@[i].position.y as int == self.position.y + (rmul_sin(
                    self.rotation,
                    self.segment_dirs@[i],
                ) * (self.radius as int / 2)) / (FX_ONE as int));
            assert(forall|i: int|
                #![trigger m.indices@[3 * i]]
                0 <= i < nn ==> m.indices@[3 * i] as int == nn && m.indices@[3 * i + 1] as int == i
                    && m.indices@[3 * i + 2] as int == (i + 1) % nn);
            assert(circle_mesh(*self, m));
        }
        m
    }
}

} // verus!
