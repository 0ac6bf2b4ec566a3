//! The triangle mesh every shape tessellates into, and the merge step that
//! concatenates two meshes while rebasing the second one's indices.

use crate::geom::Vec2;
use vstd::prelude::*;

verus! {

/// An RGBA color with 8-bit channels.
#[derive(Clone, Copy, Debug, PartialEq, Eq, Structural)]
pub struct Color {
    pub r: u8,
    pub g: u8,
    pub b: u8,
    pub a: u8,
}

impl Color {
    /// Opaque black.
    pub fn black() -> (c: Color)
        ensures
            c == (Color { r: 0, g: 0, b: 0, a: 255 }),
    {
        Color { r: 0, g: 0, b: 0, a: 255 }
    }
}

/// One mesh vertex: a position and a color.
#[derive(Clone, Copy, Debug, PartialEq, Eq, Structural)]
pub struct DebugDrawVertex {
    pub position: Vec2,
    pub color: Color,
}

/// A triangle mesh: a vertex buffer, an index buffer whose consecutive
/// triples form triangles, and the depth sort key used for batching.
#[derive(Clone, Debug)]
pub struct DebugDrawMesh {
    pub vertices: Vec<DebugDrawVertex>,
    pub indices: Vec<u32>,
    pub depth: i64,
}

impl DebugDrawMesh {
    /// Every index points into the vertex buffer.
    pub open spec fn wf(&self) -> bool {
        forall|i: int|
            0 <= i < self.indices@.len() ==> (self.indices@[i] as int) < self.vertices@.len()
    }

    /// An empty mesh at depth zero.
    pub fn new() -> (m: DebugDrawMesh)
        ensures
            m.vertices@.len() == 0,
            m.indices@.len() == 0,
            m.depth == 0,
            m.wf(),
    {
        DebugDrawMesh { vertices: Vec::new(), indices: Vec::new(), depth: 0 }
    }

    /// Appends `other` to `self`: vertex buffers are concatenated, and each
    /// of `other`'s indices is rebased by the number of vertices `self` held
    /// before the call, so it still points at the vertex it named in
    /// `other`. The depth key of `self` is kept.
    pub fn merge_with(&mut self, other: &DebugDrawMesh)
        requires
            old(self).wf(),
            other.wf(),
            old(self).vertices@.len() + other.vertices@.len() <= u32::MAX,
        ensures
            final(self).vertices@ == old(self).vertices@ + other.vertices@,
            final(self).indices@.len() == old(self).indices@.len() + other.indices@.len(),
            forall|i: int|
                0 <= i < old(self).indices@.len() ==> final(self).indices@[i] == old(
                    self,
                ).indices@[i],
            forall|i: int|
                0 <= i < other.indices@.len() ==> final(self).indices@[old(
                    self,
                ).indices@.len() + i] as int == other.indices@[i] as int + old(
                    self,
                ).vertices@.len(),
            final(self).depth == old(self).depth,
            final(self).wf(),
    {
        let base: u32 = self.vertices.len() as u32;
        let mut i: usize = 0;
        while i < other.vertices.len()
            invariant
                0 <= i <= other.vertices@.len(),
                self.vertices@ == old(self).vertices@ + other.vertices@.take(i as int),
                self.indices@ == old(self).indices@,
                self.depth == old(self).depth,
            decreases other.vertices@.len() - i,
        {
            self.vertices.push(other.vertices[i]);
            proof {
                assert(old(self).vertices@ + other.vertices@.take(i as int) + seq![
                    other.vertices@[i as int],
                ] =~= old(self).vertices@ + other.vertices@.take(i as int + 1));
            }
            i = i + 1;
        }
        proof {
            assert(other.vertices@.take(other.vertices@.len() as int) =~= other.vertices@);
        }
        let mut j: usize = 0;
        while j < other.indices.len()
            invariant
                0 <= j <= other.indices@.len(),
                base as int == old(self).vertices@.len(),
                other.wf(),
                other.vertices@.len() + base as int <= u32::MAX,
                self.vertices@ == old(self).vertices@ + other.vertices@,
                self.indices@.len() == old(self).indices@.len() + j,
                forall|k: int|
                    0 <= k < old(self).indices@.len() ==> self.indices@[k] == old(
                        self,
                    ).indices@[k],
                forall|k: int|
                    0 <= k < j ==> self.indices@[old(self).indices@.len() + k] as int
                        == other.indices@[k] as int + base as int,
                self.depth == old(self).depth,
            decreases other.indices@.len() - j,
        {
            let idx = other.indices[j];
            assert((idx as int) < other.vertices@.len());
            self.indices.push(base + idx);
            j = j + 1;
        }
        proof {
            assert(old(self).wf());
            assert forall|i: int| 0 <= i < self.indices@.len() implies (self.indices@[i] as int)
                < self.vertices@.len() by {
                if i < old(self).indices@.len() {
                    assert(self.indices@[i] == old(self).indices@[i]);
                    assert((old(self).indices@[i] as int) < old(self).vertices@.len());
                } else {
                    let k = i - old(self).indices@.len();
                    assert(self.indices@[i] as int == other.indices@[k] as int + base as int);
                    assert((other.indices@[k] as int) < other.vertices@.len());
                }
            }
        }
    }
}

} // verus!
