//! The per-frame mesh accumulator: shapes are submitted as meshes during a
//! frame, and `flush` hands back one merged mesh with the submissions in
//! ascending depth order, ties keeping their submission order.

use crate::mesh::{DebugDrawMesh, DebugDrawVertex};
use vstd::prelude::*;

verus! {

broadcast use vstd::seq_lib::group_to_multiset_ensures;

/// Every mesh in the sequence is well-formed.
pub open spec fn all_wf(s: Seq<DebugDrawMesh>) -> bool {
    forall|i: int| 0 <= i < s.len() ==> (#[trigger] s[i]).wf()
}

/// The total number of vertices over a sequence of meshes.
pub open spec fn total_vertex_count(s: Seq<DebugDrawMesh>) -> int
    decreases s.len(),
{
    if s.len() == 0 {
        0
    } else {
        total_vertex_count(s.drop_last()) + s.last().vertices@.len()
    }
}

/// Where a mesh lands in a depth-sorted sequence: before the longest run of
/// strictly deeper elements at the end, after everything else. Inserting
/// each submitted mesh in turn is a stable sort: a tie never passes the
/// element it ties with.
pub open spec fn insert_by_depth(m: DebugDrawMesh, s: Seq<DebugDrawMesh>) -> Seq<DebugDrawMesh>
    decreases s.len(),
{
    if s.len() == 0 {
        seq![m]
    } else if m.depth < s.last().depth {
        insert_by_depth(m, s.drop_last()).push(s.last())
    } else {
        s.push(m)
    }
}

/// The submissions in ascending depth order, ties in submission order.
pub open spec fn sort_by_depth(s: Seq<DebugDrawMesh>) -> Seq<DebugDrawMesh>
    decreases s.len(),
{
    if s.len() == 0 {
        Seq::empty()
    } else {
        insert_by_depth(s.last(), sort_by_depth(s.drop_last()))
    }
}

/// Ascending by depth.
pub open spec fn depth_sorted(s: Seq<DebugDrawMesh>) -> bool {
    forall|i: int, j: int|
        0 <= i < j < s.len() ==> (#[trigger] s[i]).depth <= (#[trigger] s[j]).depth
}

/// The vertex buffer of the merge of a mesh sequence: the concatenation of
/// the vertex buffers.
pub open spec fn merged_vertices(s: Seq<DebugDrawMesh>) -> Seq<DebugDrawVertex>
    decreases s.len(),
{
    if s.len() == 0 {
        Seq::empty()
    } else {
        merged_vertices(s.drop_last()) + s.last().vertices@
    }
}

/// The index buffer of the merge: each mesh's indices rebased by the number
/// of vertices of the meshes before it.
pub open spec fn merged_indices(s: Seq<DebugDrawMesh>) -> Seq<int>
    decreases s.len(),
{
    if s.len() == 0 {
        Seq::empty()
    } else {
        merged_indices(s.drop_last()) + s.last().indices@.map_values(
            |v: u32| v + merged_vertices(s.drop_last()).len(),
        )
    }
}

/// Inserting adds one element.
proof fn lemma_insert_len(m: DebugDrawMesh, s: Seq<DebugDrawMesh>)
    ensures
        insert_by_depth(m, s).len() == s.len() + 1,
    decreases s.len(),
{
    if s.len() > 0 && m.depth < s.last().depth {
        lemma_insert_len(m, s.drop_last());
    }
}

/// Sorting keeps the length.
pub proof fn lemma_sort_len(s: Seq<DebugDrawMesh>)
    ensures
        sort_by_depth(s).len() == s.len(),
    decreases s.len(),
{
    if s.len() > 0 {
        lemma_sort_len(s.drop_last());
        lemma_insert_len(s.last(), sort_by_depth(s.drop_last()));
    }
}

/// If every element of `s` and the new mesh are at most `d` deep, so is
/// every element after the insertion.
proof fn lemma_insert_depth_bound(m: DebugDrawMesh, s: Seq<DebugDrawMesh>, d: i64)
    requires
        m.depth <= d,
        forall|i: int| 0 <= i < s.len() ==> (#[trigger] s[i]).depth <= d,
    ensures
        forall|i: int|
            0 <= i < insert_by_depth(m, s).len() ==> (#[trigger] insert_by_depth(m, s)[i]).depth
                <= d,
    decreases s.len(),
{
    let res = insert_by_depth(m, s);
    if s.len() == 0 {
        assert(res =~= seq![m]);
    } else if m.depth < s.last().depth {
        assert forall|i: int| 0 <= i < s.drop_last().len() implies (#[trigger] s.drop_last()[i]).depth <= d by {
            assert(s.drop_last()[i] == s[i]);
        }
        lemma_insert_depth_bound(m, s.drop_last(), d);
        let t = insert_by_depth(m, s.drop_last());
        lemma_insert_len(m, s.drop_last());
        assert forall|i: int| 0 <= i < res.len() implies (#[trigger] res[i]).depth <= d by {
            if i < t.len() {
                assert(res[i] == t[i]);
            } else {
                assert(res[i] == s.last());
                assert(s.last() == s[s.len() - 1]);
            }
        }
    } else {
        assert forall|i: int| 0 <= i < res.len() implies (#[trigger] res[i]).depth <= d by {
            if i < s.len() {
                assert(res[i] == s[i]);
            } else {
                assert(res[i] == m);
            }
        }
    }
}

/// Inserting into a depth-sorted sequence keeps it depth-sorted.
proof fn lemma_insert_sorted(m: DebugDrawMesh, s: Seq<DebugDrawMesh>)
    requires
        depth_sorted(s),
    ensures
        depth_sorted(insert_by_depth(m, s)),
    decreases s.len(),
{
    lemma_insert_len(m, s);
    let res = insert_by_depth(m, s);
    if s.len() == 0 {
    } else if m.depth < s.last().depth {
        assert forall|i: int, j: int| 0 <= i < j < s.drop_last().len() implies (
        #[trigger] s.drop_last()[i]).depth <= (#[trigger] s.drop_last()[j]).depth by {
            assert(s.drop_last()[i] == s[i] && s.drop_last()[j] == s[j]);
        }
        lemma_insert_sorted(m, s.drop_last());
        assert forall|i: int| 0 <= i < s.drop_last().len() implies (#[trigger] s.drop_last()[i]).depth <= s.last().depth by {
            assert(s.drop_last()[i] == s[i]);
            assert(s.last() == s[s.len() - 1]);
        }
        lemma_insert_depth_bound(m, s.drop_last(), s.last().depth);
        lemma_insert_len(m, s.drop_last());
        let t = insert_by_depth(m, s.drop_last());
        assert forall|i: int, j: int| 0 <= i < j < res.len() implies (#[trigger] res[i]).depth <= (
        #[trigger] res[j]).depth by {
            if j < t.len() {
                assert(res[i] == t[i] && res[j] == t[j]);
            } else {
                assert(res[j] == s.last());
                assert(res[i] == t[i]);
            }
        }
    } else {
        assert forall|i: int, j: int| 0 <= i < j < res.len() implies (#[trigger] res[i]).depth <= (
        #[trigger] res[j]).depth by {
            if j < s.len() {
                assert(res[i] == s[i] && res[j] == s[j]);
            } else {
                assert(res[j] == m);
                assert(res[i] == s[i]);
                if i < s.len() - 1 {
                    assert(s[i].depth <= s[s.len() - 1].depth);
                } else {
                    assert(s[i] == s.last());
                }
            }
        }
    }
}

/// Inserting a mesh adds exactly that mesh to the multiset of elements.
proof fn lemma_insert_multiset(m: DebugDrawMesh, s: Seq<DebugDrawMesh>)
    ensures
        insert_by_depth(m, s).to_multiset() == s.to_multiset().insert(m),
    decreases s.len(),
{
    if s.len() == 0 {
        assert(insert_by_depth(m, s) =~= Seq::<DebugDrawMesh>::empty().push(m));
        assert(s =~= Seq::<DebugDrawMesh>::empty());
    } else if m.depth < s.last().depth {
        lemma_insert_multiset(m, s.drop_last());
        let t = insert_by_depth(m, s.drop_last()).push(s.last());
        assert(t.to_multiset() =~= s.drop_last().to_multiset().insert(m).insert(s.last()));
        assert(s.drop_last().push(s.last()) =~= s);
        assert(s.to_multiset() =~= s.drop_last().to_multiset().insert(s.last()));
        assert(s.drop_last().to_multiset().insert(m).insert(s.last())
            =~= s.drop_last().to_multiset().insert(s.last()).insert(m));
    } else {
    }
}

/// The stable sort is a permutation: no submission is lost or duplicated.
pub proof fn lemma_sort_multiset(s: Seq<DebugDrawMesh>)
    ensures
        sort_by_depth(s).to_multiset() == s.to_multiset(),
    decreases s.len(),
{
    if s.len() > 0 {
        lemma_sort_multiset(s.drop_last());
        lemma_insert_multiset(s.last(), sort_by_depth(s.drop_last()));
        assert(s.drop_last().push(s.last()) =~= s);
        assert(s.to_multiset() =~= s.drop_last().to_multiset().insert(s.last()));
    }
}

/// The stable insertion sort yields a depth-sorted sequence.
pub proof fn lemma_sort_sorted(s: Seq<DebugDrawMesh>)
    ensures
        depth_sorted(sort_by_depth(s)),
    decreases s.len(),
{
    if s.len() > 0 {
        lemma_sort_sorted(s.drop_last());
        lemma_insert_sorted(s.last(), sort_by_depth(s.drop_last()));
    }
}

/// Inserting adds exactly the new mesh's vertices to the total.
proof fn lemma_insert_total(m: DebugDrawMesh, s: Seq<DebugDrawMesh>)
    ensures
        total_vertex_count(insert_by_depth(m, s)) == total_vertex_count(s) + m.vertices@.len(),
    decreases s.len(),
{
    if s.len() == 0 {
        let t = seq![m];
        assert(insert_by_depth(m, s) == t);
        assert(t.drop_last() =~= Seq::<DebugDrawMesh>::empty());
        assert(t.last() == m);
        assert(total_vertex_count(t) == total_vertex_count(t.drop_last()) + m.vertices@.len());
    } else if m.depth < s.last().depth {
        lemma_insert_total(m, s.drop_last());
        let x = insert_by_depth(m, s.drop_last());
        let t = x.push(s.last());
        assert(insert_by_depth(m, s) == t);
        assert(t.len() == x.len() + 1);
        assert(t.drop_last() =~= x);
        assert(t.last() == s.last());
        assert(total_vertex_count(t) == total_vertex_count(x) + s.last().vertices@.len());
        assert(total_vertex_count(s) == total_vertex_count(s.drop_last())
            + s.last().vertices@.len());
    } else {
        let t = s.push(m);
        assert(t.drop_last() =~= s);
        assert(t.last() == m);
        assert(total_vertex_count(t) == total_vertex_count(s) + m.vertices@.len());
    }
}

/// Sorting keeps the total vertex count.
pub proof fn lemma_sort_total(s: Seq<DebugDrawMesh>)
    ensures
        total_vertex_count(sort_by_depth(s)) == total_vertex_count(s),
    decreases s.len(),
{
    if s.len() > 0 {
        lemma_sort_total(s.drop_last());
        lemma_insert_total(s.last(), sort_by_depth(s.drop_last()));
    }
}

/// Inserting a well-formed mesh into a well-formed sequence keeps every
/// element well-formed.
proof fn lemma_insert_all_wf(m: DebugDrawMesh, s: Seq<DebugDrawMesh>)
    requires
        m.wf(),
        all_wf(s),
    ensures
        all_wf(insert_by_depth(m, s)),
    decreases s.len(),
{
    if s.len() > 0 && m.depth < s.last().depth {
        lemma_insert_all_wf(m, s.drop_last());
    }
}

/// Sorting keeps every element well-formed.
pub proof fn lemma_sort_all_wf(s: Seq<DebugDrawMesh>)
    requires
        all_wf(s),
    ensures
        all_wf(sort_by_depth(s)),
    decreases s.len(),
{
    if s.len() > 0 {
        lemma_sort_all_wf(s.drop_last());
        lemma_insert_all_wf(s.last(), sort_by_depth(s.drop_last()));
    }
}

/// Sorting and merging a frame keeps every submitted vertex: the merged
/// vertex buffer is exactly as long as all the submissions together.
pub proof fn lemma_flush_keeps_vertex_count(s: Seq<DebugDrawMesh>)
    ensures
        merged_vertices(sort_by_depth(s)).len() == total_vertex_count(s),
{
    lemma_merged_len(sort_by_depth(s));
    lemma_sort_total(s);
}

/// The vertex total of a prefix never exceeds the whole sequence's total.
pub proof fn lemma_total_take(s: Seq<DebugDrawMesh>, i: int)
    requires
        0 <= i <= s.len(),
    ensures
        total_vertex_count(s.take(i)) <= total_vertex_count(s),
    decreases s.len() - i,
{
    if i == s.len() {
        assert(s.take(i) =~= s);
    } else {
        lemma_total_take(s, i + 1);
        assert(s.take(i + 1).drop_last() =~= s.take(i));
        assert(s.take(i + 1).last() == s[i]);
    }
}

/// The merged vertex buffer's length is the total vertex count.
pub proof fn lemma_merged_len(s: Seq<DebugDrawMesh>)
    ensures
        merged_vertices(s).len() == total_vertex_count(s),
    decreases s.len(),
{
    if s.len() > 0 {
        lemma_merged_len(s.drop_last());
    }
}

/// Where the insertion point is known — everything from `j` on is strictly
/// deeper, and the element before `j` (if any) is not — the insertion is the
/// splice at `j`.
proof fn lemma_insert_at(m: DebugDrawMesh, s: Seq<DebugDrawMesh>, j: int)
    requires
        0 <= j <= s.len(),
        forall|k: int| j <= k < s.len() ==> (#[trigger] s[k]).depth > m.depth,
        j > 0 ==> s[j - 1].depth <= m.depth,
    ensures
        insert_by_depth(m, s) == s.take(j) + seq![m] + s.skip(j),
    decreases s.len(),
{
    if s.len() == 0 {
        assert(insert_by_depth(m, s) =~= s.take(j) + seq![m] + s.skip(j));
    } else if m.depth < s.last().depth {
        assert(j < s.len());
        lemma_insert_at(m, s.drop_last(), j);
        assert(s.drop_last().take(j) =~= s.take(j));
        assert(insert_by_depth(m, s.drop_last()).push(s.last()) =~= s.take(j) + seq![m] + s.skip(
            j,
        )) by {
            assert(s.drop_last().skip(j).push(s.last()) =~= s.skip(j));
        }
    } else {
        assert(j == s.len());
        assert(s.push(m) =~= s.take(j) + seq![m] + s.skip(j));
    }
}

/// The per-frame accumulator. Shapes are tessellated and submitted during a
/// frame's update phase; `flush` merges and clears them during the render
/// phase.
pub struct DebugDraw {
    meshes: Vec<DebugDrawMesh>,
}

impl DebugDraw {
    /// The meshes submitted since the last flush, in submission order.
    pub closed spec fn pending(&self) -> Seq<DebugDrawMesh> {
        self.meshes@
    }

    /// Every pending mesh is well-formed.
    pub open spec fn wf(&self) -> bool {
        all_wf(self.pending())
    }

    /// An accumulator with nothing pending.
    pub fn new() -> (d: DebugDraw)
        ensures
            d.pending().len() == 0,
            d.wf(),
    {
        DebugDraw { meshes: Vec::new() }
    }

    /// Submits one tessellated mesh for this frame.
    pub fn submit(&mut self, mesh: DebugDrawMesh)
        requires
            old(self).wf(),
            mesh.wf(),
        ensures
            final(self).pending() == old(self).pending().push(mesh),
            final(self).wf(),
    {
        self.meshes.push(mesh);
    }

    /// Merges everything submitted this frame into one mesh and clears the
    /// pending sequence: the submissions are stably sorted by ascending
    /// depth, their vertex buffers concatenated in that order, and each
    /// mesh's indices rebased by the vertices before it. An empty frame
    /// yields the empty mesh.
    pub fn flush(&mut self) -> (m: DebugDrawMesh)
        requires
            old(self).wf(),
            total_vertex_count(old(self).pending()) <= u32::MAX,
        ensures
            final(self).pending().len() == 0,
            final(self).wf(),
            m.wf(),
            m.depth == 0,
            m.vertices@ == merged_vertices(sort_by_depth(old(self).pending())),
            m.indices@.map_values(|v: u32| v as int) == merged_indices(
                sort_by_depth(old(self).pending()),
            ),
    {
        let ghost orig = self.meshes@;
        let mut out: Vec<DebugDrawMesh> = Vec::new();
        let ghost mut g: int = 0;
        while self.meshes.len() > 0
            invariant
                all_wf(orig),
                0 <= g <= orig.len(),
                self.meshes@ == orig.skip(g),
                out@ == sort_by_depth(orig.take(g)),
                all_wf(out@),
            decreases self.meshes@.len(),
        {
            let m = self.meshes.remove(0);
            proof {
                assert(m == orig.skip(g)[0]);
                assert(orig.skip(g)[0] == orig[g]);
                assert(orig.skip(g).remove(0) =~= orig.skip(g + 1));
                assert(m.wf());
            }
            let mut j: usize = out.len();
            while j > 0 && m.depth < out[j - 1].depth
                invariant
                    0 <= j <= out@.len(),
                    forall|k: int| j <= k < out@.len() ==> (#[trigger] out@[k]).depth > m.depth,
                decreases j,
            {
                j = j - 1;
            }
            proof {
                lemma_insert_at(m, out@, j as int);
                lemma_insert_all_wf(m, out@);
            }
            let ghost out_before = out@;
            out.insert(j, m);
            proof {
                assert(out@ =~= out_before.take(j as int) + seq![m] + out_before.skip(j as int));
                assert(out@ == insert_by_depth(m, out_before));
                assert(orig.take(g + 1).drop_last() =~= orig.take(g));
                assert(orig.take(g + 1).last() == orig[g]);
                assert(out@ == sort_by_depth(orig.take(g + 1)));
                g = g + 1;
            }
        }
        proof {
            assert(g == orig.len());
            assert(orig.take(g) =~= orig);
            assert(out@ == sort_by_depth(orig));
            lemma_sort_total(orig);
            lemma_sort_all_wf(orig);
            lemma_sort_len(orig);
        }
        let mut merged = DebugDrawMesh::new();
        let mut i: usize = 0;
        while i < out.len()
            invariant
                out@ == sort_by_depth(orig),
                all_wf(out@),
                total_vertex_count(out@) <= u32::MAX,
                0 <= i <= out@.len(),
                merged.wf(),
                merged.depth == 0,
                merged.vertices@ == merged_vertices(out@.take(i as int)),
                merged.indices@.map_values(|v: u32| v as int) == merged_indices(
                    out@.take(i as int),
                ),
            decreases out@.len() - i,
        {
            proof {
                lemma_merged_len(out@.take(i as int));
                lemma_total_take(out@, i as int + 1);
                assert(out@.take(i as int + 1).drop_last() =~= out@.take(i as int));
                assert(out@.take(i as int + 1).last() == out@[i as int]);
                assert(out@[i as int].wf());
            }
            let ghost before_verts = merged.vertices@;
            let ghost before_idx = merged.indices@;
            merged.merge_with(&out[i]);
            proof {
                assert(merged.vertices@ =~= merged_vertices(out@.take(i as int + 1)));
                let expected = merged_indices(out@.take(i as int + 1));
                let actual = merged.indices@.map_values(|v: u32| v as int);
                assert forall|k: int| 0 <= k < actual.len() implies actual[k] == expected[k] by {
                    if k < before_idx.len() {
                        assert(merged.indices@[k] == before_idx[k]);
                    } else {
                        let t = k - before_idx.len();
                        assert(merged.indices@[k] as int == out@[i as int].indices@[t] as int
                            + before_verts.len());
                    }
                }
                assert(actual =~= expected);
            }
            i = i + 1;
        }
        proof {
            assert(out@.take(out@.len() as int) =~= out@);
        }
        merged
    }
}

} // verus!
