//! Which vertices of a mesh receive a share of the tangents of its
//! triangles, and how many shares each of them receives.

use vstd::prelude::*;

verus! {

/// One if the two numbers are equal, zero if not.
pub open spec fn one_if_equal(a: int, b: int) -> int {
    if a == b {
        1
    } else {
        0
    }
}

/// How often `vertex` is the first or the second corner of one of the first
/// `triangles` triangles of an index list. The third corner does not count:
/// the tangent of a triangle is shared out to its first two corners only.
pub open spec fn inclusions(indices: Seq<u32>, triangles: int, vertex: int) -> int
    decreases triangles,
{
    if triangles <= 0 {
        0
    } else {
        let t = triangles - 1;
        inclusions(indices, t, vertex) + one_if_equal(indices[3 * t] as int, vertex)
            + one_if_equal(indices[3 * t + 1] as int, vertex)
    }
}

/// A vertex is included at most twice for each triangle.
pub proof fn lemma_inclusions_bounded(indices: Seq<u32>, triangles: int, vertex: int)
    requires
        0 <= triangles,
    ensures
        0 <= inclusions(indices, triangles, vertex) <= 2 * triangles,
    decreases triangles,
{
    if triangles > 0 {
        lemma_inclusions_bounded(indices, triangles - 1, vertex);
    }
}

/// For each of `vertex_count` vertices, the number of tangents that it
/// receives from the triangles of `indices`: one for each time it is the
/// first or the second corner of a triangle.
pub fn triangles_included(vertex_count: usize, indices: &Vec<u32>) -> (counts: Vec<usize>)
    requires
        indices.len() % 3 == 0,
        forall|k: int| 0 <= k < indices.len() ==> (#[trigger] indices[k] as int) < vertex_count,
    ensures
        counts.len() == vertex_count,
        forall|v: int|
            0 <= v < vertex_count ==> #[trigger] counts[v] as int == inclusions(
                indices@,
                indices.len() as int / 3,
                v,
            ),
{
    let mut counts: Vec<usize> = Vec::new();
    let mut v: usize = 0;
    while v < vertex_count
        invariant
            v <= vertex_count,
            counts.len() == v,
            forall|w: int| 0 <= w < v ==> #[trigger] counts[w] == 0,
        decreases vertex_count - v,
    {
        counts.push(0);
        v += 1;
    }
    let triangles: usize = indices.len() / 3;
    let mut t: usize = 0;
    while t < triangles
        invariant
            t <= triangles,
            triangles == indices.len() as int / 3,
            indices.len() % 3 == 0,
            counts.len() == vertex_count,
            forall|k: int| 0 <= k < indices.len() ==> (#[trigger] indices[k] as int) < vertex_count,
            forall|w: int|
                0 <= w < vertex_count ==> #[trigger] counts[w] as int == inclusions(
                    indices@,
                    t as int,
                    w,
                ),
        decreases triangles - t,
    {
        let first = indices[3 * t] as usize;
        let second = indices[3 * t + 1] as usize;
        proof {
            lemma_inclusions_bounded(indices@, t as int, first as int);
            lemma_inclusions_bounded(indices@, t as int, second as int);
        }
        let raised = counts[first] + 1;
        counts.set(first, raised);
        let raised = counts[second] + 1;
        counts.set(second, raised);
        t += 1;
    }
    counts
}

} // verus!
