//! From a list of triangles to the list of lines that draws their edges.

use vstd::prelude::*;

verus! {

/// The three edges of the triangle `a`, `b`, `c`, each as a pair of ends.
pub open spec fn triangle_edges(a: u32, b: u32, c: u32) -> Seq<u32> {
    seq![a, b, b, c, c, a]
}

/// The edges of the first `triangles` triangles of an index list.
pub open spec fn edge_list(indices: Seq<u32>, triangles: int) -> Seq<u32>
    decreases triangles,
{
    if triangles <= 0 {
        Seq::empty()
    } else {
        let t = triangles - 1;
        edge_list(indices, t) + triangle_edges(
            indices[3 * t],
            indices[3 * t + 1],
            indices[3 * t + 2],
        )
    }
}

/// The edges of the first `triangles` triangles are six entries each; entry
/// `k` is a corner of triangle `k / 6`: the corners 0, 1, 1, 2, 2, 0 in turn.
pub proof fn lemma_edge_list(indices: Seq<u32>, triangles: int)
    requires
        0 <= triangles,
        3 * triangles <= indices.len(),
    ensures
        edge_list(indices, triangles).len() == 6 * triangles,
        forall|k: int|
            0 <= k < 6 * triangles ==> #[trigger] edge_list(indices, triangles)[k] == indices[3 * (k
                / 6) + ((k % 6 + 1) / 2) % 3],
        forall|k: int|
            0 <= k < 6 * triangles ==> indices.contains(#[trigger] edge_list(indices, triangles)[k]),
    decreases triangles,
{
    if triangles > 0 {
        let t = triangles - 1;
        lemma_edge_list(indices, t);
        let earlier = edge_list(indices, t);
        let last = triangle_edges(indices[3 * t], indices[3 * t + 1], indices[3 * t + 2]);
        assert forall|k: int| 0 <= k < 6 * triangles implies #[trigger] edge_list(
            indices,
            triangles,
        )[k] == indices[3 * (k / 6) + ((k % 6 + 1) / 2) % 3] by {
            if k >= earlier.len() {
                assert(edge_list(indices, triangles)[k] == last[k - 6 * t]);
                assert(k / 6 == t && k % 6 == k - 6 * t);
            } else {
                assert(edge_list(indices, triangles)[k] == earlier[k]);
            }
        }
        assert forall|k: int| 0 <= k < 6 * triangles implies indices.contains(
            #[trigger] edge_list(indices, triangles)[k],
        ) by {
            let at = 3 * (k / 6) + ((k % 6 + 1) / 2) % 3;
            assert(0 <= at < indices.len());
            assert(indices[at] == edge_list(indices, triangles)[k]);
        }
    }
}

/// Turns a list of triangles into the list of lines along their edges. The
/// indices stay what they were: they point into the same vertices.
pub fn line_list(indices: &Vec<u32>) -> (lines: Vec<u32>)
    requires
        indices.len() % 3 == 0,
    ensures
        lines@ == edge_list(indices@, indices.len() as int / 3),
        lines.len() == 2 * indices.len(),
        forall|k: int| 0 <= k < lines.len() ==> indices@.contains(#[trigger] lines[k]),
{
    let triangles: usize = indices.len() / 3;
    let mut lines: Vec<u32> = Vec::new();
    let mut t: usize = 0;
    while t < triangles
        invariant
            t <= triangles,
            triangles == indices.len() as int / 3,
            indices.len() % 3 == 0,
            lines@ == edge_list(indices@, t as int),
        decreases triangles - t,
    {
        let a = indices[3 * t];
        let b = indices[3 * t + 1];
        let c = indices[3 * t + 2];
        let ghost before = lines@;
        lines.push(a);
        lines.push(b);
        lines.push(b);
        lines.push(c);
        lines.push(c);
        lines.push(a);
        assert(lines@ =~= before + triangle_edges(a, b, c));
        t += 1;
    }
    proof {
        lemma_edge_list(indices@, triangles as int);
    }
    lines
}

/// The items that `indices` points at, in the order of `indices`.
pub fn select<T: Copy>(items: &Vec<T>, indices: &Vec<u32>) -> (selected: Vec<T>)
    requires
        forall|k: int| 0 <= k < indices.len() ==> (#[trigger] indices[k] as int) < items.len(),
    ensures
        selected.len() == indices.len(),
        forall|k: int| 0 <= k < indices.len() ==> #[trigger] selected[k] == items[indices[k] as int],
{
    let mut selected: Vec<T> = Vec::new();
    let mut k: usize = 0;
    while k < indices.len()
        invariant
            k <= indices.len(),
            selected.len() == k,
            forall|m: int| 0 <= m < indices.len() ==> (#[trigger] indices[m] as int) < items.len(),
            forall|m: int| 0 <= m < k ==> #[trigger] selected[m] == items[indices[m] as int],
        decreases indices.len() - k,
    {
        selected.push(items[indices[k] as usize]);
        k += 1;
    }
    selected
}

} // verus!
