//! The triangles of a cuboid with four vertices of its own for each face.
//!
//! The vertices are stored face by face, each face counter-clockwise, so
//! that vertex `v` belongs to face `v / 4`.

use vstd::prelude::*;

verus! {

/// The number of faces.
pub const FACES: u32 = 6;

/// The number of vertices: four for each face.
pub const VERTICES: u32 = 24;

/// The two triangles of one face: both start from the diagonal between the
/// first and the third vertex of the face.
pub open spec fn face_indices(face: int) -> Seq<int> {
    let first = 4 * face;
    seq![first, first + 1, first + 2, first + 2, first + 3, first]
}

/// The triangles of the first `faces` faces.
pub open spec fn cuboid_indices(faces: int) -> Seq<int>
    decreases faces,
{
    if faces <= 0 {
        Seq::empty()
    } else {
        cuboid_indices(faces - 1) + face_indices(faces - 1)
    }
}

/// The face that a vertex belongs to, which is also the place of its normal
/// in a list of one normal for each face.
pub fn face_of_vertex(vertex: u32) -> (face: u32)
    ensures
        face == vertex / 4,
        vertex < VERTICES ==> face < FACES,
{
    vertex / 4
}

/// The first `faces` faces add six indices each, all below four times the
/// number of faces.
pub proof fn lemma_cuboid_indices(faces: int)
    requires
        0 <= faces,
    ensures
        cuboid_indices(faces).len() == 6 * faces,
        forall|k: int|
            0 <= k < cuboid_indices(faces).len() ==> 0 <= #[trigger] cuboid_indices(faces)[k] < 4
                * faces,
        forall|k: int|
            0 <= k < cuboid_indices(faces).len() ==> #[trigger] cuboid_indices(faces)[k]
                == face_indices(k / 6)[k % 6],
    decreases faces,
{
    if faces > 0 {
        lemma_cuboid_indices(faces - 1);
        let earlier = cuboid_indices(faces - 1);
        let last = face_indices(faces - 1);
        assert forall|k: int| 0 <= k < cuboid_indices(faces).len() implies #[trigger] cuboid_indices(
            faces,
        )[k] == face_indices(k / 6)[k % 6] by {
            if k >= earlier.len() {
                assert(cuboid_indices(faces)[k] == last[k - earlier.len()]);
                assert(k / 6 == faces - 1 && k % 6 == k - earlier.len());
            } else {
                assert(cuboid_indices(faces)[k] == earlier[k]);
            }
        }
    }
}

/// The index list of the cuboid, three indices to a triangle and two
/// triangles to a face.
pub fn triangle_indices() -> (indices: Vec<u32>)
    ensures
        indices.len() == 36,
        forall|k: int|
            0 <= k < 36 ==> #[trigger] indices[k] as int == cuboid_indices(FACES as int)[k],
        forall|k: int| 0 <= k < 36 ==> #[trigger] indices[k] as int == face_indices(k / 6)[k % 6],
        forall|k: int| 0 <= k < 36 ==> #[trigger] indices[k] < VERTICES,
{
    let mut indices: Vec<u32> = Vec::new();
    let mut face: u32 = 0;
    while face < FACES
        invariant
            face <= FACES,
            indices.len() == 6 * face,
            indices.len() == cuboid_indices(face as int).len(),
            forall|k: int|
                0 <= k < indices.len() ==> #[trigger] indices[k] as int == cuboid_indices(
                    face as int,
                )[k],
        decreases FACES - face,
    {
        let first: u32 = 4 * face;
        let ghost before = indices@;
        indices.push(first);
        indices.push(first + 1);
        indices.push(first + 2);
        indices.push(first + 2);
        indices.push(first + 3);
        indices.push(first);
        proof {
            let model = cuboid_indices(face as int);
            let added = face_indices(face as int);
            assert(cuboid_indices(face + 1) == model + added);
            assert forall|k: int| 0 <= k < indices.len() implies #[trigger] indices[k] as int == (
            model + added)[k] by {
                if k < before.len() {
                    assert(indices[k] == before[k]);
                }
            }
        }
        face += 1;
    }
    proof {
        lemma_cuboid_indices(FACES as int);
    }
    indices
}

} // verus!
