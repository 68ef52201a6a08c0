//! The triangles of a sphere whose vertices form a grid of latitude and
//! longitude lines.
//!
//! For a resolution `n` the grid has `n + 1` rows from pole to pole and
//! `n + 1` columns around the axis, stored row by row. Each cell between two
//! rows is split into two triangles; at the poles, where a cell is a
//! triangle already, one of the two is left out.

use vstd::prelude::*;

verus! {

/// The largest resolution whose vertices can all be numbered with 32 bits.
pub const MAX_RESOLUTION: i32 = 65534;

/// How many vertices the grid has.
pub open spec fn vertex_total(resolution: int) -> int {
    (resolution + 1) * (resolution + 1)
}

/// The number of the vertex in `row` and `column`.
pub open spec fn vertex_number(resolution: int, row: int, column: int) -> int {
    row * (resolution + 1) + column
}

/// The indices that the cell below the vertex in `row` and `column` adds:
/// a triangle with two corners in this row, except in the first row, and a
/// triangle with two corners in the next row, except in the last but one.
pub open spec fn cell_indices(resolution: int, row: int, column: int) -> Seq<int> {
    let here = vertex_number(resolution, row, column);
    let below = vertex_number(resolution, row + 1, column);
    let upper = if row != 0 {
        seq![here, below, here + 1]
    } else {
        Seq::empty()
    };
    let lower = if row != resolution - 1 {
        seq![here + 1, below, below + 1]
    } else {
        Seq::empty()
    };
    upper + lower
}

/// The indices of the first `columns` cells of `row`.
pub open spec fn row_indices(resolution: int, row: int, columns: int) -> Seq<int>
    decreases columns,
{
    if columns <= 0 {
        Seq::empty()
    } else {
        row_indices(resolution, row, columns - 1) + cell_indices(resolution, row, columns - 1)
    }
}

/// The indices of the first `rows` rows of cells, each with all of its
/// `resolution + 1` cells.
pub open spec fn grid_indices(resolution: int, rows: int) -> Seq<int>
    decreases rows,
{
    if rows <= 0 {
        Seq::empty()
    } else {
        grid_indices(resolution, rows - 1) + row_indices(resolution, rows - 1, resolution + 1)
    }
}

/// The index list of the whole sphere: one row of cells between each two
/// rows of vertices.
pub open spec fn sphere_indices(resolution: int) -> Seq<int> {
    grid_indices(resolution, resolution)
}

/// How many indices the whole sphere has: six for each cell, less the
/// triangles that are left out at the two poles.
pub open spec fn index_total(resolution: int) -> int {
    if resolution < 1 {
        0
    } else {
        6 * ((resolution + 1) * (resolution - 1))
    }
}

/// How many indices one cell of `row` adds.
pub open spec fn cell_size(resolution: int, row: int) -> int {
    (if row != 0 {
        3int
    } else {
        0int
    }) + (if row != resolution - 1 {
        3int
    } else {
        0int
    })
}

/// How many indices the first `rows` rows of cells add.
pub open spec fn grid_size(resolution: int, rows: int) -> int {
    if rows <= 0 || resolution == 1 {
        0
    } else if rows < resolution {
        (resolution + 1) * (6 * rows - 3)
    } else {
        (resolution + 1) * (6 * rows - 6)
    }
}

/// Each cell inside the grid adds as many indices as its row says, and each
/// of them is the number of a vertex.
pub proof fn lemma_cell_indices(resolution: int, row: int, column: int)
    requires
        0 <= row < resolution,
        0 <= column <= resolution,
    ensures
        cell_indices(resolution, row, column).len() == cell_size(resolution, row),
        forall|k: int|
            0 <= k < cell_indices(resolution, row, column).len() ==> 0 <= #[trigger] cell_indices(
                resolution,
                row,
                column,
            )[k] < vertex_total(resolution),
{
    let side = resolution + 1;
    let here = vertex_number(resolution, row, column);
    let below = vertex_number(resolution, row + 1, column);
    assert(0 <= row * side <= (resolution - 1) * side) by (nonlinear_arith)
        requires
            0 <= row <= resolution - 1,
            side > 0,
    ;
    assert((row + 1) * side == row * side + side) by (nonlinear_arith);
    assert((resolution - 1) * side + side + side == side * side) by (nonlinear_arith)
        requires
            side == resolution + 1,
    ;
    assert(0 <= here && here + 1 < side * side);
    assert(0 <= below && below < side * side);
    if row != resolution - 1 {
        assert(row * side <= (resolution - 2) * side) by (nonlinear_arith)
            requires
                0 <= row <= resolution - 2,
                side > 0,
        ;
        assert((resolution - 2) * side + side + side + side == side * side) by (nonlinear_arith)
            requires
                side == resolution + 1,
        ;
        assert(below + 1 < side * side);
    }
}

/// The first `columns` cells of a row add `columns` times what one cell
/// adds, and only numbers of vertices.
pub proof fn lemma_row_indices(resolution: int, row: int, columns: int)
    requires
        0 <= row < resolution,
        0 <= columns <= resolution + 1,
    ensures
        row_indices(resolution, row, columns).len() == columns * cell_size(resolution, row),
        forall|k: int|
            0 <= k < row_indices(resolution, row, columns).len() ==> 0 <= #[trigger] row_indices(
                resolution,
                row,
                columns,
            )[k] < vertex_total(resolution),
    decreases columns,
{
    if columns > 0 {
        lemma_row_indices(resolution, row, columns - 1);
        lemma_cell_indices(resolution, row, columns - 1);
        assert(columns * cell_size(resolution, row) == (columns - 1) * cell_size(resolution, row)
            + cell_size(resolution, row)) by (nonlinear_arith);
    }
}

/// The first `rows` rows of cells add `grid_size` indices, all of them
/// numbers of vertices.
pub proof fn lemma_grid_indices(resolution: int, rows: int)
    requires
        0 <= rows <= resolution,
    ensures
        grid_indices(resolution, rows).len() == grid_size(resolution, rows),
        forall|k: int|
            0 <= k < grid_indices(resolution, rows).len() ==> 0 <= #[trigger] grid_indices(
                resolution,
                rows,
            )[k] < vertex_total(resolution),
    decreases rows,
{
    if rows > 0 {
        let side = resolution + 1;
        lemma_grid_indices(resolution, rows - 1);
        lemma_row_indices(resolution, rows - 1, side);
        let size = cell_size(resolution, rows - 1);
        assert(grid_size(resolution, rows) == grid_size(resolution, rows - 1) + side * size)
            by (nonlinear_arith)
            requires
                0 < rows <= resolution,
                side == resolution + 1,
                size == cell_size(resolution, rows - 1),
        ;
    }
}

/// The index list of a sphere has `index_total` entries, a whole number of
/// triangles, and every entry is the number of a vertex.
pub proof fn lemma_sphere_indices(resolution: int)
    requires
        0 <= resolution,
    ensures
        sphere_indices(resolution).len() == index_total(resolution),
        sphere_indices(resolution).len() % 3 == 0,
        forall|k: int|
            0 <= k < sphere_indices(resolution).len() ==> 0 <= #[trigger] sphere_indices(
                resolution,
            )[k] < vertex_total(resolution),
{
    lemma_grid_indices(resolution, resolution);
    if resolution >= 1 {
        assert((resolution + 1) * (6 * resolution - 6) == 6 * ((resolution + 1) * (resolution
            - 1))) by (nonlinear_arith);
    }
}

/// `indices` holds exactly the numbers of `model`.
pub open spec fn holds(indices: Seq<u32>, model: Seq<int>) -> bool {
    &&& indices.len() == model.len()
    &&& forall|k: int| 0 <= k < indices.len() ==> #[trigger] indices[k] as int == model[k]
}

/// How many vertices a sphere of this resolution has.
pub fn vertex_count(resolution: i32) -> (count: u32)
    requires
        0 <= resolution <= MAX_RESOLUTION,
    ensures
        count == vertex_total(resolution as int),
{
    let side: u32 = resolution as u32 + 1;
    assert(side * side <= 65535 * 65535) by (nonlinear_arith)
        requires
            0 <= side <= 65535,
    ;
    side * side
}

/// The index list of a sphere of this resolution, three indices to a
/// triangle.
pub fn triangle_indices(resolution: i32) -> (indices: Vec<u32>)
    requires
        0 <= resolution <= MAX_RESOLUTION,
    ensures
        holds(indices@, sphere_indices(resolution as int)),
        indices.len() == index_total(resolution as int),
        indices.len() % 3 == 0,
        forall|k: int| 0 <= k < indices.len() ==> #[trigger] indices[k] < vertex_total(resolution as int),
{
    proof {
        lemma_sphere_indices(resolution as int);
    }
    let n: u32 = resolution as u32;
    let mut indices: Vec<u32> = Vec::new();
    let mut i: u32 = 0;
    while i < n
        invariant
            0 <= n <= 65534,
            i <= n,
            holds(indices@, grid_indices(n as int, i as int)),
        decreases n - i,
    {
        assert(i * (n + 1) + (n + 1) <= 65534 * 65535) by (nonlinear_arith)
            requires
                0 <= i < n,
                n <= 65534,
        ;
        let mut index_1: u32 = i * (n + 1);
        let mut index_2: u32 = index_1 + n + 1;
        let mut j: u32 = 0;
        assert(index_2 == vertex_number(n as int, i + 1, 0)) by (nonlinear_arith)
            requires
                index_2 == i * (n + 1) + n + 1,
        ;
        while j <= n
            invariant
                0 <= n <= 65534,
                i < n,
                j <= n + 1,
                i * (n + 1) + (n + 1) <= 65534 * 65535,
                index_1 == vertex_number(n as int, i as int, j as int),
                index_2 == vertex_number(n as int, i + 1, j as int),
                holds(
                    indices@,
                    grid_indices(n as int, i as int) + row_indices(n as int, i as int, j as int),
                ),
            decreases n + 1 - j,
        {
            assert(vertex_number(n as int, i + 1, j as int) == vertex_number(
                n as int,
                i as int,
                j as int,
            ) + n + 1) by (nonlinear_arith);
            let ghost before = indices@;
            let ghost model = grid_indices(n as int, i as int) + row_indices(
                n as int,
                i as int,
                j as int,
            );
            if i != 0 {
                indices.push(index_1);
                indices.push(index_2);
                indices.push(index_1 + 1);
            }
            if i != n - 1 {
                indices.push(index_1 + 1);
                indices.push(index_2);
                indices.push(index_2 + 1);
            }
            proof {
                let cell = cell_indices(n as int, i as int, j as int);
                assert(row_indices(n as int, i as int, j + 1) == row_indices(
                    n as int,
                    i as int,
                    j as int,
                ) + cell);
                assert(grid_indices(n as int, i as int) + row_indices(n as int, i as int, j + 1)
                    =~= model + cell);
                assert(holds(indices@, model + cell)) by {
                    assert(indices@.len() == before.len() + cell.len());
                    assert forall|k: int| 0 <= k < indices@.len() implies #[trigger] indices@[k]
                        as int == (model + cell)[k] by {
                        if k < before.len() {
                            assert(indices@[k] == before[k]);
                        }
                    }
                }
            }
            index_1 += 1;
            index_2 += 1;
            j += 1;
            assert(index_1 == vertex_number(n as int, i as int, j as int)) by (nonlinear_arith)
                requires
                    index_1 == i * (n + 1) + j,
            ;
            assert(index_2 == vertex_number(n as int, i + 1, j as int)) by (nonlinear_arith)
                requires
                    index_2 == (i + 1) * (n + 1) + j,
            ;
        }
        i += 1;
    }
    indices
}

} // verus!
