//! Row-major grid coordinates and the eight compass neighbours of a cell.
use vstd::prelude::*;
use vstd::arithmetic::div_mod::{lemma_fundamental_div_mod, lemma_fundamental_div_mod_converse};

verus! {

/// Grid dimensions that can hold at least one cell and whose cell count fits a `usize`.
pub open spec fn valid_dims(w: int, h: int) -> bool {
    0 < w && 0 < h && w * h <= usize::MAX
}

/// Column step of compass direction `d`, directions ordered N, NE, E, SE, S, SW, W, NW.
pub open spec fn dir_dx(d: int) -> int {
    if d == 1 || d == 2 || d == 3 {
        1
    } else if d == 5 || d == 6 || d == 7 {
        -1
    } else {
        0
    }
}

/// Row step of compass direction `d` (rows grow southwards).
pub open spec fn dir_dy(d: int) -> int {
    if d == 7 || d == 0 || d == 1 {
        -1
    } else if d == 3 || d == 4 || d == 5 {
        1
    } else {
        0
    }
}

/// The compass direction opposite to `d`.
pub open spec fn opposite(d: int) -> int {
    (d + 4) % 8
}

/// Whether column `x`, row `y` lies on a `w` by `h` grid.
pub open spec fn on_grid(x: int, y: int, w: int, h: int) -> bool {
    0 <= x < w && 0 <= y < h
}

/// The cell one step from cell `i` in direction `d`, or `None` where that step leaves the grid.
pub open spec fn neighbour_at(i: int, w: int, h: int, d: int) -> Option<usize> {
    let nx = i % w + dir_dx(d);
    let ny = i / w + dir_dy(d);
    if on_grid(nx, ny, w, h) {
        Some((ny * w + nx) as usize)
    } else {
        None
    }
}

/// The neighbours of cell `i` in compass order, `None` for a direction off the grid.
pub open spec fn neighbour_list(i: int, w: int, h: int) -> Seq<Option<usize>> {
    Seq::new(8, |d: int| neighbour_at(i, w, h, d))
}

/// Every cell index has its column and row on the grid.
pub proof fn lemma_coords_on_grid(i: int, w: int, h: int)
    requires
        valid_dims(w, h),
        0 <= i < w * h,
    ensures
        on_grid(i % w, i / w, w, h),
        i == (i / w) * w + i % w,
{
    lemma_fundamental_div_mod(i, w);
    let y = i / w;
    let x = i % w;
    assert(y < h) by (nonlinear_arith)
        requires
            i == w * y + x,
            0 <= x < w,
            i < w * h,
    ;
    assert(0 <= y) by (nonlinear_arith)
        requires
            i == w * y + x,
            0 <= i,
            0 <= x < w,
    ;
}

/// A neighbour lies on the grid, one step away in its direction, at the offset of that step.
pub proof fn lemma_neighbour_in_grid(i: int, w: int, h: int, d: int)
    requires
        valid_dims(w, h),
        0 <= i < w * h,
        0 <= d < 8,
        neighbour_at(i, w, h, d) is Some,
    ensures
        ({
            let j = neighbour_at(i, w, h, d)->0 as int;
            &&& 0 <= j < w * h
            &&& j != i
            &&& j % w == i % w + dir_dx(d)
            &&& j / w == i / w + dir_dy(d)
            &&& j == i + dir_dy(d) * w + dir_dx(d)
        }),
{
    lemma_coords_on_grid(i, w, h);
    let x = i % w;
    let y = i / w;
    let nx = x + dir_dx(d);
    let ny = y + dir_dy(d);
    let dy = dir_dy(d);
    assert(0 <= ny * w + nx < w * h) by (nonlinear_arith)
        requires
            0 <= nx < w,
            0 <= ny < h,
    ;
    assert(ny * w + nx == i + dy * w + dir_dx(d)) by (nonlinear_arith)
        requires
            i == y * w + x,
            ny == y + dy,
            nx == x + dir_dx(d),
    ;
    lemma_fundamental_div_mod_converse(ny * w + nx, w, ny, nx);
}


/// Every neighbour in the list of cell `i` is a cell of the grid.
pub proof fn lemma_neighbour_list_in_grid(i: int, w: int, h: int)
    requires
        valid_dims(w, h),
        0 <= i < w * h,
    ensures
        neighbour_list(i, w, h).len() == 8,
        forall|d: int|
            0 <= d < 8 && (#[trigger] neighbour_list(i, w, h)[d]) is Some ==> (
            neighbour_list(i, w, h)[d]->0 as int) < w * h,
{
    assert forall|d: int|
        0 <= d < 8 && (#[trigger] neighbour_list(i, w, h)[d]) is Some implies (neighbour_list(
        i,
        w,
        h,
    )[d]->0 as int) < w * h by {
        lemma_neighbour_in_grid(i, w, h, d);
    }
}

/// Every on-grid position adjacent to cell `i` (diagonals included) is in its neighbour list,
/// in the direction of the step that leads there.
pub proof fn lemma_adjacent_is_neighbour(i: int, w: int, h: int, nx: int, ny: int)
    requires
        valid_dims(w, h),
        0 <= i < w * h,
        on_grid(nx, ny, w, h),
        -1 <= nx - i % w <= 1,
        -1 <= ny - i / w <= 1,
        nx != i % w || ny != i / w,
    ensures
        exists|d: int|
            0 <= d < 8 && dir_dx(d) == nx - i % w && dir_dy(d) == ny - i / w && #[trigger] neighbour_list(
                i,
                w,
                h,
            )[d] == Some((ny * w + nx) as usize),
{
    let ddx = nx - i % w;
    let ddy = ny - i / w;
    let d: int = if ddy == -1 {
        if ddx == 0 { 0 } else if ddx == 1 { 1 } else { 7 }
    } else if ddy == 0 {
        if ddx == 1 { 2 } else { 6 }
    } else {
        if ddx == 1 { 3 } else if ddx == 0 { 4 } else { 5 }
    };
    assert(neighbour_list(i, w, h)[d] == Some((ny * w + nx) as usize));
}

/// Neighbourhood is symmetric: if `j` is the neighbour of `i` in direction `d`,
/// then `i` is the neighbour of `j` in the opposite direction.
pub proof fn lemma_neighbour_symmetric(i: int, w: int, h: int, d: int)
    requires
        valid_dims(w, h),
        0 <= i < w * h,
        0 <= d < 8,
        neighbour_at(i, w, h, d) is Some,
    ensures
        neighbour_at(neighbour_at(i, w, h, d)->0 as int, w, h, opposite(d)) == Some(i as usize),
{
    lemma_coords_on_grid(i, w, h);
    lemma_neighbour_in_grid(i, w, h, d);
    let j = neighbour_at(i, w, h, d)->0 as int;
    assert(dir_dx(opposite(d)) == -dir_dx(d) && dir_dy(opposite(d)) == -dir_dy(d));
}

/// How many of the first `k` compass directions from cell `i` stay on the grid.
pub open spec fn neighbour_count_upto(i: int, w: int, h: int, k: int) -> int
    decreases k,
{
    if k <= 0 {
        0
    } else {
        neighbour_count_upto(i, w, h, k - 1) + if neighbour_at(i, w, h, k - 1) is Some {
            1int
        } else {
            0
        }
    }
}

/// The number of neighbours of cell `i`.
pub open spec fn neighbour_count(i: int, w: int, h: int) -> int {
    neighbour_count_upto(i, w, h, 8)
}

/// The top-left corner has exactly three neighbours: east, south-east and south.
pub proof fn lemma_first_corner_neighbours(w: int, h: int)
    requires
        valid_dims(w, h),
        2 <= w,
        2 <= h,
    ensures
        neighbour_list(0, w, h) == seq![
            None,
            None,
            Some(1usize),
            Some((w + 1) as usize),
            Some(w as usize),
            None,
            None,
            None,
        ],
        neighbour_count(0, w, h) == 3,
{
    assert(0 < 1 <= w + 1 < w * h) by (nonlinear_arith)
        requires
            2 <= w,
            2 <= h,
    ;
    lemma_fundamental_div_mod_converse(0, w, 0, 0);
    assert(1 * w + 1 == w + 1 && 1 * w + 0 == w && 0 * w + 1 == 1);
    assert(neighbour_list(0, w, h) =~= seq![
        None,
        None,
        Some(1usize),
        Some((w + 1) as usize),
        Some(w as usize),
        None,
        None,
        None,
    ]);
    reveal_with_fuel(neighbour_count_upto, 9);
}

/// A corner cell has exactly three neighbours.
pub proof fn lemma_corner_neighbour_count(i: int, w: int, h: int)
    requires
        valid_dims(w, h),
        2 <= w,
        2 <= h,
        0 <= i < w * h,
        i % w == 0 || i % w == w - 1,
        i / w == 0 || i / w == h - 1,
    ensures
        neighbour_count(i, w, h) == 3,
{
    lemma_coords_on_grid(i, w, h);
    reveal_with_fuel(neighbour_count_upto, 9);
}

/// A cell on exactly one side of the grid has exactly five neighbours.
pub proof fn lemma_edge_neighbour_count(i: int, w: int, h: int)
    requires
        valid_dims(w, h),
        2 <= w,
        2 <= h,
        0 <= i < w * h,
        i % w == 0 || i % w == w - 1 || i / w == 0 || i / w == h - 1,
        !((i % w == 0 || i % w == w - 1) && (i / w == 0 || i / w == h - 1)),
    ensures
        neighbour_count(i, w, h) == 5,
{
    lemma_coords_on_grid(i, w, h);
    reveal_with_fuel(neighbour_count_upto, 9);
}

/// A cell on no side of the grid has all eight neighbours.
pub proof fn lemma_interior_neighbour_count(i: int, w: int, h: int)
    requires
        valid_dims(w, h),
        0 <= i < w * h,
        0 < i % w < w - 1,
        0 < i / w < h - 1,
    ensures
        neighbour_count(i, w, h) == 8,
{
    lemma_coords_on_grid(i, w, h);
    reveal_with_fuel(neighbour_count_upto, 9);
}

} // verus!
