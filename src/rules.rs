//! The rule of Conway's Game of Life over a grid of alive flags, and the laws it obeys.
use vstd::prelude::*;
use crate::geometry::{
    dir_dx, dir_dy, lemma_coords_on_grid, lemma_neighbour_in_grid, neighbour_at, neighbour_list,
    on_grid, valid_dims,
};

verus! {

/// How many of the first `k` entries of the neighbour list `nb` name an alive cell of `g`.
pub open spec fn count_alive(nb: Seq<Option<usize>>, g: Seq<bool>, k: int) -> int
    decreases k,
{
    if k <= 0 {
        0
    } else {
        count_alive(nb, g, k - 1) + match nb[k - 1] {
            Some(j) => if j < g.len() && g[j as int] {
                1int
            } else {
                0
            },
            None => 0,
        }
    }
}

/// The number of alive neighbours of cell `i` in the generation `g` of a `w` by `h` grid.
pub open spec fn live_neighbours(g: Seq<bool>, i: int, w: int, h: int) -> int {
    count_alive(neighbour_list(i, w, h), g, 8)
}

/// Whether a cell is alive in the next generation: a dead cell with exactly three alive
/// neighbours is born, an alive cell with two or three survives, every other cell is dead.
pub open spec fn next_alive(alive: bool, n: int) -> bool {
    if alive {
        n == 2 || n == 3
    } else {
        n == 3
    }
}

/// The generation that follows `g`, every cell computed from `g` alone.
pub open spec fn step_spec(g: Seq<bool>, w: int, h: int) -> Seq<bool> {
    Seq::new(g.len(), |i: int| next_alive(g[i], live_neighbours(g, i, w, h)))
}

/// The generation `g` with the state of cell `i` flipped.
pub open spec fn toggled(g: Seq<bool>, i: int) -> Seq<bool> {
    g.update(i, !g[i])
}

/// Setting a cell and reading it back gives the value set.
pub proof fn lemma_set_then_read(g: Seq<bool>, i: int, alive: bool)
    requires
        0 <= i < g.len(),
    ensures
        g.update(i, alive)[i] == alive,
        g.update(i, true)[i],
{
}

/// Toggling a cell twice restores the generation.
pub proof fn lemma_toggle_twice(g: Seq<bool>, i: int)
    requires
        0 <= i < g.len(),
    ensures
        toggled(toggled(g, i), i) == g,
{
    assert(toggled(toggled(g, i), i) =~= g);
}

/// A neighbour list that names no alive cell counts no alive neighbour.
pub proof fn lemma_count_alive_none(nb: Seq<Option<usize>>, g: Seq<bool>, k: int)
    requires
        forall|d: int|
            0 <= d < k && (#[trigger] nb[d]) is Some && nb[d]->0 < g.len() ==> !g[nb[d]->0 as int],
    ensures
        count_alive(nb, g, k) == 0,
    decreases k,
{
    if k > 0 {
        lemma_count_alive_none(nb, g, k - 1);
    }
}

/// A generation with no alive cell is a fixed point of the rule.
pub proof fn lemma_all_dead_is_fixed(g: Seq<bool>, w: int, h: int)
    requires
        forall|i: int| 0 <= i < g.len() ==> !#[trigger] g[i],
    ensures
        step_spec(g, w, h) == g,
{
    assert forall|i: int| 0 <= i < g.len() implies step_spec(g, w, h)[i] == g[i] by {
        lemma_count_alive_none(neighbour_list(i, w, h), g, 8);
    }
    assert(step_spec(g, w, h) =~= g);
}

/// An alive cell with no alive neighbour dies of underpopulation.
pub proof fn lemma_isolated_cell_dies(g: Seq<bool>, w: int, h: int, i: int)
    requires
        0 <= i < g.len(),
        g[i],
        forall|d: int|
            0 <= d < 8 && (#[trigger] neighbour_at(i, w, h, d)) is Some && neighbour_at(
                i,
                w,
                h,
                d,
            )->0 < g.len() ==> !g[neighbour_at(i, w, h, d)->0 as int],
    ensures
        !step_spec(g, w, h)[i],
{
    assert forall|d: int|
        0 <= d < 8 && (#[trigger] neighbour_list(i, w, h)[d]) is Some && neighbour_list(i, w, h)[d]->0
            < g.len() implies !g[neighbour_list(i, w, h)[d]->0 as int] by {
        assert(neighbour_list(i, w, h)[d] == neighbour_at(i, w, h, d));
    }
    lemma_count_alive_none(neighbour_list(i, w, h), g, 8);
}

/// The generation of a `w` by `h` grid in which the cell at column `x`, row `y` is alive
/// exactly when `p(x, y)` holds.
pub open spec fn pattern(w: int, h: int, p: spec_fn(int, int) -> bool) -> Seq<bool> {
    Seq::new((w * h) as nat, |k: int| p(k % w, k / w))
}

/// One if column `x`, row `y` is on the grid and alive in the pattern `p`, else zero.
pub open spec fn alive_at(w: int, h: int, p: spec_fn(int, int) -> bool, x: int, y: int) -> int {
    if on_grid(x, y, w, h) && p(x, y) {
        1
    } else {
        0
    }
}

/// The alive neighbours of a cell in a pattern, counted position by position.
proof fn lemma_pattern_live_neighbours(w: int, h: int, p: spec_fn(int, int) -> bool, k: int)
    requires
        valid_dims(w, h),
        0 <= k < w * h,
    ensures
        ({
            let (x, y) = (k % w, k / w);
            live_neighbours(pattern(w, h, p), k, w, h) == alive_at(w, h, p, x, y - 1) + alive_at(
                w,
                h,
                p,
                x + 1,
                y - 1,
            ) + alive_at(w, h, p, x + 1, y) + alive_at(w, h, p, x + 1, y + 1) + alive_at(
                w,
                h,
                p,
                x,
                y + 1,
            ) + alive_at(w, h, p, x - 1, y + 1) + alive_at(w, h, p, x - 1, y) + alive_at(
                w,
                h,
                p,
                x - 1,
                y - 1,
            )
        }),
{
    lemma_pattern_term(w, h, p, k, 0);
    lemma_pattern_term(w, h, p, k, 1);
    lemma_pattern_term(w, h, p, k, 2);
    lemma_pattern_term(w, h, p, k, 3);
    lemma_pattern_term(w, h, p, k, 4);
    lemma_pattern_term(w, h, p, k, 5);
    lemma_pattern_term(w, h, p, k, 6);
    lemma_pattern_term(w, h, p, k, 7);
}

/// The contribution of direction `d` to the alive-neighbour count of a cell in a pattern.
proof fn lemma_pattern_term(w: int, h: int, p: spec_fn(int, int) -> bool, k: int, d: int)
    requires
        valid_dims(w, h),
        0 <= k < w * h,
        0 <= d < 8,
    ensures
        count_alive(neighbour_list(k, w, h), pattern(w, h, p), d + 1) == count_alive(
            neighbour_list(k, w, h),
            pattern(w, h, p),
            d,
        ) + alive_at(w, h, p, k % w + dir_dx(d), k / w + dir_dy(d)),
{
    lemma_coords_on_grid(k, w, h);
    if neighbour_at(k, w, h, d) is Some {
        lemma_neighbour_in_grid(k, w, h, d);
    }
    assert(neighbour_list(k, w, h)[d] == neighbour_at(k, w, h, d));
}

/// A two by two block of alive cells with its top-left corner at column `bx`, row `by`.
pub open spec fn block(w: int, h: int, bx: int, by: int) -> Seq<bool> {
    pattern(w, h, |x: int, y: int| bx <= x <= bx + 1 && by <= y <= by + 1)
}

/// A two by two block is a still life: one step leaves its four cells alive and every
/// other cell dead, wherever on the grid it fits, in the interior in particular.
pub proof fn lemma_block_is_still(w: int, h: int, bx: int, by: int)
    requires
        valid_dims(w, h),
        0 <= bx,
        bx + 1 < w,
        0 <= by,
        by + 1 < h,
    ensures
        step_spec(block(w, h, bx, by), w, h) == block(w, h, bx, by),
{
    let p = |x: int, y: int| bx <= x <= bx + 1 && by <= y <= by + 1;
    let g = block(w, h, bx, by);
    assert forall|k: int| 0 <= k < g.len() implies step_spec(g, w, h)[k] == g[k] by {
        lemma_coords_on_grid(k, w, h);
        lemma_pattern_live_neighbours(w, h, p, k);
    }
    assert(step_spec(g, w, h) =~= g);
}


/// Three alive cells in a row: row 1, columns 0 to 2.
pub open spec fn blinker_row(w: int, h: int) -> Seq<bool> {
    pattern(w, h, |x: int, y: int| y == 1 && 0 <= x <= 2)
}

/// Three alive cells in a column: column 1, rows 0 to 2.
pub open spec fn blinker_column(w: int, h: int) -> Seq<bool> {
    pattern(w, h, |x: int, y: int| x == 1 && 0 <= y <= 2)
}

/// The blinker oscillates with period two: the row turns into the column and the
/// column back into the row.
pub proof fn lemma_blinker_oscillates(w: int, h: int)
    requires
        valid_dims(w, h),
        3 <= w,
        3 <= h,
    ensures
        step_spec(blinker_row(w, h), w, h) == blinker_column(w, h),
        step_spec(blinker_column(w, h), w, h) == blinker_row(w, h),
        step_spec(step_spec(blinker_row(w, h), w, h), w, h) == blinker_row(w, h),
{
    let pr = |x: int, y: int| y == 1 && 0 <= x <= 2;
    let pc = |x: int, y: int| x == 1 && 0 <= y <= 2;
    let row = blinker_row(w, h);
    let col = blinker_column(w, h);
    assert forall|k: int| 0 <= k < row.len() implies step_spec(row, w, h)[k] == col[k] by {
        lemma_coords_on_grid(k, w, h);
        lemma_pattern_live_neighbours(w, h, pr, k);
    }
    assert(step_spec(row, w, h) =~= col);
    assert forall|k: int| 0 <= k < col.len() implies step_spec(col, w, h)[k] == row[k] by {
        lemma_coords_on_grid(k, w, h);
        lemma_pattern_live_neighbours(w, h, pc, k);
    }
    assert(step_spec(col, w, h) =~= row);
}

} // verus!
