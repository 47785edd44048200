//! Cells and the world that holds them.
use vstd::prelude::*;
use crate::geometry::{
    dir_dx, dir_dy, lemma_coords_on_grid, lemma_neighbour_in_grid, lemma_neighbour_list_in_grid, neighbour_at,
    neighbour_list, valid_dims,
};
use crate::rules::{count_alive, step_spec, toggled};

verus! {

/// The state of one cell.
#[derive(Clone, Copy, PartialEq, Eq, Structural)]
pub enum CellState {
    Dead,
    Alive,
}

/// One position of the grid: its row-major index, its state and its neighbours.
#[derive(Clone, Copy)]
pub struct Cell {
    /// Index of the cell within its world
    idx: usize,
    /// State of the cell, Alive or Dead
    state: CellState,
    /// All indices of valid neighbours cells: [N, NE, E, SE, S, SW, W, NW]
    neighbours_idx: [Option<usize>; 8],
}

/// The alive flags of a sequence of cells.
pub open spec fn states_of(cells: Seq<Cell>) -> Seq<bool> {
    cells.map_values(|c: Cell| c.alive())
}

impl Cell {
    /// The row-major index of the cell.
    pub closed spec fn position(&self) -> int {
        self.idx as int
    }

    /// Whether the cell is alive.
    pub closed spec fn alive(&self) -> bool {
        self.state == CellState::Alive
    }

    /// The neighbour list the cell holds, in compass order.
    pub closed spec fn neighbours_spec(&self) -> Seq<Option<usize>> {
        self.neighbours_idx@
    }

    /// The cell lies on a `w` by `h` grid and holds the neighbour list of its position.
    pub open spec fn wf(&self, w: int, h: int) -> bool {
        &&& valid_dims(w, h)
        &&& 0 <= self.position() < w * h
        &&& self.neighbours_spec() == neighbour_list(self.position(), w, h)
    }

    /// A dead cell at index `idx` of a `width` by `height` grid, with its neighbours
    /// computed once from its position.
    pub fn new(idx: usize, width: usize, height: usize) -> (r: Cell)
        requires
            valid_dims(width as int, height as int),
            idx < width * height,
        ensures
            r.position() == idx,
            !r.alive(),
            r.wf(width as int, height as int),
    {
        let ghost (i, w, h) = (idx as int, width as int, height as int);
        proof {
            lemma_coords_on_grid(i, w, h);
            assert forall|d: int| 0 <= d < 8 && #[trigger] neighbour_at(i, w, h, d) is Some implies
                (neighbour_at(i, w, h, d)->0 as int) == i + dir_dy(d) * w + dir_dx(d) by {
                lemma_neighbour_in_grid(i, w, h, d);
            }
            assert(neighbour_at(i, w, h, 0) is Some ==> neighbour_at(i, w, h, 0)->0 as int == i - w);
            assert(neighbour_at(i, w, h, 1) is Some ==> neighbour_at(i, w, h, 1)->0 as int == i - w + 1);
            assert(neighbour_at(i, w, h, 3) is Some ==> neighbour_at(i, w, h, 3)->0 as int == i + w + 1);
            assert(neighbour_at(i, w, h, 4) is Some ==> neighbour_at(i, w, h, 4)->0 as int == i + w);
            assert(neighbour_at(i, w, h, 5) is Some ==> neighbour_at(i, w, h, 5)->0 as int == i + w - 1);
            assert(neighbour_at(i, w, h, 7) is Some ==> neighbour_at(i, w, h, 7)->0 as int == i - w - 1);
        }
        // 2D cell coords
        let x = idx % width;
        let y = idx / width;

        let l_side = x == 0;  // is cell on left side ?
        let r_side = x == width - 1;  // is cell on right side ?
        let t_side = y == 0;  // is cell on top side ?
        let b_side = y == height - 1;  // is cell on bottom side ?

        let n = if !t_side { Some(idx - width) } else { None };
        let ne = if !t_side && !r_side { Some(idx - width + 1) } else { None };
        let e = if !r_side { Some(idx + 1) } else { None };
        let se = if !b_side && !r_side { Some(idx + width + 1) } else { None };
        let s = if !b_side { Some(idx + width) } else { None };
        let sw = if !l_side && !b_side { Some(idx + width - 1) } else { None };
        let west = if !l_side { Some(idx - 1) } else { None };
        let nw = if !t_side && !l_side { Some(idx - width - 1) } else { None };
        let neighbours_idx = [n, ne, e, se, s, sw, west, nw];
        let r = Cell { idx, state: CellState::Dead, neighbours_idx };
        assert(r.neighbours_spec() =~= neighbour_list(i, w, h));
        r
    }

    /// The row-major index of the cell.
    pub fn index(&self) -> (r: usize)
        ensures
            r == self.position(),
    {
        self.idx
    }

    /// The neighbour indices in compass order N, NE, E, SE, S, SW, W, NW, `None` off the grid.
    pub fn neighbours(&self) -> (r: [Option<usize>; 8])
        ensures
            r@ == self.neighbours_spec(),
    {
        self.neighbours_idx
    }

    /// Flips the state of the cell; its position and neighbours stay.
    pub fn toggle(&mut self)
        ensures
            final(self).alive() == !old(self).alive(),
            final(self).position() == old(self).position(),
            final(self).neighbours_spec() == old(self).neighbours_spec(),
    {
        self.state = match self.state {
            CellState::Dead => CellState::Alive,
            CellState::Alive => CellState::Dead,
        }
    }

    /// Whether the cell is alive.
    pub fn is_alive(&self) -> (r: bool)
        ensures
            r == self.alive(),
    {
        self.state == CellState::Alive
    }

    /// The number of this cell's neighbours that are alive in `world_state`.
    pub fn get_num_neighbours_alive(&self, world_state: &Vec<Cell>) -> (r: usize)
        requires
            forall|d: int|
                0 <= d < 8 && (#[trigger] self.neighbours_spec()[d]) is Some ==> (
                self.neighbours_spec()[d]->0) < world_state@.len(),
        ensures
            r == count_alive(self.neighbours_spec(), states_of(world_state@), 8),
    {
        let ghost g = states_of(world_state@);
        let mut alive_count: usize = 0;
        let mut d: usize = 0;
        while d < 8
            invariant
                d <= 8,
                g == states_of(world_state@),
                alive_count <= d,
                alive_count == count_alive(self.neighbours_spec(), g, d as int),
                forall|e: int|
                    0 <= e < 8 && (#[trigger] self.neighbours_spec()[e]) is Some ==> (
                    self.neighbours_spec()[e]->0) < world_state@.len(),
            decreases 8 - d,
        {
            if let Some(idx) = self.neighbours_idx[d] {
                assert(self.neighbours_spec()[d as int] == Some(idx));
                assert(g[idx as int] == world_state@[idx as int].alive());
                if world_state[idx].is_alive() {
                    alive_count += 1;
                }
            }
            assert(count_alive(self.neighbours_spec(), g, d + 1) == count_alive(
                self.neighbours_spec(),
                g,
                d as int,
            ) + match self.neighbours_spec()[d as int] {
                Some(j) => if j < g.len() && g[j as int] {
                    1int
                } else {
                    0
                },
                None => 0,
            });
            d += 1;
        }
        alive_count
    }
}

/// A fixed-size grid of cells, advanced one generation at a time.
pub struct World {
    cells: Vec<Cell>,
    width: usize,
    height: usize,
}

impl View for World {
    type V = Seq<bool>;

    /// The alive flags of the cells, in row-major order.
    closed spec fn view(&self) -> Seq<bool> {
        states_of(self.cells@)
    }
}

impl World {
    /// The number of columns.
    pub closed spec fn cols(&self) -> int {
        self.width as int
    }

    /// The number of rows.
    pub closed spec fn rows(&self) -> int {
        self.height as int
    }

    /// Each cell stands at its own index and holds the neighbours of that index.
    pub closed spec fn cells_wf(&self) -> bool {
        &&& self.cells@.len() == self.width * self.height
        &&& forall|i: int|
            0 <= i < self.cells@.len() ==> (#[trigger] self.cells@[i]).position() == i
                && self.cells@[i].wf(self.width as int, self.height as int)
    }

    /// The world is well formed.
    pub open spec fn wf(&self) -> bool {
        &&& valid_dims(self.cols(), self.rows())
        &&& self@.len() == self.cols() * self.rows()
        &&& self.cells_wf()
    }

    /// A `width` by `height` world of dead cells.
    pub fn init(width: usize, height: usize) -> (r: World)
        requires
            valid_dims(width as int, height as int),
        ensures
            r.wf(),
            r.cols() == width,
            r.rows() == height,
            r@ == Seq::new((width * height) as nat, |i: int| false),
    {
        let total = width * height;
        let mut cells: Vec<Cell> = Vec::with_capacity(total);
        let mut i: usize = 0;
        while i < total
            invariant
                total == width * height,
                valid_dims(width as int, height as int),
                i <= total,
                cells@.len() == i,
                forall|k: int|
                    0 <= k < i ==> (#[trigger] cells@[k]).position() == k && cells@[k].wf(
                        width as int,
                        height as int,
                    ) && !cells@[k].alive(),
            decreases total - i,
        {
            cells.push(Cell::new(i, width, height));
            i += 1;
        }
        let r = World { cells, width, height };
        assert(r@ =~= Seq::new((width * height) as nat, |i: int| false));
        r
    }

    /// The number of columns.
    pub fn width(&self) -> (r: usize)
        ensures
            r == self.cols(),
    {
        self.width
    }

    /// The number of rows.
    pub fn height(&self) -> (r: usize)
        ensures
            r == self.rows(),
    {
        self.height
    }

    /// Whether the cell at `idx` is alive.
    pub fn is_cell_alive(&self, idx: usize) -> (r: bool)
        requires
            self.wf(),
            idx < self@.len(),
        ensures
            r == self@[idx as int],
    {
        self.cells[idx].state == CellState::Alive
    }

    /// Makes the cell at `cell_index` alive or dead.
    pub fn set_cell(&mut self, cell_index: usize, set_alive: bool)
        requires
            old(self).wf(),
            cell_index < old(self)@.len(),
        ensures
            final(self).wf(),
            final(self).cols() == old(self).cols(),
            final(self).rows() == old(self).rows(),
            final(self)@ == old(self)@.update(cell_index as int, set_alive),
    {
        let new_cell_state = if set_alive {
            CellState::Alive
        } else {
            CellState::Dead
        };
        let mut c = self.cells[cell_index];
        c.state = new_cell_state;
        self.cells[cell_index] = c;
        assert(self@ =~= old(self)@.update(cell_index as int, set_alive));
    }

    /// Flips the state of the cell at `cell_index`.
    pub fn toggle_cell(&mut self, cell_index: usize)
        requires
            old(self).wf(),
            cell_index < old(self)@.len(),
        ensures
            final(self).wf(),
            final(self).cols() == old(self).cols(),
            final(self).rows() == old(self).rows(),
            final(self)@ == toggled(old(self)@, cell_index as int),
    {
        let mut c = self.cells[cell_index];
        c.toggle();
        self.cells[cell_index] = c;
        assert(self@ =~= toggled(old(self)@, cell_index as int));
    }

    /// Advances the world by one generation: every cell's next state is computed from the
    /// current generation alone, and the new generation replaces it as a whole.
    pub fn update(&mut self)
        requires
            old(self).wf(),
        ensures
            final(self).wf(),
            final(self).cols() == old(self).cols(),
            final(self).rows() == old(self).rows(),
            final(self)@ == step_spec(old(self)@, old(self).cols(), old(self).rows()),
    {
        let ghost g = self@;
        let ghost (w, h) = (self.width as int, self.height as int);
        let n = self.cells.len();
        let mut next: Vec<Cell> = Vec::with_capacity(n);
        let mut i: usize = 0;
        while i < n
            invariant
                self.wf(),
                g == self@,
                w == self.cols(),
                h == self.rows(),
                n == self.cells@.len(),
                i <= n,
                next@.len() == i,
                forall|k: int|
                    0 <= k < i ==> (#[trigger] next@[k]).position() == k && next@[k].wf(w, h)
                        && next@[k].alive() == step_spec(g, w, h)[k],
            decreases n - i,
        {
            let c = self.cells[i];
            proof {
                lemma_neighbour_list_in_grid(i as int, w, h);
            }
            let alive_neibs = c.get_num_neighbours_alive(&self.cells);
            let state = if !c.is_alive() && alive_neibs == 3 {
                CellState::Alive  // if dead and 3 alive neibs -> alive
            } else if c.is_alive() && alive_neibs >= 2 && alive_neibs <= 3 {
                CellState::Alive  // if alive and 2 or 3 alive neibs -> alive
            } else {
                CellState::Dead  // Otherwise -> dead
            };
            next.push(Cell { idx: c.idx, state, neighbours_idx: c.neighbours_idx });
            i += 1;
        }
        self.cells = next;
        assert(self@ =~= step_spec(g, w, h));
    }
}

} // verus!
