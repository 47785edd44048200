use game_of_life::render::{cell_at_pixel, render_world, ALIVE_COLOR, DEAD_COLOR};
use game_of_life::{Cell, CellState, World};

fn world_with(width: usize, height: usize, alive: &[(usize, usize)]) -> World {
    let mut w = World::init(width, height);
    for &(row, col) in alive {
        w.set_cell(row * width + col, true);
    }
    w
}

fn alive_cells(w: &World) -> Vec<(usize, usize)> {
    let mut out = Vec::new();
    for i in 0..w.width() * w.height() {
        if w.is_cell_alive(i) {
            out.push((i / w.width(), i % w.width()));
        }
    }
    out
}

fn count_present(c: &Cell) -> usize {
    c.neighbours().iter().filter(|n| n.is_some()).count()
}

#[test]
fn neighbours_of_interior_cell_in_compass_order() {
    // 5 columns, 4 rows; cell at column 2, row 1
    let c = Cell::new(7, 5, 4);
    assert_eq!(c.index(), 7);
    assert!(!c.is_alive());
    assert_eq!(
        c.neighbours(),
        [Some(2), Some(3), Some(8), Some(13), Some(12), Some(11), Some(6), Some(1)]
    );
}

#[test]
fn neighbours_on_non_square_grid_follow_width() {
    // 3 columns, 6 rows: the last cell of row 0 is on the right side
    let c = Cell::new(2, 3, 6);
    assert_eq!(c.neighbours(), [None, None, None, None, Some(5), Some(4), Some(1), None]);
    // bottom-right corner
    let c = Cell::new(17, 3, 6);
    assert_eq!(c.neighbours(), [Some(14), None, None, None, None, None, Some(16), Some(13)]);
}

#[test]
fn neighbours_stay_on_grid_and_adjacent() {
    for &(w, h) in &[(1usize, 1usize), (1, 4), (4, 1), (2, 2), (3, 5), (7, 4)] {
        for i in 0..w * h {
            let c = Cell::new(i, w, h);
            let (x, y) = ((i % w) as i64, (i / w) as i64);
            for (d, n) in c.neighbours().iter().enumerate() {
                let dx = [0i64, 1, 1, 1, 0, -1, -1, -1][d];
                let dy = [-1i64, -1, 0, 1, 1, 1, 0, -1][d];
                let (nx, ny) = (x + dx, y + dy);
                let inside = nx >= 0 && ny >= 0 && nx < w as i64 && ny < h as i64;
                if inside {
                    assert_eq!(*n, Some((ny * w as i64 + nx) as usize));
                } else {
                    assert_eq!(*n, None);
                }
            }
        }
    }
}

#[test]
fn neighbourhood_is_symmetric() {
    let (w, h) = (6usize, 4usize);
    for i in 0..w * h {
        let c = Cell::new(i, w, h);
        for (d, n) in c.neighbours().iter().enumerate() {
            if let Some(j) = n {
                let back = Cell::new(*j, w, h);
                assert_eq!(back.neighbours()[(d + 4) % 8], Some(i));
            }
        }
    }
}

#[test]
fn corner_edge_and_interior_neighbour_counts() {
    let corner = Cell::new(0, 4, 3);
    assert_eq!(corner.neighbours(), [None, None, Some(1), Some(5), Some(4), None, None, None]);
    assert_eq!(count_present(&corner), 3);
    assert_eq!(count_present(&Cell::new(3, 4, 3)), 3);
    assert_eq!(count_present(&Cell::new(11, 4, 3)), 3);
    assert_eq!(count_present(&Cell::new(1, 4, 3)), 5);
    assert_eq!(count_present(&Cell::new(4, 4, 3)), 5);
    assert_eq!(count_present(&Cell::new(7, 4, 3)), 5);
    assert_eq!(count_present(&Cell::new(5, 4, 3)), 8);
    assert_eq!(count_present(&Cell::new(6, 4, 3)), 8);
}

#[test]
fn fresh_world_is_all_dead() {
    let w = World::init(7, 3);
    assert_eq!(w.width(), 7);
    assert_eq!(w.height(), 3);
    for i in 0..21 {
        assert!(!w.is_cell_alive(i));
    }
}

#[test]
fn empty_world_stays_empty() {
    let mut w = World::init(5, 5);
    w.update();
    assert!(alive_cells(&w).is_empty());
    w.update();
    assert!(alive_cells(&w).is_empty());
}

#[test]
fn isolated_cell_dies() {
    let mut w = world_with(5, 5, &[(2, 2)]);
    w.update();
    assert!(alive_cells(&w).is_empty());
}

#[test]
fn block_is_still_life() {
    let block = [(1, 1), (1, 2), (2, 1), (2, 2)];
    let mut w = world_with(4, 4, &block);
    w.update();
    assert_eq!(alive_cells(&w), block.to_vec());
    w.update();
    assert_eq!(alive_cells(&w), block.to_vec());
}

#[test]
fn block_in_corner_is_still_life() {
    let block = [(0, 0), (0, 1), (1, 0), (1, 1)];
    let mut w = world_with(3, 2, &block);
    w.update();
    assert_eq!(alive_cells(&w), block.to_vec());
}

#[test]
fn blinker_has_period_two() {
    let row = vec![(1, 0), (1, 1), (1, 2)];
    let col = vec![(0, 1), (1, 1), (2, 1)];
    let mut w = world_with(3, 3, &row);
    w.update();
    assert_eq!(alive_cells(&w), col);
    w.update();
    assert_eq!(alive_cells(&w), row);
}

#[test]
fn blinker_away_from_edges() {
    let mut w = world_with(7, 6, &[(2, 2), (2, 3), (2, 4)]);
    w.update();
    assert_eq!(alive_cells(&w), vec![(1, 3), (2, 3), (3, 3)]);
    w.update();
    assert_eq!(alive_cells(&w), vec![(2, 2), (2, 3), (2, 4)]);
}

#[test]
fn birth_needs_exactly_three() {
    // an L of three cells gives birth to the fourth corner of the square
    let mut w = world_with(4, 4, &[(0, 0), (0, 1), (1, 0)]);
    w.update();
    assert_eq!(alive_cells(&w), vec![(0, 0), (0, 1), (1, 0), (1, 1)]);
}

#[test]
fn overcrowded_cell_dies() {
    // the centre of a plus has four alive neighbours
    let mut w = world_with(5, 5, &[(1, 2), (2, 1), (2, 2), (2, 3), (3, 2)]);
    w.update();
    assert!(!w.is_cell_alive(2 * 5 + 2));
}

#[test]
fn set_then_read_and_toggle_twice() {
    let mut w = World::init(4, 3);
    w.set_cell(5, true);
    assert!(w.is_cell_alive(5));
    w.set_cell(5, false);
    assert!(!w.is_cell_alive(5));
    w.toggle_cell(6);
    assert!(w.is_cell_alive(6));
    w.toggle_cell(6);
    assert!(!w.is_cell_alive(6));
    w.set_cell(2, true);
    w.toggle_cell(2);
    w.toggle_cell(2);
    assert!(w.is_cell_alive(2));
    assert_eq!(alive_cells(&w), vec![(0, 2)]);
}

#[test]
fn cell_toggle_flips_state_only() {
    let mut c = Cell::new(4, 3, 3);
    let before = c.neighbours();
    c.toggle();
    assert!(c.is_alive());
    assert_eq!(c.index(), 4);
    assert_eq!(c.neighbours(), before);
    c.toggle();
    assert!(!c.is_alive());
}

#[test]
fn counts_alive_neighbours() {
    let (w, h) = (3usize, 3usize);
    let mut cells: Vec<Cell> = (0..w * h).map(|i| Cell::new(i, w, h)).collect();
    for &i in &[0usize, 1, 5, 8] {
        cells[i].toggle();
    }
    assert_eq!(cells[4].get_num_neighbours_alive(&cells), 4);
    assert_eq!(cells[2].get_num_neighbours_alive(&cells), 2);
    assert_eq!(cells[6].get_num_neighbours_alive(&cells), 0);
    assert_eq!(cells[7].get_num_neighbours_alive(&cells), 2);
}

#[test]
fn cell_state_variants_compare() {
    assert!(CellState::Alive == CellState::Alive);
    assert!(CellState::Alive != CellState::Dead);
}

#[test]
fn render_paints_each_cell_as_a_rectangle() {
    // 3 by 2 cells on a 6 by 6 screen: each cell is 2 pixels wide and 3 high
    let mut w = World::init(3, 2);
    w.set_cell(1, true);
    w.set_cell(3, true);
    let mut buffer = vec![7u32; 36];
    render_world(&mut buffer, &w, 6, 6);
    for py in 0..6 {
        for px in 0..6 {
            let cell = (py / 3) * 3 + px / 2;
            let expected = if cell == 1 || cell == 3 { ALIVE_COLOR } else { DEAD_COLOR };
            assert_eq!(buffer[py * 6 + px], expected, "pixel ({}, {})", px, py);
        }
    }
    assert_eq!(buffer[2], ALIVE_COLOR);
    assert_eq!(buffer[0], DEAD_COLOR);
    assert_eq!(buffer[18], ALIVE_COLOR);
}

#[test]
fn pixel_maps_to_cell_or_off_screen() {
    let w = World::init(100, 100);
    assert_eq!(cell_at_pixel(&w, 0, 0, 800, 800), Some(0));
    assert_eq!(cell_at_pixel(&w, 15, 9, 800, 800), Some(101));
    assert_eq!(cell_at_pixel(&w, 799, 799, 800, 800), Some(9999));
    assert_eq!(cell_at_pixel(&w, 800, 10, 800, 800), None);
    assert_eq!(cell_at_pixel(&w, 10, 800, 800, 800), None);
}
