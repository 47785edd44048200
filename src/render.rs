//! Drawing a world into a pixel buffer, each cell a rectangle of equal size.
use vstd::prelude::*;
use crate::geometry::{lemma_coords_on_grid, valid_dims};
use crate::life::World;

verus! {

/// Colour of an alive cell.
pub const ALIVE_COLOR: u32 = 0x00ffffff;

/// Colour of a dead cell.
pub const DEAD_COLOR: u32 = 0x00000000;

/// A `screen_w` by `screen_h` screen that the cells of a `w` by `h` grid tile exactly.
pub open spec fn tiles(w: int, h: int, screen_w: int, screen_h: int) -> bool {
    &&& valid_dims(w, h)
    &&& valid_dims(screen_w, screen_h)
    &&& screen_w % w == 0
    &&& screen_h % h == 0
}

/// The cell that shows at column `px`, row `py` of the screen.
pub open spec fn cell_of_pixel(w: int, h: int, screen_w: int, screen_h: int, px: int, py: int) -> int {
    (py / (screen_h / h)) * w + px / (screen_w / w)
}

/// The colour of pixel `p` of the screen, pixels in row-major order.
pub open spec fn pixel_colour(g: Seq<bool>, w: int, h: int, screen_w: int, screen_h: int, p: int) -> u32 {
    if g[cell_of_pixel(w, h, screen_w, screen_h, p % screen_w, p / screen_w)] {
        ALIVE_COLOR
    } else {
        DEAD_COLOR
    }
}

/// Every pixel of a tiled screen shows a cell of the grid.
proof fn lemma_pixel_on_grid(w: int, h: int, screen_w: int, screen_h: int, px: int, py: int)
    requires
        tiles(w, h, screen_w, screen_h),
        0 <= px < screen_w,
        0 <= py < screen_h,
    ensures
        0 < screen_w / w,
        0 < screen_h / h,
        0 <= cell_of_pixel(w, h, screen_w, screen_h, px, py) < w * h,
{
    let rw = screen_w / w;
    let rh = screen_h / h;
    vstd::arithmetic::div_mod::lemma_fundamental_div_mod(screen_w, w);
    vstd::arithmetic::div_mod::lemma_fundamental_div_mod(screen_h, h);
    assert(0 <= px / rw < w) by (nonlinear_arith)
        requires
            screen_w == w * rw,
            0 <= px < screen_w,
            0 < w,
    ;
    assert(0 <= py / rh < h) by (nonlinear_arith)
        requires
            screen_h == h * rh,
            0 <= py < screen_h,
            0 < h,
    ;
    assert(0 < rw && 0 < rh) by (nonlinear_arith)
        requires
            screen_w == w * rw,
            screen_h == h * rh,
            0 < screen_w,
            0 < screen_h,
            0 < w,
            0 < h,
    ;
    let cx = px / rw;
    let cy = py / rh;
    assert(0 <= cy * w + cx < w * h) by (nonlinear_arith)
        requires
            0 <= cx < w,
            0 <= cy < h,
    ;
}

/// The cell that shows at column `px`, row `py` of the screen, or `None` off the screen.
pub fn cell_at_pixel(world: &World, px: usize, py: usize, screen_w: usize, screen_h: usize) -> (r:
    Option<usize>)
    requires
        world.wf(),
        tiles(world.cols(), world.rows(), screen_w as int, screen_h as int),
    ensures
        r == if px < screen_w && py < screen_h {
            Some(
                cell_of_pixel(
                    world.cols(),
                    world.rows(),
                    screen_w as int,
                    screen_h as int,
                    px as int,
                    py as int,
                ) as usize,
            )
        } else {
            None
        },
        r matches Some(i) ==> i < world@.len(),
{
    if px >= screen_w || py >= screen_h {
        return None;
    }
    proof {
        lemma_pixel_on_grid(world.cols(), world.rows(), screen_w as int, screen_h as int, px as int, py as int);
    }
    let ratio_w = screen_w / world.width();
    let ratio_h = screen_h / world.height();
    Some((py / ratio_h) * world.width() + px / ratio_w)
}

/// Paints every pixel of the screen with the colour of the cell that shows there.
pub fn render_world(buffer: &mut Vec<u32>, world: &World, screen_w: usize, screen_h: usize)
    requires
        world.wf(),
        tiles(world.cols(), world.rows(), screen_w as int, screen_h as int),
        old(buffer)@.len() == screen_w * screen_h,
    ensures
        final(buffer)@.len() == old(buffer)@.len(),
        forall|p: int|
            0 <= p < final(buffer)@.len() ==> #[trigger] final(buffer)@[p] == pixel_colour(
                world@,
                world.cols(),
                world.rows(),
                screen_w as int,
                screen_h as int,
                p,
            ),
{
    let total = screen_w * screen_h;
    let mut p: usize = 0;
    while p < total
        invariant
            world.wf(),
            tiles(world.cols(), world.rows(), screen_w as int, screen_h as int),
            total == screen_w * screen_h,
            buffer@.len() == total,
            p <= total,
            forall|q: int|
                0 <= q < p ==> #[trigger] buffer@[q] == pixel_colour(
                    world@,
                    world.cols(),
                    world.rows(),
                    screen_w as int,
                    screen_h as int,
                    q,
                ),
        decreases total - p,
    {
        proof {
            lemma_coords_on_grid(p as int, screen_w as int, screen_h as int);
        }
        let x = p % screen_w;
        let y = p / screen_w;
        proof {
            lemma_pixel_on_grid(
                world.cols(),
                world.rows(),
                screen_w as int,
                screen_h as int,
                x as int,
                y as int,
            );
        }
        let cell_idx = cell_at_pixel(world, x, y, screen_w, screen_h);
        let alive = match cell_idx {
            Some(i) => world.is_cell_alive(i),
            None => false,
        };
        buffer[p] = if alive {
            ALIVE_COLOR
        } else {
            DEAD_COLOR
        };
        assert(buffer@[p as int] == pixel_colour(
            world@,
            world.cols(),
            world.rows(),
            screen_w as int,
            screen_h as int,
            p as int,
        ));
        p += 1;
    }
}

} // verus!
