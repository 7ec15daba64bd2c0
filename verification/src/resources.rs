//! The spawn point table, derived from the level's maze grid: every cell
//! marked 2 is a spawn point, centred on a grid of 4-world-unit cells.
use vstd::prelude::*;

use crate::geom::Vec3Fx;

verus! {

/// The spawn point of the cell at column `x` of row `y`, in fixed-point
/// world coordinates: the grid is centred on the origin, each cell is 4
/// world units wide, and spawns sit 2 world units above the ground.
pub open spec fn spec_cell_spot(width: int, height: int, x: int, y: int) -> Vec3Fx {
    Vec3Fx { x: (400 * x - 200 * width) as i32, y: 200, z: (400 * y - 200 * height) as i32 }
}

/// The spawn points of the first `n` cells of row `y`, left to right.
pub open spec fn spec_row_spots(row: Seq<u8>, width: int, height: int, y: int, n: int) -> Seq<
    Vec3Fx,
>
    decreases n,
{
    if n <= 0 {
        Seq::empty()
    } else {
        spec_row_spots(row, width, height, y, n - 1) + if row[n - 1] == 2u8 {
            seq![spec_cell_spot(width, height, n - 1, y)]
        } else {
            Seq::empty()
        }
    }
}

/// The view of a grid of cells.
pub open spec fn grid_view(g: Seq<Vec<u8>>) -> Seq<Seq<u8>> {
    g.map_values(|row: Vec<u8>| row@)
}

/// The spawn points of the first `n` rows of the grid, top to bottom;
/// the centring width is taken from the first row.
pub open spec fn spec_grid_spots(grid: Seq<Seq<u8>>, width: int, n: int) -> Seq<Vec3Fx>
    decreases n,
{
    if n <= 0 {
        Seq::empty()
    } else {
        spec_grid_spots(grid, width, n - 1) + spec_row_spots(
            grid[n - 1],
            width,
            grid.len() as int,
            n - 1,
            grid[n - 1].len() as int,
        )
    }
}

/// Scans the maze grid and lists the spawn point of every cell marked 2,
/// row by row. The dimension bounds keep every coordinate inside the
/// world bound.
pub fn spawn_list_maker(grid: &Vec<Vec<u8>>) -> (r: Vec<Vec3Fx>)
    requires
        1 <= grid@.len() <= 1000,
        forall|i: int| 0 <= i < grid@.len() ==> (#[trigger] grid@[i])@.len() <= 1000,
    ensures
        r@ == spec_grid_spots(grid_view(grid@), grid@[0]@.len() as int, grid@.len() as int),
        forall|i: int| 0 <= i < r@.len() ==> (#[trigger] r@[i]).wf(),
{
    let height = grid.len();
    let width = grid[0].len();
    let mut out: Vec<Vec3Fx> = Vec::new();
    let mut y: usize = 0;
    while y < height
        invariant
            height == grid@.len(),
            1 <= height <= 1000,
            width == grid@[0]@.len(),
            width <= 1000,
            forall|i: int| 0 <= i < grid@.len() ==> (#[trigger] grid@[i])@.len() <= 1000,
            y <= height,
            out@ == spec_grid_spots(grid_view(grid@), width as int, y as int),
            forall|i: int| 0 <= i < out@.len() ==> (#[trigger] out@[i]).wf(),
        decreases height - y,
    {
        let row_len = grid[y].len();
        proof {
            assert(grid@[y as int]@.len() <= 1000);
        }
        let mut x: usize = 0;
        while x < row_len
            invariant
                height == grid@.len(),
                1 <= height <= 1000,
                width == grid@[0]@.len(),
                width <= 1000,
                y < height,
                row_len == grid@[y as int]@.len(),
                row_len <= 1000,
                x <= row_len,
                out@ == spec_grid_spots(grid_view(grid@), width as int, y as int)
                    + spec_row_spots(
                    grid_view(grid@)[y as int],
                    width as int,
                    height as int,
                    y as int,
                    x as int,
                ),
                forall|i: int| 0 <= i < out@.len() ==> (#[trigger] out@[i]).wf(),
            decreases row_len - x,
        {
            let cell = grid[y][x];
            if cell == 2 {
                let sx: i32 = 400 * (x as i32) - 200 * (width as i32);
                let sz: i32 = 400 * (y as i32) - 200 * (height as i32);
                let spot = Vec3Fx { x: sx, y: 200, z: sz };
                proof {
                    assert(spot == spec_cell_spot(width as int, height as int, x as int, y as int));
                    assert(spot.wf());
                }
                out.push(spot);
            }
            proof {
                assert(grid_view(grid@)[y as int] == grid@[y as int]@);
            }
            x = x + 1;
        }
        y = y + 1;
    }
    out
}

/// The maze grid of the level: 0 is open floor, 1 a wall, 2 a spawn
/// point.
pub fn maze_grid() -> (r: Vec<Vec<u8>>)
    ensures
        1 <= r@.len() <= 1000,
        forall|i: int| 0 <= i < r@.len() ==> (#[trigger] r@[i])@.len() <= 1000,
{
    let mut g: Vec<Vec<u8>> = Vec::new();
    let r0: Vec<u8> = vec![
        1, 1, 1, 1, 1, 1, 1, 1, 1, 1, 1, 1, 1, 1, 1, 1, 1, 1, 1, 1, 1, 1, 1, 1, 1, 1, 1, 1, 1, 1,
        1,
    ];
    g.push(r0);
    let r1: Vec<u8> = vec![
        1, 2, 0, 0, 0, 2, 1, 2, 0, 0, 0, 2, 1, 2, 0, 0, 0, 0, 0, 0, 0, 0, 0, 0, 0, 0, 2, 1, 0, 2,
        1,
    ];
    g.push(r1);
    let r2: Vec<u8> = vec![
        1, 0, 0, 0, 0, 0, 1, 0, 0, 0, 0, 0, 1, 0, 0, 0, 0, 0, 0, 0, 0, 0, 0, 0, 0, 0, 0, 1, 0, 0,
        1,
    ];
    g.push(r2);
    let r3: Vec<u8> = vec![
        1, 0, 0, 1, 0, 0, 1, 0, 0, 1, 0, 0, 1, 0, 0, 1, 1, 1, 1, 1, 1, 1, 1, 1, 1, 0, 0, 1, 0, 0,
        1,
    ];
    g.push(r3);
    let r4: Vec<u8> = vec![
        1, 0, 0, 1, 0, 0, 0, 0, 0, 0, 0, 0, 1, 0, 0, 0, 0, 0, 1, 2, 0, 0, 0, 2, 1, 0, 0, 0, 0, 0,
        1,
    ];
    g.push(r4);
    let r5: Vec<u8> = vec![
        1, 0, 0, 1, 0, 0, 0, 0, 0, 0, 0, 0, 1, 2, 0, 0, 0, 0, 1, 0, 0, 0, 0, 0, 1, 0, 0, 0, 0, 0,
        1,
    ];
    g.push(r5);
    let r6: Vec<u8> = vec![
        1, 0, 0, 1, 1, 1, 1, 0, 0, 0, 0, 0, 1, 1, 1, 1, 0, 0, 1, 0, 0, 1, 0, 0, 1, 0, 0, 1, 0, 0,
        1,
    ];
    g.push(r6);
    let r7: Vec<u8> = vec![
        1, 0, 0, 0, 0, 0, 0, 0, 0, 0, 0, 0, 0, 0, 0, 0, 0, 0, 0, 0, 0, 1, 0, 0, 1, 0, 0, 0, 0, 0,
        1,
    ];
    g.push(r7);
    let r8: Vec<u8> = vec![
        1, 2, 0, 0, 0, 0, 0, 0, 0, 0, 0, 0, 0, 0, 0, 0, 0, 0, 0, 0, 0, 1, 0, 0, 1, 0, 0, 0, 0, 0,
        1,
    ];
    g.push(r8);
    let r9: Vec<u8> = vec![
        1, 1, 1, 1, 1, 1, 1, 0, 0, 1, 0, 0, 1, 1, 1, 1, 1, 1, 1, 0, 0, 1, 0, 0, 1, 1, 1, 1, 0, 0,
        1,
    ];
    g.push(r9);
    let r10: Vec<u8> = vec![
        1, 2, 0, 0, 0, 0, 1, 0, 0, 0, 0, 0, 1, 2, 0, 0, 0, 0, 0, 0, 0, 1, 0, 0, 0, 0, 0, 0, 0, 0,
        1,
    ];
    g.push(r10);
    let r11: Vec<u8> = vec![
        1, 0, 0, 0, 0, 0, 1, 2, 0, 0, 0, 0, 1, 0, 0, 0, 0, 0, 0, 0, 0, 1, 2, 0, 0, 0, 0, 0, 0, 0,
        1,
    ];
    g.push(r11);
    let r12: Vec<u8> = vec![
        1, 0, 0, 1, 0, 0, 1, 1, 1, 1, 0, 0, 1, 0, 0, 1, 0, 0, 0, 0, 0, 1, 1, 1, 1, 1, 1, 1, 0, 0,
        1,
    ];
    g.push(r12);
    let r13: Vec<u8> = vec![
        1, 0, 0, 1, 0, 0, 0, 0, 0, 1, 0, 0, 1, 0, 0, 1, 0, 0, 0, 0, 0, 0, 0, 0, 0, 0, 0, 0, 0, 0,
        1,
    ];
    g.push(r13);
    let r14: Vec<u8> = vec![
        1, 0, 0, 1, 2, 0, 0, 0, 0, 1, 0, 0, 1, 0, 0, 1, 0, 0, 0, 0, 0, 0, 0, 0, 0, 0, 0, 0, 0, 2,
        1,
    ];
    g.push(r14);
    let r15: Vec<u8> = vec![
        1, 0, 0, 1, 1, 1, 1, 0, 0, 1, 0, 0, 1, 0, 0, 1, 0, 0, 1, 0, 0, 1, 0, 0, 1, 0, 0, 1, 1, 1,
        1,
    ];
    g.push(r15);
    let r16: Vec<u8> = vec![
        1, 0, 0, 1, 2, 0, 0, 0, 0, 0, 0, 0, 0, 0, 0, 1, 0, 0, 1, 0, 0, 1, 0, 0, 1, 0, 0, 1, 0, 2,
        1,
    ];
    g.push(r16);
    let r17: Vec<u8> = vec![
        1, 0, 0, 1, 0, 0, 0, 0, 0, 0, 0, 0, 0, 0, 0, 1, 0, 0, 1, 0, 0, 1, 0, 0, 1, 0, 0, 1, 0, 0,
        1,
    ];
    g.push(r17);
    let r18: Vec<u8> = vec![
        1, 0, 0, 1, 1, 1, 1, 0, 0, 0, 0, 0, 1, 1, 1, 1, 0, 0, 1, 0, 0, 1, 1, 1, 1, 0, 0, 1, 0, 0,
        1,
    ];
    g.push(r18);
    let r19: Vec<u8> = vec![
        1, 0, 0, 1, 0, 0, 0, 0, 0, 0, 0, 0, 0, 0, 0, 0, 0, 0, 1, 0, 0, 0, 0, 0, 1, 0, 0, 0, 0, 0,
        1,
    ];
    g.push(r19);
    let r20: Vec<u8> = vec![
        1, 0, 0, 1, 0, 0, 0, 0, 0, 0, 0, 0, 0, 0, 0, 0, 0, 2, 1, 2, 0, 0, 0, 0, 1, 0, 0, 0, 0, 0,
        1,
    ];
    g.push(r20);
    let r21: Vec<u8> = vec![
        1, 0, 0, 1, 0, 0, 1, 1, 1, 1, 1, 1, 1, 0, 0, 1, 1, 1, 1, 1, 1, 1, 0, 0, 1, 0, 0, 1, 1, 1,
        1,
    ];
    g.push(r21);
    let r22: Vec<u8> = vec![
        1, 0, 0, 0, 0, 0, 1, 2, 0, 1, 0, 0, 0, 0, 0, 1, 2, 0, 0, 0, 0, 0, 0, 0, 1, 0, 0, 1, 2, 0,
        1,
    ];
    g.push(r22);
    let r23: Vec<u8> = vec![
        1, 2, 0, 0, 0, 0, 1, 0, 0, 1, 0, 0, 0, 0, 0, 1, 0, 0, 0, 0, 0, 0, 0, 0, 1, 0, 0, 1, 0, 0,
        1,
    ];
    g.push(r23);
    let r24: Vec<u8> = vec![
        1, 1, 1, 1, 1, 1, 1, 0, 0, 1, 0, 0, 1, 1, 1, 1, 0, 0, 1, 1, 1, 1, 1, 1, 1, 0, 0, 1, 0, 0,
        1,
    ];
    g.push(r24);
    let r25: Vec<u8> = vec![
        1, 0, 0, 0, 0, 0, 0, 0, 0, 1, 0, 0, 1, 2, 0, 0, 0, 0, 1, 2, 0, 0, 0, 0, 0, 0, 0, 1, 0, 0,
        1,
    ];
    g.push(r25);
    let r26: Vec<u8> = vec![
        1, 0, 0, 0, 0, 0, 0, 0, 0, 1, 0, 0, 1, 0, 0, 0, 0, 0, 1, 0, 0, 0, 0, 0, 0, 0, 2, 1, 0, 0,
        1,
    ];
    g.push(r26);
    let r27: Vec<u8> = vec![
        1, 0, 0, 1, 1, 1, 1, 1, 1, 1, 0, 0, 1, 0, 0, 1, 1, 1, 1, 0, 0, 1, 1, 1, 1, 1, 1, 1, 0, 0,
        1,
    ];
    g.push(r27);
    let r28: Vec<u8> = vec![
        1, 0, 0, 0, 0, 0, 0, 0, 0, 0, 0, 0, 1, 0, 0, 0, 0, 2, 1, 0, 0, 0, 0, 0, 0, 0, 0, 0, 0, 0,
        1,
    ];
    g.push(r28);
    let r29: Vec<u8> = vec![
        1, 2, 0, 0, 0, 0, 0, 0, 0, 0, 0, 0, 1, 2, 0, 0, 0, 0, 1, 2, 0, 0, 0, 0, 0, 0, 0, 0, 0, 2,
        1,
    ];
    g.push(r29);
    let r30: Vec<u8> = vec![
        1, 1, 1, 1, 1, 1, 1, 1, 1, 1, 1, 1, 1, 1, 1, 1, 1, 1, 1, 1, 1, 1, 1, 1, 1, 1, 1, 1, 1, 1,
        1,
    ];
    g.push(r30);
    g
}

/// The level's spawn point table, immutable after load.
pub struct SpawnSpots(pub Vec<Vec3Fx>);

impl SpawnSpots {
    /// Builds the table from the level's maze grid.
    pub fn new() -> (r: Self)
        ensures
            forall|i: int| 0 <= i < r.0@.len() ==> (#[trigger] r.0@[i]).wf(),
    {
        let grid = maze_grid();
        Self(spawn_list_maker(&grid))
    }
}

} // verus!
