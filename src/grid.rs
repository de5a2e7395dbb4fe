//! The static tile grid: wall, floor and ceiling identifiers per cell.
use vstd::prelude::*;

verus! {

/// Number of cells along x.
pub const MAP_WIDTH: isize = 8;

/// Number of cells along y.
pub const MAP_HEIGHT: isize = 8;

/// Wall tiles, row by row; `0` is an open cell.
pub const MAP: [u8; 64] = [
    1, 1, 2, 1, 2, 1, 1, 1,
    1, 0, 0, 0, 0, 0, 4, 1,
    1, 0, 3, 0, 0, 0, 0, 1,
    1, 0, 0, 0, 0, 0, 0, 1,
    1, 0, 3, 0, 3, 2, 0, 1,
    1, 0, 1, 0, 0, 2, 0, 1,
    1, 0, 1, 1, 0, 2, 0, 1,
    1, 1, 1, 1, 1, 1, 1, 1,
];

/// Floor tiles, row by row.
pub const FLOOR: [u8; 64] = [
    0, 0, 0, 0, 0, 0, 0, 0,
    0, 2, 2, 2, 2, 2, 0, 0,
    0, 2, 0, 2, 2, 2, 2, 0,
    0, 2, 2, 2, 2, 2, 2, 0,
    0, 2, 0, 3, 0, 0, 2, 0,
    0, 2, 0, 3, 3, 0, 2, 0,
    0, 2, 0, 0, 3, 0, 2, 0,
    0, 0, 0, 0, 0, 0, 0, 0,
];

/// Ceiling tiles, row by row.
pub const CEILING: [u8; 64] = [
    0, 0, 0, 0, 0, 0, 0, 0,
    0, 1, 0, 0, 0, 0, 0, 0,
    0, 1, 0, 0, 0, 0, 0, 0,
    0, 1, 0, 0, 0, 0, 0, 0,
    0, 1, 0, 2, 0, 0, 0, 0,
    0, 1, 0, 2, 2, 0, 0, 0,
    0, 1, 0, 0, 2, 0, 0, 0,
    0, 0, 0, 0, 0, 0, 0, 0,
];

/// Whether `(x, y)` names a cell of the grid.
pub open spec fn in_grid(x: int, y: int) -> bool {
    0 <= x < MAP_WIDTH && 0 <= y < MAP_HEIGHT
}

/// The entry of a row-major layer at `(x, y)`, or `0` off the grid.
pub open spec fn layer_at(layer: Seq<u8>, x: int, y: int) -> u8 {
    if in_grid(x, y) {
        layer[x + y * MAP_WIDTH]
    } else {
        0
    }
}

/// The wall tile at cell `(x, y)`.
pub open spec fn wall_at(x: int, y: int) -> u8 {
    layer_at(MAP@, x, y)
}

/// The floor tile at cell `(x, y)`.
pub open spec fn floor_at(x: int, y: int) -> u8 {
    layer_at(FLOOR@, x, y)
}

/// The ceiling tile at cell `(x, y)`.
pub open spec fn ceil_at(x: int, y: int) -> u8 {
    layer_at(CEILING@, x, y)
}

fn lookup(layer: &[u8; 64], x: isize, y: isize) -> (r: u8)
    ensures
        r == layer_at(layer@, x as int, y as int),
{
    if x < 0 || y < 0 || x >= MAP_WIDTH || y >= MAP_HEIGHT {
        return 0;
    }
    layer[(x + y * MAP_WIDTH) as usize]
}

/// The wall tile at cell `(x, y)`; `0` when the cell is open or off the grid.
pub fn get_tile(x: isize, y: isize) -> (r: u8)
    ensures
        r == wall_at(x as int, y as int),
{
    lookup(&MAP, x, y)
}

/// The ceiling tile at cell `(x, y)`; `0` off the grid.
pub fn get_ceil(x: isize, y: isize) -> (r: u8)
    ensures
        r == ceil_at(x as int, y as int),
{
    lookup(&CEILING, x, y)
}

/// The floor tile at cell `(x, y)`; `0` off the grid.
pub fn get_floor(x: isize, y: isize) -> (r: u8)
    ensures
        r == floor_at(x as int, y as int),
{
    lookup(&FLOOR, x, y)
}

/// The cells that hold a wall, row by row.
pub fn wall_cells() -> (r: Vec<(isize, isize)>)
    ensures
        forall|k: int| 0 <= k < r.len() ==> in_grid(#[trigger] r[k].0 as int, r[k].1 as int) && wall_at(
            r[k].0 as int,
            r[k].1 as int,
        ) != 0,
        forall|x: int, y: int|
            #[trigger] wall_at(x, y) != 0 ==> exists|k: int| 0 <= k < r.len() && r[k] == (x as isize, y as isize),
{
    let mut out: Vec<(isize, isize)> = Vec::new();
    let mut y: isize = 0;
    while y < MAP_HEIGHT
        invariant
            0 <= y <= MAP_HEIGHT,
            forall|k: int| 0 <= k < out.len() ==> in_grid(#[trigger] out[k].0 as int, out[k].1 as int) && wall_at(
                out[k].0 as int,
                out[k].1 as int,
            ) != 0,
            forall|cx: int, cy: int|
                0 <= cy < y && #[trigger] wall_at(cx, cy) != 0 ==> exists|k: int|
                    0 <= k < out.len() && out[k] == (cx as isize, cy as isize),
        decreases MAP_HEIGHT - y,
    {
        let mut x: isize = 0;
        while x < MAP_WIDTH
            invariant
                0 <= y < MAP_HEIGHT,
                0 <= x <= MAP_WIDTH,
                forall|k: int| 0 <= k < out.len() ==> in_grid(#[trigger] out[k].0 as int, out[k].1 as int) && wall_at(
                    out[k].0 as int,
                    out[k].1 as int,
                ) != 0,
                forall|cx: int, cy: int|
                    (0 <= cy < y || (cy == y && cx < x)) && #[trigger] wall_at(cx, cy) != 0 ==> exists|k: int|
                        0 <= k < out.len() && out[k] == (cx as isize, cy as isize),
            decreases MAP_WIDTH - x,
        {
            let ghost before = out@;
            let t = get_tile(x, y);
            if t != 0 {
                out.push((x, y));
            }
            proof {
                assert forall|cx: int, cy: int|
                    (0 <= cy < y || (cy == y && cx < x + 1)) && #[trigger] wall_at(cx, cy) != 0 implies exists|k: int|
                        0 <= k < out.len() && out[k] == (cx as isize, cy as isize) by {
                    if cy == y && cx == x {
                        assert(out[out.len() - 1] == (cx as isize, cy as isize));
                    } else {
                        let k = choose|k: int| 0 <= k < before.len() && before[k] == (cx as isize, cy as isize);
                        assert(out[k] == before[k]);
                    }
                }
            }
            x = x + 1;
        }
        y = y + 1;
    }
    out
}

} // verus!
