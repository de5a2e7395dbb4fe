use raycast::fixed::{ceil_div, floor_div, UNIT};
use raycast::grid::{get_ceil, get_floor, get_tile};
use raycast::ray::{closest, raycast, LineHit, Raycast, Vec2};

const U: i64 = UNIT;

fn v(x: i64, y: i64) -> Vec2 {
    Vec2 { x, y }
}

#[test]
fn wall_lookup_inside_grid() {
    assert_eq!(get_tile(0, 0), 1);
    assert_eq!(get_tile(2, 0), 2);
    assert_eq!(get_tile(6, 1), 4);
    assert_eq!(get_tile(2, 2), 3);
    assert_eq!(get_tile(1, 1), 0);
    assert_eq!(get_tile(7, 7), 1);
}

#[test]
fn lookups_off_grid_are_empty() {
    assert_eq!(get_tile(-1, 0), 0);
    assert_eq!(get_tile(8, 0), 0);
    assert_eq!(get_tile(0, 8), 0);
    assert_eq!(get_floor(-1, 3), 0);
    assert_eq!(get_ceil(3, 9), 0);
}

#[test]
fn floor_and_ceiling_lookup() {
    assert_eq!(get_floor(1, 1), 2);
    assert_eq!(get_floor(3, 4), 3);
    assert_eq!(get_floor(2, 2), 0);
    assert_eq!(get_ceil(1, 1), 1);
    assert_eq!(get_ceil(3, 4), 2);
    assert_eq!(get_ceil(2, 1), 0);
}

#[test]
fn rounding_divisions() {
    assert_eq!(floor_div(7, 2), 3);
    assert_eq!(floor_div(-1, 2), -1);
    assert_eq!(floor_div(-4, 2), -2);
    assert_eq!(ceil_div(7, 2), 4);
    assert_eq!(ceil_div(-7, 2), -3);
    assert_eq!(ceil_div(6, 2), 3);
}

#[test]
fn cast_east_along_open_row() {
    let r = raycast(v(3 * U + U / 2, 3 * U + U / 2), v(1, 0), 64 * U);
    assert_eq!(r, Raycast { x: 7 * U, y: 3 * U + U / 2, tile_type: 1 });
}

#[test]
fn cast_into_known_wall() {
    // Half a cell east of the start stands the tile-3 wall at cell (2, 2).
    let r = raycast(v(U + U / 2, 2 * U + U / 2), v(U, 0), 64 * U);
    assert_eq!(r, Raycast { x: 2 * U, y: 2 * U + U / 2, tile_type: 3 });
    assert_eq!(r.tile_type, get_tile(2, 2));
}

#[test]
fn cast_west_enters_cell_before_line() {
    let r = raycast(v(3 * U + U / 2, 2 * U + U / 2), v(-1, 0), 64 * U);
    assert_eq!(r, Raycast { x: 3 * U, y: 2 * U + U / 2, tile_type: 3 });
}

#[test]
fn cast_north_and_south() {
    let n = raycast(v(U + U / 2, 3 * U + U / 2), v(0, -1), 64 * U);
    assert_eq!(n, Raycast { x: U + U / 2, y: U, tile_type: 1 });
    let s = raycast(v(6 * U + U / 2, U + U / 2), v(0, 1), 64 * U);
    assert_eq!(s, Raycast { x: 6 * U + U / 2, y: 7 * U, tile_type: 1 });
}

#[test]
fn cast_slanted_line_crossing() {
    // Direction (2, 1): the vertical family first meets a wall at x = 5
    // (cell (5, 4)); the horizontal line y = 4 is met sooner, at x = 4.5,
    // entering cell (4, 4), a tile-3 wall.
    let r = raycast(v(3 * U + U / 2, 3 * U + U / 2), v(2, 1), 64 * U);
    assert_eq!(r, Raycast { x: 4 * U + U / 2, y: 4 * U, tile_type: 3 });
}

#[test]
fn cast_beyond_reach_is_no_hit() {
    let r = raycast(v(3 * U + U / 2, 3 * U + U / 2), v(1, 0), 2 * U);
    assert_eq!(r, Raycast { x: 0, y: 0, tile_type: 0 });
}

#[test]
fn cast_outside_grid_is_no_hit() {
    let r = raycast(v(20 * U, 20 * U), v(3, 5), 64 * U);
    assert_eq!(r.tile_type, 0);
    assert_eq!((r.x, r.y), (0, 0));
}

#[test]
fn cast_from_grid_line_start() {
    // Starting on the line x = 6, moving west: the first line met is x = 6
    // itself, entering cell (5, 4), a tile-2 wall.
    let r = raycast(v(6 * U, 4 * U + U / 2), v(-1, 0), 64 * U);
    assert_eq!(r, Raycast { x: 6 * U, y: 4 * U + U / 2, tile_type: 2 });
}

#[test]
fn steep_ray_hit_lies_beyond_reach_plus_one() {
    // Reach is one cell along each axis, but the vertical line x = 2 is
    // crossed at y = 5.5, about four cells away.
    let r = raycast(v(U + U / 2, U + U / 2), v(1, 8), U);
    assert_eq!(r, Raycast { x: 2 * U, y: 5 * U + U / 2, tile_type: 1 });
    let dx = (r.x - (U + U / 2)) as f64 / U as f64;
    let dy = (r.y - (U + U / 2)) as f64 / U as f64;
    assert!((dx * dx + dy * dy).sqrt() > 2.0);
}

#[test]
fn diagonal_corner_hit() {
    let r = raycast(v(U + U / 2, U + U / 2), v(-1, -1), 64 * U);
    assert_eq!(r, Raycast { x: U, y: U, tile_type: 1 });
}

#[test]
fn tie_goes_to_vertical_when_both_hit() {
    let vert = LineHit { offset: 100, line: 2 * U, cross: 5, tile: 1 };
    let horiz = LineHit { offset: 100, line: 3 * U, cross: 7, tile: 2 };
    let r = closest(&vert, &horiz, v(1, 1));
    assert_eq!(r, Raycast { x: 2 * U, y: 5, tile_type: 1 });
}

#[test]
fn horizontal_wins_when_vertical_empty() {
    let vert = LineHit { offset: 0, line: 0, cross: 0, tile: 0 };
    let horiz = LineHit { offset: 100, line: 3 * U, cross: 7, tile: 2 };
    let r = closest(&vert, &horiz, v(1, 1));
    assert_eq!(r, Raycast { x: 7, y: 3 * U, tile_type: 2 });
}

#[test]
fn horizontal_wins_when_strictly_nearer() {
    let vert = LineHit { offset: 100, line: 2 * U, cross: 5, tile: 1 };
    let horiz = LineHit { offset: 50, line: 3 * U, cross: 7, tile: 2 };
    assert_eq!(closest(&vert, &horiz, v(1, 1)), Raycast { x: 7, y: 3 * U, tile_type: 2 });
    // The comparison weighs each offset by the other axis' component.
    assert_eq!(closest(&vert, &horiz, v(1, 3)), Raycast { x: 7, y: 3 * U, tile_type: 2 });
    assert_eq!(closest(&vert, &horiz, v(3, 1)), Raycast { x: 2 * U, y: 5, tile_type: 1 });
}

#[test]
fn empty_horizontal_never_wins_over_vertical_hit() {
    let vert = LineHit { offset: 900, line: 2 * U, cross: 5, tile: 1 };
    let horiz = LineHit { offset: 0, line: 0, cross: 0, tile: 0 };
    assert_eq!(closest(&vert, &horiz, v(1, 1)), Raycast { x: 2 * U, y: 5, tile_type: 1 });
}

#[test]
fn wall_cells_lists_every_wall_row_by_row() {
    let cells = raycast::grid::wall_cells();
    assert_eq!(cells.len(), 38);
    assert_eq!(cells[0], (0, 0));
    assert_eq!(cells[8], (0, 1));
    assert_eq!(cells[9], (6, 1));
    assert!(cells.contains(&(2, 2)));
    assert!(!cells.contains(&(1, 1)));
    for &(x, y) in &cells {
        assert_ne!(get_tile(x, y), 0);
    }
}

#[test]
fn reach_bound_is_strict() {
    let start = v(3 * U + U / 2, 3 * U + U / 2);
    // The wall line x = 7 is three and a half cells away along x.
    let hit = raycast(start, v(1, 0), 4 * U);
    assert_eq!(hit, Raycast { x: 7 * U, y: 3 * U + U / 2, tile_type: 1 });
    assert!((hit.x - start.x).abs() < 4 * U);
    let miss = raycast(start, v(1, 0), 3 * U + U / 2);
    assert_eq!(miss.tile_type, 0);
    let zero = raycast(start, v(1, 0), 0);
    assert_eq!(zero.tile_type, 0);
}
