//! Exact grid-line ray casting against the wall layer.
//!
//! A ray starts at a fixed-point point and runs along an integer direction
//! vector. Each family of grid lines (vertical lines `x = n`, horizontal
//! lines `y = n`) is walked on its own; the nearer wall crossing of the two
//! wins, with ties going to the vertical family.
use vstd::prelude::*;
use vstd::arithmetic::div_mod::{lemma_fundamental_div_mod, lemma_mod_bound};
use crate::fixed::{UNIT, floor_div, ceil_div, ceil_of};
use crate::grid::{wall_at, get_tile};

verus! {

/// Largest magnitude of a point coordinate, and of a cast's reach.
pub const COORD_LIMIT: i64 = 2147483648;

/// Largest magnitude of a direction component.
pub const DIR_LIMIT: i64 = 1048576;

/// A point in fixed-point coordinates, or a direction vector.
#[derive(Clone, Copy, Debug, PartialEq, Eq, Structural)]
pub struct Vec2 {
    pub x: i64,
    pub y: i64,
}

/// Result of a cast: the crossing point and the wall tile there; tile `0`
/// means that no wall was met, and the point is then `(0, 0)`.
#[derive(Clone, Copy, Debug, PartialEq, Eq, Structural)]
pub struct Raycast {
    pub x: i64,
    pub y: i64,
    pub tile_type: u8,
}

/// The first wall crossing of one family of grid lines. `line` is the
/// fixed-point coordinate of the crossed line on the family's own axis,
/// `cross` the other coordinate (rounded down), `offset` the distance
/// travelled along the family's axis.
#[derive(Clone, Copy, Debug, PartialEq, Eq, Structural)]
pub struct LineHit {
    pub offset: i64,
    pub line: i64,
    pub cross: i64,
    pub tile: u8,
}

pub open spec fn valid_point(p: Vec2) -> bool {
    -COORD_LIMIT <= p.x <= COORD_LIMIT && -COORD_LIMIT <= p.y <= COORD_LIMIT
}

pub open spec fn valid_dir(d: Vec2) -> bool {
    -DIR_LIMIT <= d.x <= DIR_LIMIT && -DIR_LIMIT <= d.y <= DIR_LIMIT
}

pub open spec fn abs(v: int) -> int {
    if v < 0 {
        -v
    } else {
        v
    }
}

pub open spec fn no_line_hit() -> LineHit {
    LineHit { offset: 0, line: 0, cross: 0, tile: 0 }
}

/// Index of the first grid line met moving from `a0` in the sense of `da`.
pub open spec fn first_line(a0: int, da: int) -> int {
    if da > 0 {
        ceil_of(a0, UNIT as int)
    } else {
        a0 / (UNIT as int)
    }
}

/// Index of the `k`-th grid line met.
pub open spec fn line_index(a0: int, da: int, k: int) -> int {
    if da > 0 {
        first_line(a0, da) + k
    } else {
        first_line(a0, da) - k
    }
}

/// Distance along the axis from `a0` to the first line met.
pub open spec fn first_offset(a0: int, da: int) -> int {
    if da > 0 {
        first_line(a0, da) * UNIT - a0
    } else {
        a0 - first_line(a0, da) * UNIT
    }
}

/// Distance along the axis from `a0` to the `k`-th line met.
pub open spec fn line_offset(a0: int, da: int, k: int) -> int {
    first_offset(a0, da) + k * UNIT
}

/// The other coordinate at the `k`-th crossing, rounded down: the ray meets
/// the line where `cross * |da| == b0 * |da| + offset * db`.
pub open spec fn cross_at(a0: int, b0: int, da: int, db: int, k: int) -> int {
    (b0 * abs(da) + line_offset(a0, da, k) * db) / abs(da)
}

/// The cell on the far side of the `k`-th line, on the family's own axis.
pub open spec fn cell_along(a0: int, da: int, k: int) -> int {
    if da > 0 {
        line_index(a0, da, k)
    } else {
        line_index(a0, da, k) - 1
    }
}

/// The wall tile of the cell entered at the `k`-th crossing; `transposed`
/// says that the family's own axis is `y`.
pub open spec fn crossing_tile(a0: int, b0: int, da: int, db: int, transposed: bool, k: int) -> u8 {
    let a = cell_along(a0, da, k);
    let b = cross_at(a0, b0, da, db, k) / (UNIT as int);
    if transposed {
        wall_at(b, a)
    } else {
        wall_at(a, b)
    }
}

/// The `k`-th crossing is within reach, enters a wall, and every earlier one
/// entered an open cell.
pub open spec fn is_first_wall(
    a0: int,
    b0: int,
    da: int,
    db: int,
    reach: int,
    transposed: bool,
    k: int,
) -> bool {
    &&& 0 <= k
    &&& line_offset(a0, da, k) < reach
    &&& crossing_tile(a0, b0, da, db, transposed, k) != 0
    &&& forall|j: int| 0 <= j < k ==> #[trigger] crossing_tile(a0, b0, da, db, transposed, j) == 0
}

pub open spec fn crossing(a0: int, b0: int, da: int, db: int, transposed: bool, k: int) -> LineHit {
    LineHit {
        offset: line_offset(a0, da, k) as i64,
        line: (line_index(a0, da, k) * UNIT) as i64,
        cross: cross_at(a0, b0, da, db, k) as i64,
        tile: crossing_tile(a0, b0, da, db, transposed, k),
    }
}

/// The nearest wall crossing of one line family within `reach` along its
/// axis, or no hit. A ray parallel to the family (`da == 0`) meets none.
pub open spec fn family_hit(a0: int, b0: int, da: int, db: int, reach: int, transposed: bool) -> LineHit {
    if da != 0 && exists|k: int| #[trigger] is_first_wall(a0, b0, da, db, reach, transposed, k) {
        crossing(
            a0,
            b0,
            da,
            db,
            transposed,
            choose|k: int| #[trigger] is_first_wall(a0, b0, da, db, reach, transposed, k),
        )
    } else {
        no_line_hit()
    }
}

/// The horizontal-family hit is taken when it is a wall and strictly
/// nearer, or when the vertical family met no wall.
pub open spec fn horizontal_wins(vert: LineHit, horiz: LineHit, dir: Vec2) -> bool {
    (horiz.tile != 0 && horiz.offset * abs(dir.x as int) < vert.offset * abs(dir.y as int))
        || vert.tile == 0
}

pub open spec fn closest_spec(vert: LineHit, horiz: LineHit, dir: Vec2) -> Raycast {
    if horizontal_wins(vert, horiz, dir) {
        Raycast { x: horiz.cross, y: horiz.line, tile_type: horiz.tile }
    } else {
        Raycast { x: vert.line, y: vert.cross, tile_type: vert.tile }
    }
}

/// What a cast from `start` along `dir` with reach `max_dist` returns.
pub open spec fn cast_spec(start: Vec2, dir: Vec2, max_dist: int) -> Raycast {
    closest_spec(
        family_hit(start.x as int, start.y as int, dir.x as int, dir.y as int, max_dist, false),
        family_hit(start.y as int, start.x as int, dir.y as int, dir.x as int, max_dist, true),
        dir,
    )
}

proof fn lemma_first_offset(a0: int, da: int)
    requires
        da != 0,
    ensures
        0 <= first_offset(a0, da) < UNIT,
{
    let u = UNIT as int;
    if da > 0 {
        lemma_fundamental_div_mod(-a0, u);
        lemma_mod_bound(-a0, u);
    } else {
        lemma_fundamental_div_mod(a0, u);
        lemma_mod_bound(a0, u);
    }
}

fn wall_cell(x: i64, y: i64) -> (r: u8)
    ensures
        r == wall_at(x as int, y as int),
{
    if 0 <= x && x < 8 && 0 <= y && y < 8 {
        get_tile(x as isize, y as isize)
    } else {
        0
    }
}

/// Walks one family of grid lines from `(a0, b0)` along `(da, db)`, with
/// `a` the family's own axis, and returns its first wall crossing.
fn walk_family(a0: i64, b0: i64, da: i64, db: i64, reach: i64, transposed: bool) -> (r: LineHit)
    requires
        -COORD_LIMIT <= a0 <= COORD_LIMIT,
        -COORD_LIMIT <= b0 <= COORD_LIMIT,
        -DIR_LIMIT <= da <= DIR_LIMIT,
        -DIR_LIMIT <= db <= DIR_LIMIT,
        reach <= COORD_LIMIT,
    ensures
        r == family_hit(a0 as int, b0 as int, da as int, db as int, reach as int, transposed),
        0 <= r.offset <= COORD_LIMIT,
{
    if da == 0 {
        return LineHit { offset: 0, line: 0, cross: 0, tile: 0 };
    }
    proof {
        lemma_first_offset(a0 as int, da as int);
    }
    let ada: i64 = if da > 0 { da } else { -da };
    let mut line: i64 = if da > 0 { ceil_div(a0, UNIT) } else { floor_div(a0, UNIT) };
    let ghost mut k: int = 0;
    loop
        invariant
            -COORD_LIMIT <= a0 <= COORD_LIMIT,
            -COORD_LIMIT <= b0 <= COORD_LIMIT,
            -DIR_LIMIT <= da <= DIR_LIMIT,
            -DIR_LIMIT <= db <= DIR_LIMIT,
            reach <= COORD_LIMIT,
            da != 0,
            ada as int == abs(da as int),
            0 <= k,
            line as int == line_index(a0 as int, da as int, k),
            0 <= first_offset(a0 as int, da as int) < UNIT,
            line_offset(a0 as int, da as int, k) < UNIT || line_offset(a0 as int, da as int, k)
                < reach + UNIT,
            forall|j: int|
                0 <= j < k ==> #[trigger] crossing_tile(
                    a0 as int,
                    b0 as int,
                    da as int,
                    db as int,
                    transposed,
                    j,
                ) == 0,
        decreases reach + UNIT - line_offset(a0 as int, da as int, k),
    {
        proof {
            let lo = line_offset(a0 as int, da as int, k);
            let fl = first_line(a0 as int, da as int);
            if da > 0 {
                assert(line * UNIT == fl * UNIT + k * UNIT);
                assert(line * UNIT == a0 + lo);
            } else {
                assert(line * UNIT == fl * UNIT - k * UNIT);
                assert(line * UNIT == a0 - lo);
            }
        }
        let offset: i64 = if da > 0 { line * UNIT - a0 } else { a0 - line * UNIT };
        assert(offset == line_offset(a0 as int, da as int, k));
        if offset >= reach {
            proof {
                assert forall|j: int| !#[trigger] is_first_wall(
                    a0 as int,
                    b0 as int,
                    da as int,
                    db as int,
                    reach as int,
                    transposed,
                    j,
                ) by {
                    if 0 <= j && j >= k {
                        assert(line_offset(a0 as int, da as int, j) >= line_offset(a0 as int, da as int, k));
                    }
                }
            }
            return LineHit { offset: 0, line: 0, cross: 0, tile: 0 };
        }
        assert(0 <= offset <= COORD_LIMIT);
        assert(-(COORD_LIMIT * DIR_LIMIT) <= b0 * ada <= COORD_LIMIT * DIR_LIMIT) by (nonlinear_arith)
            requires
                -COORD_LIMIT <= b0 <= COORD_LIMIT,
                0 < ada <= DIR_LIMIT,
        ;
        assert(-(COORD_LIMIT * DIR_LIMIT) <= offset * db <= COORD_LIMIT * DIR_LIMIT) by (nonlinear_arith)
            requires
                0 <= offset <= COORD_LIMIT,
                -DIR_LIMIT <= db <= DIR_LIMIT,
        ;
        let num: i64 = b0 * ada + offset * db;
        let cross: i64 = floor_div(num, ada);
        let cell_b: i64 = floor_div(cross, UNIT);
        let cell_a: i64 = if da > 0 { line } else { line - 1 };
        let tile: u8 = if transposed { wall_cell(cell_b, cell_a) } else { wall_cell(cell_a, cell_b) };
        if tile != 0 {
            proof {
                assert(is_first_wall(a0 as int, b0 as int, da as int, db as int, reach as int, transposed, k));
                let kk = choose|j: int| #[trigger] is_first_wall(
                    a0 as int,
                    b0 as int,
                    da as int,
                    db as int,
                    reach as int,
                    transposed,
                    j,
                );
                assert(is_first_wall(a0 as int, b0 as int, da as int, db as int, reach as int, transposed, kk));
                if kk < k {
                    assert(crossing_tile(a0 as int, b0 as int, da as int, db as int, transposed, kk) == 0);
                } else if kk > k {
                    assert(crossing_tile(a0 as int, b0 as int, da as int, db as int, transposed, k) == 0);
                }
            }
            return LineHit { offset, line: line * UNIT, cross, tile };
        }
        line = if da > 0 { line + 1 } else { line - 1 };
        proof {
            assert(line_offset(a0 as int, da as int, k + 1) == offset + UNIT);
            k = k + 1;
        }
    }
}

/// Picks between the two families' hits: the horizontal one when it is a
/// wall and strictly nearer, or when the vertical one is no wall; else the
/// vertical one. Distances are compared exactly, as offsets along each
/// family's axis scaled by the other direction component.
pub fn closest(vert: &LineHit, horiz: &LineHit, dir: Vec2) -> (r: Raycast)
    requires
        0 <= vert.offset <= COORD_LIMIT,
        0 <= horiz.offset <= COORD_LIMIT,
        valid_dir(dir),
    ensures
        r == closest_spec(*vert, *horiz, dir),
{
    let adx: i64 = if dir.x < 0 { -dir.x } else { dir.x };
    let ady: i64 = if dir.y < 0 { -dir.y } else { dir.y };
    assert(0 <= horiz.offset * adx <= COORD_LIMIT * DIR_LIMIT) by (nonlinear_arith)
        requires
            0 <= horiz.offset <= COORD_LIMIT,
            0 <= adx <= DIR_LIMIT,
    ;
    assert(0 <= vert.offset * ady <= COORD_LIMIT * DIR_LIMIT) by (nonlinear_arith)
        requires
            0 <= vert.offset <= COORD_LIMIT,
            0 <= ady <= DIR_LIMIT,
    ;
    if (horiz.tile != 0 && horiz.offset * adx < vert.offset * ady) || vert.tile == 0 {
        Raycast { x: horiz.cross, y: horiz.line, tile_type: horiz.tile }
    } else {
        Raycast { x: vert.line, y: vert.cross, tile_type: vert.tile }
    }
}

/// Casts a ray from `start` along `dir` and returns the nearest wall
/// crossing, each line family walked while its axis distance stays below
/// `max_dist`.
pub fn raycast(start: Vec2, dir: Vec2, max_dist: i64) -> (r: Raycast)
    requires
        valid_point(start),
        valid_dir(dir),
        max_dist <= COORD_LIMIT,
    ensures
        r == cast_spec(start, dir, max_dist as int),
{
    let vert = walk_family(start.x, start.y, dir.x, dir.y, max_dist, false);
    let horiz = walk_family(start.y, start.x, dir.y, dir.x, max_dist, true);
    closest(&vert, &horiz, dir)
}

/// The grid cell index of a fixed-point coordinate.
pub open spec fn cell_of(v: int) -> int {
    v / (UNIT as int)
}

/// Whether a fixed-point coordinate lies on a grid line.
pub open spec fn on_grid_line(v: int) -> bool {
    v % (UNIT as int) == 0
}

/// The cell that a family hit enters, on the family's own axis.
pub open spec fn entered_cell(line: int, d: int) -> int {
    if d < 0 {
        cell_of(line) - 1
    } else {
        cell_of(line)
    }
}

/// What every wall hit of a line family satisfies.
pub open spec fn family_hit_facts(h: LineHit, a0: int, b0: int, da: int, db: int, reach: int, transposed: bool) -> bool {
    h.tile != 0 ==> {
        &&& da != 0
        &&& 0 <= h.offset < reach
        &&& on_grid_line(h.line as int)
        &&& h.offset == abs(h.line as int - a0)
        &&& (da > 0 ==> h.line >= a0)
        &&& (da < 0 ==> h.line <= a0)
        &&& h.cross == (b0 * abs(da) + h.offset * db) / abs(da)
        &&& h.tile == (if transposed {
            wall_at(cell_of(h.cross as int), entered_cell(h.line as int, da))
        } else {
            wall_at(entered_cell(h.line as int, da), cell_of(h.cross as int))
        })
    }
}

proof fn lemma_family_hit_facts(a0: int, b0: int, da: int, db: int, reach: int, transposed: bool)
    requires
        -COORD_LIMIT <= a0 <= COORD_LIMIT,
        -COORD_LIMIT <= b0 <= COORD_LIMIT,
        -DIR_LIMIT <= da <= DIR_LIMIT,
        -DIR_LIMIT <= db <= DIR_LIMIT,
        reach <= COORD_LIMIT,
    ensures
        family_hit_facts(family_hit(a0, b0, da, db, reach, transposed), a0, b0, da, db, reach, transposed),
{
    let h = family_hit(a0, b0, da, db, reach, transposed);
    if h.tile != 0 {
        assert(da != 0 && exists|k: int| #[trigger] is_first_wall(a0, b0, da, db, reach, transposed, k));
        let k = choose|k: int| #[trigger] is_first_wall(a0, b0, da, db, reach, transposed, k);
        lemma_first_offset(a0, da);
        let fl = first_line(a0, da);
        let li = line_index(a0, da, k);
        let lo = line_offset(a0, da, k);
        if da > 0 {
            assert(li * UNIT == fl * UNIT + k * UNIT);
            assert(li * UNIT == a0 + lo);
        } else {
            assert(li * UNIT == fl * UNIT - k * UNIT);
            assert(li * UNIT == a0 - lo);
        }
        assert(0 <= lo < reach);
        assert(h.line == li * UNIT);
        assert(h.offset == lo);
        assert((li * UNIT) % (UNIT as int) == 0 && (li * UNIT) / (UNIT as int) == li) by {
            lemma_fundamental_div_mod(li * UNIT, UNIT as int);
            lemma_mod_bound(li * UNIT, UNIT as int);
        }
        let nb = b0 * abs(da) + lo * db;
        assert(-(COORD_LIMIT * DIR_LIMIT) <= b0 * abs(da) <= COORD_LIMIT * DIR_LIMIT) by (nonlinear_arith)
            requires
                -COORD_LIMIT <= b0 <= COORD_LIMIT,
                0 < abs(da) <= DIR_LIMIT,
        ;
        assert(-(COORD_LIMIT * DIR_LIMIT) <= lo * db <= COORD_LIMIT * DIR_LIMIT) by (nonlinear_arith)
            requires
                0 <= lo <= COORD_LIMIT,
                -DIR_LIMIT <= db <= DIR_LIMIT,
        ;
        assert(-(COORD_LIMIT * DIR_LIMIT * 2) <= nb / abs(da) <= COORD_LIMIT * DIR_LIMIT * 2) by (nonlinear_arith)
            requires
                -(COORD_LIMIT * DIR_LIMIT * 2) <= nb <= COORD_LIMIT * DIR_LIMIT * 2,
                0 < abs(da),
        ;
        assert(h.cross == nb / abs(da));
    }
}

/// A wall hit lies on a grid line, and its distance from the start along
/// that line's axis is below the reach.
pub proof fn lemma_hit_within_reach(start: Vec2, dir: Vec2, max_dist: int)
    requires
        valid_point(start),
        valid_dir(dir),
        max_dist <= COORD_LIMIT,
    ensures
        ({
            let r = cast_spec(start, dir, max_dist);
            r.tile_type != 0 ==> (on_grid_line(r.x as int) && abs(r.x as int - start.x as int) < max_dist) || (
                on_grid_line(r.y as int) && abs(r.y as int - start.y as int) < max_dist)
        }),
{
    lemma_family_hit_facts(start.x as int, start.y as int, dir.x as int, dir.y as int, max_dist, false);
    lemma_family_hit_facts(start.y as int, start.x as int, dir.y as int, dir.x as int, max_dist, true);
}

/// A wall hit is exact: on a vertical grid line it enters the cell beyond
/// that line, its `y` is where the ray meets the line (rounded down), and its
/// tile is the map's tile of that cell; likewise on a horizontal line with
/// the axes exchanged.
pub proof fn lemma_hit_on_ray(start: Vec2, dir: Vec2, max_dist: int)
    requires
        valid_point(start),
        valid_dir(dir),
        max_dist <= COORD_LIMIT,
    ensures
        ({
            let r = cast_spec(start, dir, max_dist);
            r.tile_type != 0 ==> {
                ||| {
                    &&& dir.x != 0
                    &&& on_grid_line(r.x as int)
                    &&& r.y == (start.y * abs(dir.x as int) + abs(r.x as int - start.x as int) * dir.y) / abs(
                        dir.x as int,
                    )
                    &&& r.tile_type == wall_at(entered_cell(r.x as int, dir.x as int), cell_of(r.y as int))
                }
                ||| {
                    &&& dir.y != 0
                    &&& on_grid_line(r.y as int)
                    &&& r.x == (start.x * abs(dir.y as int) + abs(r.y as int - start.y as int) * dir.x) / abs(
                        dir.y as int,
                    )
                    &&& r.tile_type == wall_at(cell_of(r.x as int), entered_cell(r.y as int, dir.y as int))
                }
            }
        }),
{
    lemma_family_hit_facts(start.x as int, start.y as int, dir.x as int, dir.y as int, max_dist, false);
    lemma_family_hit_facts(start.y as int, start.x as int, dir.y as int, dir.x as int, max_dist, true);
}

/// Ties between the families: when both meet a wall at the same distance
/// the vertical family's hit is returned; when only the horizontal family
/// meets a wall, its hit is returned.
pub proof fn lemma_tie_break(start: Vec2, dir: Vec2, max_dist: int)
    ensures
        ({
            let v = family_hit(start.x as int, start.y as int, dir.x as int, dir.y as int, max_dist, false);
            let h = family_hit(start.y as int, start.x as int, dir.y as int, dir.x as int, max_dist, true);
            let r = cast_spec(start, dir, max_dist);
            &&& (v.tile != 0 && h.tile != 0 && h.offset * abs(dir.x as int) == v.offset * abs(dir.y as int))
                ==> r == Raycast { x: v.line, y: v.cross, tile_type: v.tile }
            &&& (v.tile == 0 && h.tile != 0) ==> r == Raycast { x: h.cross, y: h.line, tile_type: h.tile }
        }),
{
}

/// A wall hit lies on the grid: both coordinates are between `0` and
/// `9 * UNIT`.
pub proof fn lemma_hit_in_grid(start: Vec2, dir: Vec2, max_dist: int)
    requires
        valid_point(start),
        valid_dir(dir),
        max_dist <= COORD_LIMIT,
    ensures
        ({
            let r = cast_spec(start, dir, max_dist);
            r.tile_type != 0 ==> 0 <= r.x <= 9 * UNIT && 0 <= r.y <= 9 * UNIT
        }),
{
    lemma_hit_on_ray(start, dir, max_dist);
}

} // verus!
