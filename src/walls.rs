//! Wall columns: one ray per screen column, a perspective-scaled strip for
//! each wall hit, and the depth of each hit column.
use vstd::prelude::*;
use crate::fixed::{UNIT, floor_div, ceil_div, ceil_of};
use crate::ray::{COORD_LIMIT, Vec2, Raycast, valid_point, valid_dir, cast_spec, raycast, lemma_hit_in_grid};

verus! {

/// How far a column's ray reaches: 64 cells.
pub const WALL_REACH: i64 = 4194304;

/// Screen pixels per column.
pub const COLUMN_WIDTH: i64 = 4;

/// Screen row of the horizon.
pub const HORIZON: i64 = 300;

/// Strip height, in columns' widths, of a wall one cell away.
pub const STRIP_SCALE: i64 = 150;

/// Texels along one side of an atlas region.
pub const REGION_SIZE: i64 = 16;

/// Most columns a frame may have.
pub const COLUMN_LIMIT: usize = 1048576;

/// The image that a blit copies from.
#[derive(Clone, Copy, Debug, PartialEq, Eq, Structural)]
pub enum Sheet {
    Walls,
    ShadedWalls,
    Sprite,
}

/// A draw command: copy the one-texel-wide column `src_x` (of height
/// `src_height`) of a sheet, scaled to `width` by `height`, centred at
/// `(center_x, center_y)`.
#[derive(Clone, Copy, Debug, PartialEq, Eq, Structural)]
pub struct Blit {
    pub sheet: Sheet,
    pub src_x: i64,
    pub src_height: u32,
    pub center_x: i64,
    pub center_y: i64,
    pub width: u32,
    pub height: u32,
}

/// Distance of `hit` from `cam` along the unit heading vector `dir`,
/// fixed-point, rounded down.
pub open spec fn perp_spec(cam: Vec2, dir: Vec2, hit: Vec2) -> int {
    ((hit.x - cam.x) * dir.x + (hit.y - cam.y) * dir.y) / (UNIT as int)
}

/// The depth of a wall hit, projected on the view axis to undo the fisheye
/// effect.
pub fn perp_distance(cam: Vec2, dir: Vec2, hit: Vec2) -> (r: i64)
    requires
        valid_point(cam),
        valid_point(hit),
        -UNIT <= dir.x <= UNIT,
        -UNIT <= dir.y <= UNIT,
    ensures
        r == perp_spec(cam, dir, hit),
{
    let ox: i64 = hit.x - cam.x;
    let oy: i64 = hit.y - cam.y;
    assert(-(2 * COORD_LIMIT * UNIT) <= ox * dir.x <= 2 * COORD_LIMIT * UNIT) by (nonlinear_arith)
        requires
            -2 * COORD_LIMIT <= ox <= 2 * COORD_LIMIT,
            -UNIT <= dir.x <= UNIT,
    ;
    assert(-(2 * COORD_LIMIT * UNIT) <= oy * dir.y <= 2 * COORD_LIMIT * UNIT) by (nonlinear_arith)
        requires
            -2 * COORD_LIMIT <= oy <= 2 * COORD_LIMIT,
            -UNIT <= dir.y <= UNIT,
    ;
    floor_div(ox * dir.x + oy * dir.y, UNIT)
}

/// Screen height of a strip at depth `d`: `ceil(STRIP_SCALE / d)` columns'
/// widths, with `d` in cells; saturated at a depth of zero, and empty
/// behind the camera.
pub open spec fn strip_height_spec(d: int) -> int {
    if d > 0 {
        ceil_of(STRIP_SCALE * UNIT, d) * COLUMN_WIDTH
    } else if d == 0 {
        u32::MAX as int
    } else {
        0
    }
}

pub fn strip_height(d: i64) -> (r: u32)
    ensures
        r == strip_height_spec(d as int),
{
    if d > 0 {
        let q: i64 = ceil_div(STRIP_SCALE * UNIT, d);
        assert(0 < q <= STRIP_SCALE * UNIT) by (nonlinear_arith)
            requires
                q == -((-(STRIP_SCALE * UNIT)) / (d as int)),
                d > 0,
        ;
        (q * COLUMN_WIDTH) as u32
    } else if d == 0 {
        u32::MAX
    } else {
        0
    }
}

/// Atlas column of a hit whose coordinate along the wall is `v`, on a
/// wall of tile `tile`: the fraction of `v` scaled to a region, offset to
/// the tile's region.
pub open spec fn texel_of(v: int, tile: int) -> int {
    (v % (UNIT as int)) / ((UNIT / REGION_SIZE) as int) + REGION_SIZE * (tile - 1)
}

/// The atlas column and sheet of a wall hit: a hit on a vertical grid line
/// (integer `x`) uses the plain sheet and the fraction of `y`; any other the
/// shaded sheet and the fraction of `x`. The tile picks the region.
pub open spec fn texel_spec(hit: Raycast) -> (i64, Sheet) {
    if hit.x % UNIT == 0 {
        (texel_of(hit.y as int, hit.tile_type as int) as i64, Sheet::Walls)
    } else {
        (texel_of(hit.x as int, hit.tile_type as int) as i64, Sheet::ShadedWalls)
    }
}

pub fn wall_texel(hit: &Raycast) -> (r: (i64, Sheet))
    requires
        hit.x >= 0,
        hit.y >= 0,
    ensures
        r == texel_spec(*hit),
{
    if hit.x % UNIT == 0 {
        ((hit.y % UNIT) / (UNIT / REGION_SIZE) + REGION_SIZE * (hit.tile_type as i64 - 1), Sheet::Walls)
    } else {
        ((hit.x % UNIT) / (UNIT / REGION_SIZE) + REGION_SIZE * (hit.tile_type as i64 - 1), Sheet::ShadedWalls)
    }
}

/// The strip drawn for column `i` on a wall hit.
pub open spec fn column_blit(cam: Vec2, dir: Vec2, hit: Raycast, i: int) -> Blit {
    let d = perp_spec(cam, dir, Vec2 { x: hit.x, y: hit.y });
    Blit {
        sheet: texel_spec(hit).1,
        src_x: texel_spec(hit).0,
        src_height: REGION_SIZE as u32,
        center_x: (i * COLUMN_WIDTH + COLUMN_WIDTH / 2) as i64,
        center_y: HORIZON,
        width: COLUMN_WIDTH as u32,
        height: strip_height_spec(d) as u32,
    }
}

/// What column `i`'s ray meets.
pub open spec fn column_hit(cam: Vec2, ray: Vec2) -> Raycast {
    cast_spec(cam, ray, WALL_REACH as int)
}

/// The strips of the first `n` columns, in column order; open columns draw
/// nothing.
pub open spec fn wall_blits(cam: Vec2, dir: Vec2, rays: Seq<Vec2>, n: int) -> Seq<Blit>
    decreases n,
{
    if n <= 0 {
        Seq::empty()
    } else {
        let prev = wall_blits(cam, dir, rays, n - 1);
        let hit = column_hit(cam, rays[n - 1]);
        if hit.tile_type != 0 {
            prev.push(column_blit(cam, dir, hit, n - 1))
        } else {
            prev
        }
    }
}

/// The depth buffer after the wall pass: each hit column holds its
/// perpendicular depth, every other keeps its value.
pub open spec fn depth_after(cam: Vec2, dir: Vec2, rays: Seq<Vec2>, old_depth: Seq<i64>, i: int) -> i64 {
    let hit = column_hit(cam, rays[i]);
    if hit.tile_type != 0 {
        perp_spec(cam, dir, Vec2 { x: hit.x, y: hit.y }) as i64
    } else {
        old_depth[i]
    }
}

/// Casts one ray per column (`rays[i]` is column `i`'s direction), writes
/// each hit column's depth and returns the strips to draw.
pub fn render_walls(cam: Vec2, dir: Vec2, rays: &Vec<Vec2>, depth: &mut Vec<i64>) -> (r: Vec<Blit>)
    requires
        valid_point(cam),
        -UNIT <= dir.x <= UNIT,
        -UNIT <= dir.y <= UNIT,
        rays.len() <= COLUMN_LIMIT,
        old(depth).len() == rays.len(),
        forall|i: int| 0 <= i < rays.len() ==> valid_dir(#[trigger] rays[i]),
    ensures
        final(depth).len() == rays.len(),
        forall|i: int|
            0 <= i < rays.len() ==> #[trigger] final(depth)[i] == depth_after(cam, dir, rays@, old(depth)@, i),
        r@ == wall_blits(cam, dir, rays@, rays.len() as int),
{
    let mut out: Vec<Blit> = Vec::new();
    let mut i: usize = 0;
    while i < rays.len()
        invariant
            valid_point(cam),
            -UNIT <= dir.x <= UNIT,
            -UNIT <= dir.y <= UNIT,
            rays.len() <= COLUMN_LIMIT,
            forall|j: int| 0 <= j < rays.len() ==> valid_dir(#[trigger] rays[j]),
            i <= rays.len(),
            depth.len() == rays.len(),
            forall|j: int| 0 <= j < i ==> #[trigger] depth[j] == depth_after(cam, dir, rays@, old(depth)@, j),
            forall|j: int| i <= j < rays.len() ==> #[trigger] depth[j] == old(depth)[j],
            out@ == wall_blits(cam, dir, rays@, i as int),
        decreases rays.len() - i,
    {
        let ray = rays[i];
        let hit = raycast(cam, ray, WALL_REACH);
        if hit.tile_type != 0 {
            proof {
                lemma_hit_in_grid(cam, ray, WALL_REACH as int);
            }
            let hp = Vec2 { x: hit.x, y: hit.y };
            let d = perp_distance(cam, dir, hp);
            depth.set(i, d);
            let (src_x, sheet) = wall_texel(&hit);
            let blit = Blit {
                sheet,
                src_x,
                src_height: REGION_SIZE as u32,
                center_x: i as i64 * COLUMN_WIDTH + COLUMN_WIDTH / 2,
                center_y: HORIZON,
                width: COLUMN_WIDTH as u32,
                height: strip_height(d),
            };
            out.push(blit);
        }
        i = i + 1;
    }
    out
}

/// The depth of a hit does not depend on which column's ray found it: two
/// hits equally far along the view axis have the same depth.
pub proof fn lemma_depth_column_independent(cam: Vec2, dir: Vec2, a: Vec2, b: Vec2)
    requires
        (a.x - cam.x) * dir.x + (a.y - cam.y) * dir.y == (b.x - cam.x) * dir.x + (b.y - cam.y) * dir.y,
    ensures
        perp_spec(cam, dir, a) == perp_spec(cam, dir, b),
{
}

/// Looking straight along the `x` axis at a wall `n` cells ahead, every
/// column's hit has depth exactly `n` cells, wherever along the wall it is.
pub proof fn lemma_depth_straight_ahead(cam: Vec2, hit: Vec2, n: int)
    requires
        hit.x == cam.x + n * UNIT,
    ensures
        perp_spec(cam, Vec2 { x: UNIT, y: 0 }, hit) == n * UNIT,
{
    assert((n * UNIT) * UNIT + (hit.y - cam.y) * 0 == (n * UNIT) * UNIT) by (nonlinear_arith);
    assert(((n * UNIT) * UNIT) / (UNIT as int) == n * UNIT) by (nonlinear_arith);
}

} // verus!
