//! Floor and ceiling projection: each pixel of a band is traced back to a
//! world point on the floor (or ceiling) plane, whose cell picks a texture
//! region of the atlas.
use vstd::prelude::*;
use crate::fixed::{UNIT, floor_div};
use crate::grid::{wall_at, floor_at, ceil_at, get_tile, get_floor, get_ceil};
use crate::ray::{COORD_LIMIT, Vec2, valid_point};
use crate::sprite::VIEW_TAN_LIMIT;

verus! {

/// Largest width or height of an atlas or a surface.
pub const SIZE_LIMIT: usize = 65536;

/// Largest magnitude of a world point that can be shaded.
pub const WORLD_LIMIT: i64 = 1152921504606846976;

/// Most rows in a band.
pub const BAND_LIMIT: usize = 4096;

/// Regions side by side in the atlas.
pub const REGIONS: i64 = 4;

/// Texture row sampled for a wall cell under the floor band: `0.99`.
pub const FLOOR_WALL_ROW: i64 = 64880;

/// A colour.
#[derive(Clone, Copy, Debug, PartialEq, Eq, Structural)]
pub struct Rgb {
    pub r: u8,
    pub g: u8,
    pub b: u8,
}

/// A decoded atlas: `width` by `height` texels, row by row.
pub struct Atlas {
    pub width: usize,
    pub height: usize,
    pub texels: Vec<Rgb>,
}

/// A pixel grid filled by a band pass, row by row.
pub struct Surface {
    pub width: usize,
    pub height: usize,
    pub pixels: Vec<Rgb>,
}

pub open spec fn clamp(v: int, hi: int) -> int {
    if v < 0 {
        0
    } else if v > hi {
        hi
    } else {
        v
    }
}

impl Atlas {
    pub open spec fn wf(&self) -> bool {
        &&& 0 < self.width <= SIZE_LIMIT
        &&& 0 < self.height <= SIZE_LIMIT
        &&& self.texels.len() == self.width * self.height
    }

    /// The texel at normalised fixed-point coordinates `(u, v)`, each
    /// scaled by the atlas size and clamped to its edge.
    pub open spec fn sample_spec(&self, u: int, v: int) -> Rgb {
        let tx = clamp(u * self.width / (UNIT as int), self.width - 1);
        let ty = clamp(v * self.height / (UNIT as int), self.height - 1);
        self.texels@[ty * self.width + tx]
    }

    pub fn sample(&self, u: i64, v: i64) -> (r: Rgb)
        requires
            self.wf(),
            -COORD_LIMIT <= u <= COORD_LIMIT,
            -COORD_LIMIT <= v <= COORD_LIMIT,
        ensures
            r == self.sample_spec(u as int, v as int),
    {
        let w: i64 = self.width as i64;
        let h: i64 = self.height as i64;
        assert(-(COORD_LIMIT * SIZE_LIMIT) <= u * w <= COORD_LIMIT * SIZE_LIMIT) by (nonlinear_arith)
            requires -COORD_LIMIT <= u <= COORD_LIMIT, 0 < w <= SIZE_LIMIT;
        assert(-(COORD_LIMIT * SIZE_LIMIT) <= v * h <= COORD_LIMIT * SIZE_LIMIT) by (nonlinear_arith)
            requires -COORD_LIMIT <= v <= COORD_LIMIT, 0 < h <= SIZE_LIMIT;
        let sx: i64 = floor_div(u * w, UNIT);
        let sy: i64 = floor_div(v * h, UNIT);
        let tx: i64 = if sx < 0 { 0 } else if sx > w - 1 { w - 1 } else { sx };
        let ty: i64 = if sy < 0 { 0 } else if sy > h - 1 { h - 1 } else { sy };
        assert(ty * w + tx < w * h) by (nonlinear_arith)
            requires 0 <= ty < h, 0 <= tx < w;
        assert(0 <= ty * w <= SIZE_LIMIT * SIZE_LIMIT) by (nonlinear_arith)
            requires 0 <= ty < h, 0 < w <= SIZE_LIMIT, h <= SIZE_LIMIT;
        self.texels[(ty * w + tx) as usize]
    }
}

/// Each channel halved.
pub open spec fn halve(c: Rgb) -> Rgb {
    Rgb { r: c.r / 2, g: c.g / 2, b: c.b / 2 }
}

/// Each channel scaled by five eighths (divided first).
pub open spec fn seam(c: Rgb) -> Rgb {
    Rgb { r: (c.r / 8 * 5) as u8, g: (c.g / 8 * 5) as u8, b: (c.b / 8 * 5) as u8 }
}

fn halve_rgb(c: Rgb) -> (r: Rgb)
    ensures
        r == halve(c),
{
    Rgb { r: c.r / 2, g: c.g / 2, b: c.b / 2 }
}

fn seam_rgb(c: Rgb) -> (r: Rgb)
    ensures
        r == seam(c),
{
    Rgb { r: c.r / 8 * 5, g: c.g / 8 * 5, b: c.b / 8 * 5 }
}

/// Fractional part of a fixed-point coordinate.
pub open spec fn frac(v: int) -> int {
    v % (UNIT as int)
}

/// Horizontal atlas coordinate for fraction `f` in the region of `tile`.
pub open spec fn region_u(f: int, tile: int) -> int {
    (f + (tile - 1) * UNIT) / (REGIONS as int)
}

/// Whether a fraction lies within a tenth of a cell of a grid line.
pub open spec fn near_line(f: int) -> bool {
    f * 10 > 9 * UNIT || f * 10 < UNIT
}

/// The colour of the floor (or ceiling) at world point `p`. Under a wall
/// the wall's region is sampled at its bottom (top) row, darkened near the
/// `y` grid lines; elsewhere the floor (ceiling) tile's region is sampled at
/// the point's fractions and halved.
pub open spec fn shade_spec(atlas: &Atlas, p: Vec2, ceiling: bool) -> Rgb {
    let cx = p.x as int / UNIT as int;
    let cy = p.y as int / UNIT as int;
    let fx = frac(p.x as int);
    let fy = frac(p.y as int);
    let wall = wall_at(cx, cy);
    if wall != 0 {
        let c = atlas.sample_spec(region_u(fx, wall as int), if ceiling { 0 } else { FLOOR_WALL_ROW as int });
        if near_line(fy) {
            seam(c)
        } else {
            c
        }
    } else {
        let tile = if ceiling { ceil_at(cx, cy) } else { floor_at(cx, cy) };
        halve(atlas.sample_spec(region_u(fx, tile as int), fy))
    }
}

enum Layer {
    Wall,
    Floor,
    Ceiling,
}

fn cell_tile(x: i64, y: i64, layer: Layer) -> (r: u8)
    ensures
        r == (match layer {
            Layer::Wall => wall_at(x as int, y as int),
            Layer::Floor => floor_at(x as int, y as int),
            Layer::Ceiling => ceil_at(x as int, y as int),
        }),
{
    if 0 <= x && x < 8 && 0 <= y && y < 8 {
        match layer {
            Layer::Wall => get_tile(x as isize, y as isize),
            Layer::Floor => get_floor(x as isize, y as isize),
            Layer::Ceiling => get_ceil(x as isize, y as isize),
        }
    } else {
        0
    }
}

/// Shades the floor (or ceiling) at world point `p`.
pub fn shade_surface(atlas: &Atlas, p: Vec2, ceiling: bool) -> (r: Rgb)
    requires
        atlas.wf(),
        -WORLD_LIMIT <= p.x <= WORLD_LIMIT,
        -WORLD_LIMIT <= p.y <= WORLD_LIMIT,
    ensures
        r == shade_spec(atlas, p, ceiling),
{
    let cx: i64 = floor_div(p.x, UNIT);
    let cy: i64 = floor_div(p.y, UNIT);
    let fx: i64 = p.x - cx * UNIT;
    let fy: i64 = p.y - cy * UNIT;
    proof {
        vstd::arithmetic::div_mod::lemma_fundamental_div_mod(p.x as int, UNIT as int);
        vstd::arithmetic::div_mod::lemma_fundamental_div_mod(p.y as int, UNIT as int);
        vstd::arithmetic::div_mod::lemma_mod_bound(p.x as int, UNIT as int);
        vstd::arithmetic::div_mod::lemma_mod_bound(p.y as int, UNIT as int);
    }
    assert(fx == frac(p.x as int) && fy == frac(p.y as int));
    let wall: u8 = cell_tile(cx, cy, Layer::Wall);
    if wall != 0 {
        let u: i64 = floor_div(fx + (wall as i64 - 1) * UNIT, REGIONS);
        let c = atlas.sample(u, if ceiling { 0 } else { FLOOR_WALL_ROW });
        if fy * 10 > 9 * UNIT || fy * 10 < UNIT {
            seam_rgb(c)
        } else {
            c
        }
    } else {
        let tile: u8 = if ceiling { cell_tile(cx, cy, Layer::Ceiling) } else { cell_tile(cx, cy, Layer::Floor) };
        let u: i64 = floor_div(fx + (tile as i64 - 1) * UNIT, REGIONS);
        halve_rgb(atlas.sample(u, fy))
    }
}

impl Surface {
    pub open spec fn wf(&self) -> bool {
        &&& 0 < self.width <= SIZE_LIMIT
        &&& 0 < self.height <= BAND_LIMIT
        &&& self.pixels.len() == self.width * self.height
    }

    /// A black surface of `width` by `height` pixels.
    pub fn new(width: usize, height: usize) -> (r: Surface)
        requires
            0 < width <= SIZE_LIMIT,
            0 < height <= BAND_LIMIT,
        ensures
            r.wf(),
            r.width == width,
            r.height == height,
            forall|i: int| 0 <= i < r.pixels.len() ==> #[trigger] r.pixels[i] == (Rgb { r: 0, g: 0, b: 0 }),
    {
        assert(width * height <= SIZE_LIMIT * BAND_LIMIT) by (nonlinear_arith)
            requires 0 < width <= SIZE_LIMIT, 0 < height <= BAND_LIMIT;
        let n: usize = width * height;
        let mut pixels: Vec<Rgb> = Vec::new();
        while pixels.len() < n
            invariant
                pixels.len() <= n,
                forall|i: int| 0 <= i < pixels.len() ==> #[trigger] pixels[i] == (Rgb { r: 0, g: 0, b: 0 }),
            decreases n - pixels.len(),
        {
            pixels.push(Rgb { r: 0, g: 0, b: 0 });
        }
        Surface { width, height, pixels }
    }
}

/// Distance ahead, fixed-point, of row `y` of a band `height` rows tall:
/// the floor band counts rows down from the horizon, the ceiling band up
/// to it.
pub open spec fn row_dist(height: int, y: int, ceiling: bool) -> int {
    if ceiling {
        height * UNIT / (height - y)
    } else {
        height * UNIT / y
    }
}

/// The world point seen at distance `dist` ahead in the column whose view
/// angle has tangent `tan`, from `cam` facing the unit vector `dir`.
pub open spec fn band_point(cam: Vec2, dir: Vec2, dist: int, tan: int) -> Vec2 {
    let px = dist * tan / (UNIT as int);
    let py = dist;
    Vec2 {
        x: (cam.x + (py * dir.x - px * dir.y) / (UNIT as int)) as i64,
        y: (cam.y + (px * dir.x + py * dir.y) / (UNIT as int)) as i64,
    }
}

/// The colour of pixel `(x, y)` of a band.
pub open spec fn band_pixel(
    atlas: &Atlas,
    cam: Vec2,
    dir: Vec2,
    tans: Seq<i64>,
    height: int,
    x: int,
    y: int,
    ceiling: bool,
) -> Rgb {
    shade_spec(atlas, band_point(cam, dir, row_dist(height, y, ceiling), tans[x] as int), ceiling)
}

fn band_point_at(cam: Vec2, dir: Vec2, dist: i64, tan: i64) -> (r: Vec2)
    requires
        valid_point(cam),
        -UNIT <= dir.x <= UNIT,
        -UNIT <= dir.y <= UNIT,
        0 <= dist <= (BAND_LIMIT as int) * UNIT,
        -VIEW_TAN_LIMIT <= tan <= VIEW_TAN_LIMIT,
    ensures
        r == band_point(cam, dir, dist as int, tan as int),
        -WORLD_LIMIT <= r.x <= WORLD_LIMIT,
        -WORLD_LIMIT <= r.y <= WORLD_LIMIT,
{
    assert(-((BAND_LIMIT as int) * UNIT * VIEW_TAN_LIMIT) <= dist * tan <= (BAND_LIMIT as int) * UNIT * VIEW_TAN_LIMIT)
        by (nonlinear_arith)
        requires 0 <= dist <= (BAND_LIMIT as int) * UNIT, -VIEW_TAN_LIMIT <= tan <= VIEW_TAN_LIMIT;
    let px: i64 = floor_div(dist * tan, UNIT);
    let py: i64 = dist;
    let ghost pl: int = (BAND_LIMIT as int) * VIEW_TAN_LIMIT;
    assert(-pl <= px <= pl) by (nonlinear_arith)
        requires
            px == (dist * tan) / (UNIT as int),
            -((BAND_LIMIT as int) * UNIT * VIEW_TAN_LIMIT) <= dist * tan <= (BAND_LIMIT as int) * UNIT * VIEW_TAN_LIMIT,
            pl == (BAND_LIMIT as int) * VIEW_TAN_LIMIT;
    assert(-pl * UNIT <= py * dir.x <= pl * UNIT) by (nonlinear_arith)
        requires 0 <= py <= pl, -UNIT <= dir.x <= UNIT;
    assert(-pl * UNIT <= py * dir.y <= pl * UNIT) by (nonlinear_arith)
        requires 0 <= py <= pl, -UNIT <= dir.y <= UNIT;
    assert(-pl * UNIT <= px * dir.x <= pl * UNIT) by (nonlinear_arith)
        requires -pl <= px <= pl, -UNIT <= dir.x <= UNIT;
    assert(-pl * UNIT <= px * dir.y <= pl * UNIT) by (nonlinear_arith)
        requires -pl <= px <= pl, -UNIT <= dir.y <= UNIT;
    let ox: i64 = floor_div(py * dir.x - px * dir.y, UNIT);
    let oy: i64 = floor_div(px * dir.x + py * dir.y, UNIT);
    Vec2 { x: cam.x + ox, y: cam.y + oy }
}

/// Fills a floor band (rows below the horizon, row `0` at the horizon,
/// which is left as it was) or a ceiling band (rows above it). `tans[x]` is
/// the tangent of column `x`'s view angle off the heading.
pub fn fill_band(surface: &mut Surface, atlas: &Atlas, cam: Vec2, dir: Vec2, tans: &Vec<i64>, ceiling: bool)
    requires
        old(surface).wf(),
        atlas.wf(),
        valid_point(cam),
        -UNIT <= dir.x <= UNIT,
        -UNIT <= dir.y <= UNIT,
        tans.len() == old(surface).width,
        forall|i: int| 0 <= i < tans.len() ==> -VIEW_TAN_LIMIT <= #[trigger] tans[i] <= VIEW_TAN_LIMIT,
    ensures
        final(surface).wf(),
        final(surface).width == old(surface).width,
        final(surface).height == old(surface).height,
        forall|i: int|
            0 <= i < final(surface).pixels.len() ==> #[trigger] final(surface).pixels[i] == (if !ceiling && i
                / (old(surface).width as int) == 0 {
                old(surface).pixels[i]
            } else {
                band_pixel(
                    atlas,
                    cam,
                    dir,
                    tans@,
                    old(surface).height as int,
                    i % (old(surface).width as int),
                    i / (old(surface).width as int),
                    ceiling,
                )
            }),
{
    let w: usize = surface.width;
    let h: usize = surface.height;
    let n: usize = surface.pixels.len();
    let mut i: usize = 0;
    while i < n
        invariant
            surface.wf(),
            surface.width == w,
            surface.height == h,
            w == old(surface).width,
            h == old(surface).height,
            n == surface.pixels.len(),
            n == w * h,
            atlas.wf(),
            valid_point(cam),
            -UNIT <= dir.x <= UNIT,
            -UNIT <= dir.y <= UNIT,
            tans.len() == w,
            forall|j: int| 0 <= j < tans.len() ==> -VIEW_TAN_LIMIT <= #[trigger] tans[j] <= VIEW_TAN_LIMIT,
            i <= n,
            forall|j: int|
                0 <= j < i ==> #[trigger] surface.pixels[j] == (if !ceiling && j / (w as int) == 0 {
                    old(surface).pixels[j]
                } else {
                    band_pixel(atlas, cam, dir, tans@, h as int, j % (w as int), j / (w as int), ceiling)
                }),
            forall|j: int| i <= j < n ==> #[trigger] surface.pixels[j] == old(surface).pixels[j],
        decreases n - i,
    {
        let x: usize = i % w;
        let y: usize = i / w;
        assert(y < h) by (nonlinear_arith)
            requires y == i as int / (w as int), i < w * h, w > 0;
        if ceiling || y != 0 {
            let rows: i64 = if ceiling { (h - y) as i64 } else { y as i64 };
            assert(h as i64 * UNIT <= (BAND_LIMIT as int) * UNIT);
            let dist: i64 = h as i64 * UNIT / rows;
            assert(0 <= dist <= (BAND_LIMIT as int) * UNIT) by (nonlinear_arith)
                requires dist == (h * UNIT) as int / (rows as int), rows >= 1, 0 < h <= BAND_LIMIT as int;
            let p = band_point_at(cam, dir, dist, tans[x]);
            let c = shade_surface(atlas, p, ceiling);
            surface.pixels.set(i, c);
        }
        i = i + 1;
    }
}

/// An open floor cell's colour is the atlas sample at the point's
/// fractions in the floor tile's region, halved.
pub proof fn lemma_open_floor_is_halved_sample(atlas: &Atlas, p: Vec2)
    requires
        wall_at(p.x as int / UNIT as int, p.y as int / UNIT as int) == 0,
    ensures
        shade_spec(atlas, p, false) == halve(
            atlas.sample_spec(
                region_u(frac(p.x as int), floor_at(p.x as int / UNIT as int, p.y as int / UNIT as int) as int),
                frac(p.y as int),
            ),
        ),
{
}

/// A band pixel's colour depends on the world point it sees alone, not on
/// the surface's size or the pixel's place: two pixels of any two bands
/// that see the same point have the same colour.
pub proof fn lemma_band_pixel_resolution_free(
    atlas: &Atlas,
    cam: Vec2,
    dir: Vec2,
    tans1: Seq<i64>,
    height1: int,
    x1: int,
    y1: int,
    tans2: Seq<i64>,
    height2: int,
    x2: int,
    y2: int,
    ceiling: bool,
)
    requires
        band_point(cam, dir, row_dist(height1, y1, ceiling), tans1[x1] as int) == band_point(
            cam,
            dir,
            row_dist(height2, y2, ceiling),
            tans2[x2] as int,
        ),
    ensures
        band_pixel(atlas, cam, dir, tans1, height1, x1, y1, ceiling) == band_pixel(
            atlas,
            cam,
            dir,
            tans2,
            height2,
            x2,
            y2,
            ceiling,
        ),
{
}

} // verus!
