//! Billboard sprites: camera-space projection and column-wise occlusion
//! against the wall pass's depth buffer.
use vstd::prelude::*;
use crate::fixed::{UNIT, floor_div};
use crate::ray::{COORD_LIMIT, Vec2, valid_point};
use crate::walls::{Blit, Sheet, COLUMN_WIDTH, HORIZON, COLUMN_LIMIT};

verus! {

/// Screen width in pixels.
pub const SCREEN_WIDTH: i64 = 800;

/// On-screen size, in pixels, of a sprite one cell ahead.
pub const SPRITE_SCALE: i64 = 400;

/// Texels across the sprite image.
pub const SPRITE_TEXELS: i64 = 64;

/// Largest accepted view tangent (fixed-point).
pub const VIEW_TAN_LIMIT: i64 = 1048576;

/// Where a sprite in front of the camera lands on screen.
#[derive(Clone, Copy, Debug, PartialEq, Eq, Structural)]
pub struct SpriteGeometry {
    /// Distance ahead along the view axis, fixed-point.
    pub forward: i64,
    /// Sideways offset, fixed-point.
    pub lateral: i64,
    /// On-screen size in pixels.
    pub size: i64,
    pub screen_x: i64,
    pub screen_y: i64,
    /// First column covered.
    pub start: i64,
    /// One past the last column covered.
    pub end: i64,
}

pub open spec fn forward_spec(cam: Vec2, dir: Vec2, s: Vec2) -> int {
    ((s.x - cam.x) * dir.x + (s.y - cam.y) * dir.y) / (UNIT as int)
}

pub open spec fn lateral_spec(cam: Vec2, dir: Vec2, s: Vec2) -> int {
    ((s.y - cam.y) * dir.x - (s.x - cam.x) * dir.y) / (UNIT as int)
}

/// The geometry of a sprite at `s` seen from `cam` facing the unit vector
/// `dir`, with `view_tan` the tangent of half the field of view
/// (fixed-point); none when the sprite is not in front of the camera.
pub open spec fn geometry_spec(cam: Vec2, dir: Vec2, view_tan: int, s: Vec2) -> Option<SpriteGeometry> {
    let f = forward_spec(cam, dir, s);
    let l = lateral_spec(cam, dir, s);
    if f <= 0 {
        None
    } else {
        let size = SPRITE_SCALE * UNIT / f;
        let sx = (l * SCREEN_WIDTH * UNIT) / (view_tan * 2 * f) + SCREEN_WIDTH / 2;
        let sy = HORIZON * UNIT / f + HORIZON - size / 2;
        Some(
            SpriteGeometry {
                forward: f as i64,
                lateral: l as i64,
                size: size as i64,
                screen_x: sx as i64,
                screen_y: sy as i64,
                start: ((sx - size / 2) / (COLUMN_WIDTH as int)) as i64,
                end: ((sx + size / 2) / (COLUMN_WIDTH as int)) as i64,
            },
        )
    }
}

/// Column `i` shows the sprite: it is covered, inside the depth buffer,
/// and no nearer wall was drawn there.
pub open spec fn column_visible(g: SpriteGeometry, depth: Seq<i64>, i: int) -> bool {
    &&& g.start <= i < g.end
    &&& 0 <= i < depth.len()
    &&& depth[i] > g.forward
}

/// The blit of column `i` of the sprite.
pub open spec fn sprite_column_blit(g: SpriteGeometry, i: int) -> Blit {
    Blit {
        sheet: Sheet::Sprite,
        src_x: ((i - g.start) * (SPRITE_TEXELS * COLUMN_WIDTH) / (g.size as int)) as i64,
        src_height: SPRITE_TEXELS as u32,
        center_x: (i * COLUMN_WIDTH + COLUMN_WIDTH / 2) as i64,
        center_y: g.screen_y,
        width: COLUMN_WIDTH as u32,
        height: g.size as u32,
    }
}

/// Blits of the visible sprite columns below `n`, in column order.
pub open spec fn sprite_blits_to(g: SpriteGeometry, depth: Seq<i64>, n: int) -> Seq<Blit>
    decreases n,
{
    if n <= 0 {
        Seq::empty()
    } else {
        let prev = sprite_blits_to(g, depth, n - 1);
        if column_visible(g, depth, n - 1) {
            prev.push(sprite_column_blit(g, n - 1))
        } else {
            prev
        }
    }
}

/// All blits of a sprite.
pub open spec fn sprite_blits(cam: Vec2, dir: Vec2, view_tan: int, s: Vec2, depth: Seq<i64>) -> Seq<Blit> {
    match geometry_spec(cam, dir, view_tan, s) {
        None => Seq::empty(),
        Some(g) => sprite_blits_to(g, depth, depth.len() as int),
    }
}

/// Projects a sprite into camera space and onto the screen.
pub fn sprite_geometry(cam: Vec2, dir: Vec2, view_tan: i64, s: Vec2) -> (r: Option<SpriteGeometry>)
    requires
        valid_point(cam),
        valid_point(s),
        -UNIT <= dir.x <= UNIT,
        -UNIT <= dir.y <= UNIT,
        1 <= view_tan <= VIEW_TAN_LIMIT,
    ensures
        r == geometry_spec(cam, dir, view_tan as int, s),
        r matches Some(g) ==> 0 < g.forward && 0 <= g.size <= SPRITE_SCALE * UNIT && g.end - g.start
            <= g.size,
{
    let tx: i64 = s.x - cam.x;
    let ty: i64 = s.y - cam.y;
    assert(-(2 * COORD_LIMIT * UNIT) <= tx * dir.x <= 2 * COORD_LIMIT * UNIT) by (nonlinear_arith)
        requires -2 * COORD_LIMIT <= tx <= 2 * COORD_LIMIT, -UNIT <= dir.x <= UNIT;
    assert(-(2 * COORD_LIMIT * UNIT) <= ty * dir.y <= 2 * COORD_LIMIT * UNIT) by (nonlinear_arith)
        requires -2 * COORD_LIMIT <= ty <= 2 * COORD_LIMIT, -UNIT <= dir.y <= UNIT;
    assert(-(2 * COORD_LIMIT * UNIT) <= ty * dir.x <= 2 * COORD_LIMIT * UNIT) by (nonlinear_arith)
        requires -2 * COORD_LIMIT <= ty <= 2 * COORD_LIMIT, -UNIT <= dir.x <= UNIT;
    assert(-(2 * COORD_LIMIT * UNIT) <= tx * dir.y <= 2 * COORD_LIMIT * UNIT) by (nonlinear_arith)
        requires -2 * COORD_LIMIT <= tx <= 2 * COORD_LIMIT, -UNIT <= dir.y <= UNIT;
    let f: i64 = floor_div(tx * dir.x + ty * dir.y, UNIT);
    let l: i64 = floor_div(ty * dir.x - tx * dir.y, UNIT);
    if f <= 0 {
        return None;
    }
    let size: i64 = SPRITE_SCALE * UNIT / f;
    assert(0 <= size <= SPRITE_SCALE * UNIT) by (nonlinear_arith)
        requires size == (SPRITE_SCALE * UNIT) / (f as int), f > 0;
    assert(-(4 * COORD_LIMIT) <= l <= 4 * COORD_LIMIT) by (nonlinear_arith)
        requires
            l == (ty * dir.x - tx * dir.y) / (UNIT as int),
            -(4 * COORD_LIMIT * UNIT) <= ty * dir.x - tx * dir.y <= 4 * COORD_LIMIT * UNIT;
    assert(-(4 * COORD_LIMIT * SCREEN_WIDTH * UNIT) <= l * (SCREEN_WIDTH * UNIT) <= 4 * COORD_LIMIT * SCREEN_WIDTH * UNIT)
        by (nonlinear_arith)
        requires -(4 * COORD_LIMIT) <= l <= 4 * COORD_LIMIT;
    assert(f <= 4 * COORD_LIMIT) by (nonlinear_arith)
        requires
            f == (tx * dir.x + ty * dir.y) / (UNIT as int),
            tx * dir.x + ty * dir.y <= 4 * COORD_LIMIT * UNIT;
    assert(0 < view_tan * 2 * f <= VIEW_TAN_LIMIT * 8 * COORD_LIMIT) by (nonlinear_arith)
        requires 1 <= view_tan <= VIEW_TAN_LIMIT, 0 < f <= 4 * COORD_LIMIT;
    let den: i64 = view_tan * 2 * f;
    let q: i64 = floor_div(l * (SCREEN_WIDTH * UNIT), den);
    assert(l * (SCREEN_WIDTH * UNIT) == l * SCREEN_WIDTH * UNIT) by (nonlinear_arith);
    let sx: i64 = q + SCREEN_WIDTH / 2;
    let sy: i64 = HORIZON * UNIT / f + HORIZON - size / 2;
    assert(0 <= (HORIZON * UNIT) as int / (f as int) <= HORIZON * UNIT) by (nonlinear_arith)
        requires f > 0;
    let start: i64 = floor_div(sx - size / 2, COLUMN_WIDTH);
    let end: i64 = floor_div(sx + size / 2, COLUMN_WIDTH);
    Some(SpriteGeometry { forward: f, lateral: l, size, screen_x: sx, screen_y: sy, start, end })
}

proof fn lemma_blits_skip(g: SpriteGeometry, depth: Seq<i64>, m: int, n: int)
    requires
        0 <= m <= n,
        forall|j: int| m <= j < n ==> !#[trigger] column_visible(g, depth, j),
    ensures
        sprite_blits_to(g, depth, n) == sprite_blits_to(g, depth, m),
    decreases n - m,
{
    if n > m {
        lemma_blits_skip(g, depth, m, n - 1);
    }
}

/// The sprite's blits, one per visible column, in column order.
pub fn project_sprite(cam: Vec2, dir: Vec2, view_tan: i64, s: Vec2, depth: &Vec<i64>) -> (r: Vec<Blit>)
    requires
        valid_point(cam),
        valid_point(s),
        -UNIT <= dir.x <= UNIT,
        -UNIT <= dir.y <= UNIT,
        1 <= view_tan <= VIEW_TAN_LIMIT,
        depth.len() <= COLUMN_LIMIT,
    ensures
        r@ == sprite_blits(cam, dir, view_tan as int, s, depth@),
{
    let mut out: Vec<Blit> = Vec::new();
    let g = match sprite_geometry(cam, dir, view_tan, s) {
        None => return out,
        Some(g) => g,
    };
    let len: i64 = depth.len() as i64;
    let lo: i64 = if g.start < 0 { 0 } else { g.start };
    let hi: i64 = if g.end > len { len } else { g.end };
    if lo >= hi || g.size == 0 {
        proof {
            lemma_blits_skip(g, depth@, 0, depth.len() as int);
        }
        return out;
    }
    proof {
        lemma_blits_skip(g, depth@, 0, lo as int);
    }
    let mut i: i64 = lo;
    while i < hi
        invariant
            g == geometry_spec(cam, dir, view_tan as int, s)->Some_0,
            0 < g.size <= SPRITE_SCALE * UNIT,
            0 <= lo <= i <= hi,
            g.start <= lo,
            g.end - g.start <= g.size,
            hi <= len,
            hi <= g.end,
            len == depth.len(),
            len <= COLUMN_LIMIT,
            out@ == sprite_blits_to(g, depth@, i as int),
        decreases hi - i,
    {
        let k: i64 = i - g.start;
        assert(0 <= k * (SPRITE_TEXELS * COLUMN_WIDTH) <= SPRITE_SCALE * UNIT * 256)
            by (nonlinear_arith)
            requires
                0 <= k <= SPRITE_SCALE * UNIT,
        ;
        if depth[i as usize] > g.forward {
            let blit = Blit {
                sheet: Sheet::Sprite,
                src_x: k * (SPRITE_TEXELS * COLUMN_WIDTH) / g.size,
                src_height: SPRITE_TEXELS as u32,
                center_x: i * COLUMN_WIDTH + COLUMN_WIDTH / 2,
                center_y: g.screen_y,
                width: COLUMN_WIDTH as u32,
                height: g.size as u32,
            };
            out.push(blit);
        }
        i = i + 1;
    }
    proof {
        lemma_blits_skip(g, depth@, hi as int, depth.len() as int);
    }
    out
}

proof fn lemma_occluded_column(g: SpriteGeometry, depth: Seq<i64>, n: int, i: int)
    requires
        !column_visible(g, depth, i),
        depth.len() <= COLUMN_LIMIT,
    ensures
        forall|k: int|
            0 <= k < sprite_blits_to(g, depth, n).len() ==> #[trigger] sprite_blits_to(g, depth, n)[k].center_x
                != i * COLUMN_WIDTH + COLUMN_WIDTH / 2,
    decreases n,
{
    if n > 0 {
        lemma_occluded_column(g, depth, n - 1, i);
    }
}

/// Occlusion: a column whose depth-buffer entry is not beyond the sprite
/// (a wall at or nearer than the sprite was drawn there) gets no sprite
/// blit.
pub proof fn lemma_sprite_occluded(cam: Vec2, dir: Vec2, view_tan: int, s: Vec2, depth: Seq<i64>, i: int)
    requires
        valid_point(cam),
        valid_point(s),
        -UNIT <= dir.x <= UNIT,
        -UNIT <= dir.y <= UNIT,
        0 <= i < depth.len(),
        depth.len() <= COLUMN_LIMIT,
        depth[i] <= forward_spec(cam, dir, s),
    ensures
        forall|k: int|
            0 <= k < sprite_blits(cam, dir, view_tan, s, depth).len() ==> #[trigger] sprite_blits(
                cam,
                dir,
                view_tan,
                s,
                depth,
            )[k].center_x != i * COLUMN_WIDTH + COLUMN_WIDTH / 2,
{
    let tx = s.x - cam.x;
    let ty = s.y - cam.y;
    assert(-(4 * COORD_LIMIT * UNIT) <= tx * dir.x + ty * dir.y <= 4 * COORD_LIMIT * UNIT) by (nonlinear_arith)
        requires
            -2 * COORD_LIMIT <= tx <= 2 * COORD_LIMIT,
            -2 * COORD_LIMIT <= ty <= 2 * COORD_LIMIT,
            -UNIT <= dir.x <= UNIT,
            -UNIT <= dir.y <= UNIT,
    ;
    assert(-(4 * COORD_LIMIT) <= forward_spec(cam, dir, s) <= 4 * COORD_LIMIT);
    if let Some(g) = geometry_spec(cam, dir, view_tan, s) {
        lemma_occluded_column(g, depth, depth.len() as int, i);
    }
}

} // verus!
