use raycast::fixed::UNIT;
use raycast::ray::{Raycast, Vec2};
use raycast::sprite::{project_sprite, sprite_geometry, SpriteGeometry};
use raycast::surface::{fill_band, shade_surface, Atlas, Rgb, Surface, FLOOR_WALL_ROW};
use raycast::walls::{perp_distance, render_walls, strip_height, wall_texel, Blit, Sheet};

const U: i64 = UNIT;

fn v(x: i64, y: i64) -> Vec2 {
    Vec2 { x, y }
}

fn mid() -> Vec2 {
    v(3 * U + U / 2, 3 * U + U / 2)
}

#[test]
fn depth_straight_ahead_is_exact() {
    assert_eq!(perp_distance(mid(), v(U, 0), v(7 * U, 3 * U + U / 2)), 3 * U + U / 2);
}

#[test]
fn depth_same_for_every_column_on_a_flat_wall() {
    let a = perp_distance(mid(), v(U, 0), v(7 * U, U));
    let b = perp_distance(mid(), v(U, 0), v(7 * U, 6 * U + 123));
    assert_eq!(a, 3 * U + U / 2);
    assert_eq!(a, b);
    let n = perp_distance(v(U, U), v(0, U), v(5 * U + 77, 5 * U));
    assert_eq!(n, 4 * U);
}

#[test]
fn strip_heights() {
    assert_eq!(strip_height(U), 600);
    assert_eq!(strip_height(3 * U + U / 2), 172);
    assert_eq!(strip_height(300 * U), 4);
    assert_eq!(strip_height(0), u32::MAX);
    assert_eq!(strip_height(-5), 0);
}

#[test]
fn texel_choice_by_face() {
    let east = Raycast { x: 7 * U, y: 3 * U + U / 2, tile_type: 1 };
    assert_eq!(wall_texel(&east), (8, Sheet::Walls));
    let north = Raycast { x: U + U / 4, y: U, tile_type: 3 };
    assert_eq!(wall_texel(&north), (4 + 32, Sheet::ShadedWalls));
}

#[test]
fn wall_pass_writes_depth_and_strips() {
    let rays = vec![v(U, 0), v(-U, 0)];
    let mut depth = vec![9999 * U; 2];
    let out = render_walls(mid(), v(U, 0), &rays, &mut depth);
    assert_eq!(depth, vec![3 * U + U / 2, -(2 * U + U / 2)]);
    assert_eq!(
        out,
        vec![
            Blit {
                sheet: Sheet::Walls,
                src_x: 8,
                src_height: 16,
                center_x: 2,
                center_y: 300,
                width: 4,
                height: 172,
            },
            Blit {
                sheet: Sheet::Walls,
                src_x: 8,
                src_height: 16,
                center_x: 6,
                center_y: 300,
                width: 4,
                height: 0,
            },
        ]
    );
}

#[test]
fn wall_pass_open_columns_keep_sentinel() {
    let rays = vec![v(U, 0), v(0, U), v(U, U)];
    let mut depth = vec![9999 * U; 3];
    let out = render_walls(v(20 * U, 20 * U), v(U, 0), &rays, &mut depth);
    assert!(out.is_empty());
    assert_eq!(depth, vec![9999 * U; 3]);
}

const VIEW_TAN: i64 = 50287;

#[test]
fn sprite_geometry_ahead() {
    let s = v(8 * U + U / 2, 3 * U + U / 2);
    let g = sprite_geometry(mid(), v(U, 0), VIEW_TAN, s).unwrap();
    assert_eq!(
        g,
        SpriteGeometry {
            forward: 5 * U,
            lateral: 0,
            size: 80,
            screen_x: 400,
            screen_y: 320,
            start: 90,
            end: 110,
        }
    );
}

#[test]
fn sprite_behind_camera_is_rejected() {
    let s = v(U + U / 2, 3 * U + U / 2);
    assert_eq!(sprite_geometry(mid(), v(U, 0), VIEW_TAN, s), None);
    let depth = vec![9999 * U; 200];
    assert!(project_sprite(mid(), v(U, 0), VIEW_TAN, s, &depth).is_empty());
}

#[test]
fn sprite_drawn_where_nothing_is_nearer() {
    let s = v(8 * U + U / 2, 3 * U + U / 2);
    let depth = vec![9999 * U; 200];
    let out = project_sprite(mid(), v(U, 0), VIEW_TAN, s, &depth);
    assert_eq!(out.len(), 20);
    assert_eq!(
        out[0],
        Blit { sheet: Sheet::Sprite, src_x: 0, src_height: 64, center_x: 362, center_y: 320, width: 4, height: 80 }
    );
    assert_eq!(out[1].src_x, 3);
    assert_eq!(out[19].center_x, 109 * 4 + 2);
}

#[test]
fn sprite_hidden_behind_nearer_wall() {
    // A wall two cells ahead in every column, the sprite five cells ahead.
    let s = v(8 * U + U / 2, 3 * U + U / 2);
    let depth = vec![2 * U; 200];
    assert!(project_sprite(mid(), v(U, 0), VIEW_TAN, s, &depth).is_empty());
}

#[test]
fn sprite_occluded_in_one_column_only() {
    let s = v(8 * U + U / 2, 3 * U + U / 2);
    let mut depth = vec![9999 * U; 200];
    depth[100] = 2 * U;
    let out = project_sprite(mid(), v(U, 0), VIEW_TAN, s, &depth);
    assert_eq!(out.len(), 19);
    assert!(out.iter().all(|b| b.center_x != 100 * 4 + 2));
}

#[test]
fn sprite_clipped_at_buffer_edge() {
    let s = v(8 * U + U / 2, 3 * U + U / 2);
    let depth = vec![9999 * U; 100];
    let out = project_sprite(mid(), v(U, 0), VIEW_TAN, s, &depth);
    assert_eq!(out.len(), 10);
    assert_eq!(out[9].center_x, 99 * 4 + 2);
}

fn atlas() -> Atlas {
    let mut texels = Vec::new();
    for y in 0..16u8 {
        for x in 0..64u8 {
            texels.push(Rgb { r: x * 3, g: y * 10, b: 200 });
        }
    }
    Atlas { width: 64, height: 16, texels }
}

#[test]
fn open_floor_is_halved_sample() {
    assert_eq!(shade_surface(&atlas(), mid(), false), Rgb { r: 36, g: 40, b: 100 });
}

#[test]
fn open_ceiling_with_empty_tile_clamps_to_edge() {
    assert_eq!(shade_surface(&atlas(), mid(), true), Rgb { r: 0, g: 40, b: 100 });
}

#[test]
fn wall_cell_samples_wall_row() {
    let a = atlas();
    let p = v(2 * U + U / 2, 2 * U + U / 2);
    assert_eq!(shade_surface(&a, p, false), Rgb { r: 120, g: 150, b: 200 });
    assert_eq!(shade_surface(&a, p, true), Rgb { r: 120, g: 0, b: 200 });
    assert_eq!(FLOOR_WALL_ROW * 16 / U, 15);
}

#[test]
fn wall_cell_near_grid_line_is_darkened() {
    let p = v(2 * U + U / 2, 2 * U + 1000);
    assert_eq!(shade_surface(&atlas(), p, false), Rgb { r: 75, g: 90, b: 125 });
}

#[test]
fn floor_band_fill() {
    let a = atlas();
    let mut s = Surface::new(2, 3);
    fill_band(&mut s, &a, mid(), v(U, 0), &vec![0, 0], false);
    let black = Rgb { r: 0, g: 0, b: 0 };
    let near = Rgb { r: 24, g: 40, b: 100 };
    let far = Rgb { r: 36, g: 40, b: 100 };
    assert_eq!(s.pixels, vec![black, black, far, far, near, near]);
}

#[test]
fn floor_colour_independent_of_resolution() {
    let a = atlas();
    let mut small = Surface::new(1, 3);
    fill_band(&mut small, &a, mid(), v(U, 0), &vec![0], false);
    let mut tall = Surface::new(3, 6);
    fill_band(&mut tall, &a, mid(), v(U, 0), &vec![0, 0, 0], false);
    // Row 1 of three and row 2 of six both see three cells ahead.
    assert_eq!(small.pixels[1], tall.pixels[2 * 3]);
    assert_eq!(small.pixels[1], Rgb { r: 36, g: 40, b: 100 });
}

#[test]
fn ceiling_band_fill() {
    let a = atlas();
    let mut s = Surface::new(1, 2);
    fill_band(&mut s, &a, mid(), v(U, 0), &vec![0], true);
    // Row 0 sees two cells ahead (5.5, 3.5), row 1 one cell (4.5, 3.5);
    // neither has a ceiling tile, so both sample the atlas edge.
    assert_eq!(s.pixels, vec![Rgb { r: 0, g: 40, b: 100 }, Rgb { r: 0, g: 40, b: 100 }]);
}
