use debug_overlay::font::{expand_to_rgba, GlyphAtlas, GlyphInfo};
use debug_overlay::geometry::{
    color_to_u32, uv_to_u32, OverlayGeometry, Point, Upload, Vertex, BACKGROUND_LAYER, FRONT_LAYER,
};
use debug_overlay::pixel::{clamp_px, clamp_px_wide, div_toward_zero, max_i32, min_i32, px_add};

/// A font of 96 glyphs from the space on, each 8 by 16 pixels; glyph `i`
/// starts at texel column `2 * i`.
fn font() -> GlyphAtlas {
    let mut glyphs = Vec::new();
    for i in 0..96u16 {
        glyphs.push(GlyphInfo {
            uv0: (2 * i, 0),
            uv1: (2 * i + 8, 16),
            offset: (1, -12),
            x_advance: 9,
        });
    }
    GlyphAtlas {
        first_char: 32,
        atlas_width: 256,
        atlas_height: 128,
        font_height: 18,
        opaque_pixel: (0, 127),
        glyphs,
    }
}

fn corners(vertices: &[Vertex]) -> Vec<(i32, i32)> {
    vertices.iter().map(|v| (v.x, v.y)).collect()
}

const WHITE: u32 = 0xffff_ffff;

#[test]
fn a_color_is_packed_red_first() {
    assert_eq!(color_to_u32((0x12, 0x34, 0x56, 0x78)), 0x1234_5678);
    assert_eq!(color_to_u32((255, 255, 255, 255)), 0xffff_ffff);
    assert_eq!(color_to_u32((0, 0, 0, 0)), 0);
    assert_eq!(color_to_u32((0, 0, 0, 200)), 200);
    assert_eq!(color_to_u32((1, 0, 0, 0)), 0x0100_0000);
}

#[test]
fn a_texel_is_packed_column_first() {
    assert_eq!(uv_to_u32((0x1234, 0x5678)), 0x1234_5678);
    assert_eq!(uv_to_u32((0, 127)), 127);
    assert_eq!(uv_to_u32((0xffff, 0xffff)), 0xffff_ffff);
}

#[test]
fn a_new_geometry_is_empty() {
    let g = OverlayGeometry::new(3, font());
    assert_eq!(g.layer_count(), 3);
    assert!(g.vertices().is_empty());
    for layer in 0..3 {
        assert!(g.indices(layer).is_empty());
    }
    assert_eq!(g.font().font_height, 18);
    assert_eq!((g.font().atlas_width, g.font().atlas_height), (256, 128));
    assert_eq!(g.font().first_char, 32);
    assert_eq!(g.font().opaque_pixel, (0, 127));
    assert_eq!(g.font().glyphs.len(), 96);
    let none = OverlayGeometry::new(0, font());
    assert_eq!(none.layer_count(), 0);
}

#[test]
fn a_rectangle_is_one_quad_with_a_gradient() {
    let mut g = OverlayGeometry::new(2, font());
    let rect = (Point { x: 1, y: 2 }, Point { x: 30, y: 40 });
    g.push_rectangle(BACKGROUND_LAYER, &rect, (1, 2, 3, 4), (5, 6, 7, 8));
    assert_eq!(corners(g.vertices()), vec![(1, 2), (30, 2), (30, 40), (1, 40)]);
    let colors: Vec<u32> = g.vertices().iter().map(|v| v.color).collect();
    assert_eq!(colors, vec![0x0102_0304, 0x0102_0304, 0x0506_0708, 0x0506_0708]);
    assert!(g.vertices().iter().all(|v| v.uv == 127));
    assert_eq!(g.indices(BACKGROUND_LAYER), &vec![0, 1, 2, 0, 2, 3]);
    assert!(g.indices(FRONT_LAYER).is_empty());

    g.push_rectangle(FRONT_LAYER, &rect, (0, 0, 0, 0), (0, 0, 0, 0));
    assert_eq!(g.vertices().len(), 8);
    assert_eq!(g.indices(BACKGROUND_LAYER), &vec![0, 1, 2, 0, 2, 3]);
    assert_eq!(g.indices(FRONT_LAYER), &vec![4, 5, 6, 4, 6, 7]);
}

#[test]
fn a_glyph_is_one_quad_of_its_texels() {
    let mut g = OverlayGeometry::new(2, font());
    let bounds = g.push_text(FRONT_LAYER, "A", Point { x: 10, y: 20 }, (255, 255, 255, 255));
    assert_eq!(bounds, (Point { x: 10, y: 8 }, Point { x: 19, y: 24 }));
    assert_eq!(corners(g.vertices()), vec![(11, 8), (19, 8), (19, 24), (11, 24)]);
    let uvs: Vec<u32> = g.vertices().iter().map(|v| v.uv).collect();
    assert_eq!(
        uvs,
        vec![66 << 16, 74 << 16, (74 << 16) | 16, (66 << 16) | 16]
    );
    assert!(g.vertices().iter().all(|v| v.color == WHITE));
    assert_eq!(g.indices(FRONT_LAYER), &vec![0, 1, 2, 0, 2, 3]);
    assert!(g.indices(BACKGROUND_LAYER).is_empty());
}

#[test]
fn the_pen_moves_by_the_advance() {
    let mut g = OverlayGeometry::new(2, font());
    let bounds = g.push_text(FRONT_LAYER, "AB ", Point { x: 0, y: 0 }, (0, 0, 0, 255));
    assert_eq!(g.vertices().len(), 12);
    assert_eq!(g.vertices()[0].x, 1);
    assert_eq!(g.vertices()[4].x, 10);
    assert_eq!(g.vertices()[8].x, 19);
    assert_eq!(g.vertices()[8].uv, 0);
    assert_eq!(bounds, (Point { x: 0, y: -12 }, Point { x: 27, y: 4 }));
    assert_eq!(
        g.indices(FRONT_LAYER),
        &vec![0, 1, 2, 0, 2, 3, 4, 5, 6, 4, 6, 7, 8, 9, 10, 8, 10, 11]
    );
}

#[test]
fn a_line_feed_starts_a_line_at_the_left_edge() {
    let mut g = OverlayGeometry::new(2, font());
    let bounds = g.push_text(FRONT_LAYER, "A\nB", Point { x: 10, y: 20 }, (255, 255, 255, 255));
    assert_eq!(bounds, (Point { x: 10, y: 8 }, Point { x: 19, y: 42 }));
    assert_eq!(
        corners(g.vertices()),
        vec![(11, 8), (19, 8), (19, 24), (11, 24), (11, 26), (19, 26), (19, 42), (11, 42)]
    );
}

#[test]
fn a_line_feed_goes_back_to_the_left_edge_of_what_was_drawn() {
    let mut atlas = font();
    for glyph in atlas.glyphs.iter_mut() {
        glyph.offset = (-3, -12);
    }
    let mut g = OverlayGeometry::new(2, atlas);
    g.push_text(FRONT_LAYER, "A\nB", Point { x: 10, y: 20 }, (255, 255, 255, 255));
    // The first glyph reaches back to 7, and the second line starts there.
    assert_eq!(g.vertices()[0].x, 7);
    assert_eq!(g.vertices()[4].x, 4);
}

#[test]
fn characters_without_a_glyph_are_passed_over() {
    let mut g = OverlayGeometry::new(2, font());
    let bounds = g.push_text(
        FRONT_LAYER,
        "\t\u{80}\u{e9}\u{1}",
        Point { x: 10, y: 20 },
        (255, 255, 255, 255),
    );
    assert_eq!(bounds, (Point { x: 10, y: 20 }, Point { x: 10, y: 20 }));
    assert!(g.vertices().is_empty());
    assert!(g.indices(FRONT_LAYER).is_empty());

    let bounds = g.push_text(FRONT_LAYER, "\tA\u{e9}", Point { x: 10, y: 20 }, (255, 255, 255, 255));
    assert_eq!(bounds, (Point { x: 10, y: 8 }, Point { x: 19, y: 24 }));
    assert_eq!(g.vertices().len(), 4);
    assert_eq!(g.vertices()[0].x, 11);

    // The last character of the font has a glyph, the one after it has none.
    let mut g = OverlayGeometry::new(2, font());
    g.push_text(FRONT_LAYER, "\u{7f}\u{80}", Point { x: 0, y: 0 }, (0, 0, 0, 0));
    assert_eq!(g.vertices().len(), 4);
    assert_eq!(g.vertices()[0].uv, 190 << 16);
}

#[test]
fn an_empty_text_draws_nothing() {
    let mut g = OverlayGeometry::new(2, font());
    let bounds = g.push_text(FRONT_LAYER, "", Point { x: -5, y: 7 }, (255, 255, 255, 255));
    assert_eq!(bounds, (Point { x: -5, y: 7 }, Point { x: -5, y: 7 }));
    assert!(g.vertices().is_empty());
}

#[test]
fn a_glyph_with_swapped_corners_has_no_size() {
    let mut atlas = font();
    atlas.glyphs[1] = GlyphInfo { uv0: (20, 30), uv1: (10, 40), offset: (0, 0), x_advance: 5 };
    assert_eq!(atlas.glyphs[1].width(), 0);
    assert_eq!(atlas.glyphs[1].height(), 10);
    let mut g = OverlayGeometry::new(1, atlas);
    let bounds = g.push_text(0, "!", Point { x: 0, y: 0 }, (0, 0, 0, 0));
    assert_eq!(corners(g.vertices()), vec![(0, 0), (0, 0), (0, 10), (0, 10)]);
    assert_eq!(bounds, (Point { x: 0, y: 0 }, Point { x: 0, y: 10 }));
}

#[test]
fn text_at_the_edge_of_the_pixel_range_stays_inside() {
    let mut g = OverlayGeometry::new(1, font());
    let bounds = g.push_text(0, "AA\nA", Point { x: i32::MAX - 5, y: i32::MAX - 20 }, (0, 0, 0, 0));
    assert_eq!(g.vertices()[0].x, i32::MAX - 4);
    assert_eq!(g.vertices()[1].x, i32::MAX);
    assert_eq!(g.vertices()[4].x, i32::MAX);
    assert_eq!(g.vertices()[8].y, i32::MAX - 14);
    assert_eq!(bounds.1, Point { x: i32::MAX, y: i32::MAX });
}

#[test]
fn a_mesh_counts_its_indices_from_its_first_vertex() {
    let mut g = OverlayGeometry::new(2, font());
    let rect = (Point { x: 0, y: 0 }, Point { x: 1, y: 1 });
    g.push_rectangle(FRONT_LAYER, &rect, (0, 0, 0, 0), (0, 0, 0, 0));
    let points = [Point { x: 5, y: 6 }, Point { x: 7, y: 8 }, Point { x: 9, y: 10 }];
    g.push_mesh(BACKGROUND_LAYER, &points, &[0, 1, 2, 2, 1, 0], (9, 8, 7, 6));
    assert_eq!(g.vertices().len(), 7);
    assert_eq!(corners(&g.vertices()[4..]), vec![(5, 6), (7, 8), (9, 10)]);
    assert!(g.vertices()[4..].iter().all(|v| v.uv == 127 && v.color == 0x0908_0706));
    assert_eq!(g.indices(BACKGROUND_LAYER), &vec![4, 5, 6, 6, 5, 4]);
    assert_eq!(g.indices(FRONT_LAYER), &vec![0, 1, 2, 0, 2, 3]);
    g.push_mesh(BACKGROUND_LAYER, &[], &[], (0, 0, 0, 0));
    assert_eq!(g.vertices().len(), 7);
    assert_eq!(g.indices(BACKGROUND_LAYER).len(), 6);
}

#[test]
fn indices_wrap_around_after_sixteen_bits() {
    let mut g = OverlayGeometry::new(1, font());
    let rect = (Point { x: 0, y: 0 }, Point { x: 1, y: 1 });
    for _ in 0..16383 {
        g.push_rectangle(0, &rect, (0, 0, 0, 0), (0, 0, 0, 0));
    }
    g.push_mesh(0, &[Point { x: 0, y: 0 }, Point { x: 0, y: 0 }], &[0, 1], (0, 0, 0, 0));
    assert_eq!(g.vertices().len(), 65534);
    g.push_rectangle(0, &rect, (0, 0, 0, 0), (0, 0, 0, 0));
    let indices = g.indices(0);
    assert_eq!(&indices[indices.len() - 6..], &[65534, 65535, 0, 65534, 0, 1]);
    g.push_mesh(0, &[Point { x: 0, y: 0 }], &[0, 65535], (0, 0, 0, 0));
    let indices = g.indices(0);
    assert_eq!(&indices[indices.len() - 2..], &[2, 1]);
}

#[test]
fn a_frame_starts_with_empty_buffers() {
    let mut g = OverlayGeometry::new(2, font());
    g.push_text(FRONT_LAYER, "abc", Point { x: 0, y: 0 }, (0, 0, 0, 0));
    g.push_rectangle(
        BACKGROUND_LAYER,
        &(Point { x: 0, y: 0 }, Point { x: 1, y: 1 }),
        (0, 0, 0, 0),
        (0, 0, 0, 0),
    );
    g.begin_frame();
    assert_eq!(g.layer_count(), 2);
    assert!(g.vertices().is_empty());
    assert!(g.indices(BACKGROUND_LAYER).is_empty());
    assert!(g.indices(FRONT_LAYER).is_empty());
    assert_eq!(g.font().glyphs.len(), 96);
}

#[test]
fn every_index_names_a_vertex() {
    let mut g = OverlayGeometry::new(2, font());
    g.push_text(FRONT_LAYER, "hello\nworld", Point { x: 3, y: 4 }, (1, 1, 1, 1));
    g.push_rectangle(
        BACKGROUND_LAYER,
        &(Point { x: 0, y: 0 }, Point { x: 9, y: 9 }),
        (0, 0, 0, 0),
        (0, 0, 0, 0),
    );
    g.push_mesh(FRONT_LAYER, &[Point { x: 0, y: 0 }; 3], &[0, 1, 2], (0, 0, 0, 0));
    let n = g.vertices().len();
    assert_eq!(n, 40 + 4 + 3);
    for layer in 0..2 {
        assert!(g.indices(layer).iter().all(|i| (*i as usize) < n));
    }
}

#[test]
fn glyphs_are_looked_up_by_character() {
    let atlas = font();
    assert_eq!(atlas.glyph(' ').unwrap().uv0, (0, 0));
    assert_eq!(atlas.glyph('A').unwrap().uv0, (66, 0));
    assert_eq!(atlas.glyph('\u{7f}').unwrap().uv0, (190, 0));
    assert!(atlas.glyph('\u{80}').is_none());
    assert!(atlas.glyph('\u{1f}').is_none());
    assert!(atlas.glyph('\u{10ffff}').is_none());
}

#[test]
fn baked_corners_are_put_in_order() {
    let g = GlyphInfo::from_corners(9, 2, 3, 7, (-1, 4), 6);
    assert_eq!((g.uv0, g.uv1), ((3, 2), (9, 7)));
    assert_eq!(g.offset, (-1, 4));
    assert_eq!(g.x_advance, 6);
    assert_eq!((g.width(), g.height()), (6, 5));
    let h = GlyphInfo::from_corners(3, 7, 9, 2, (0, 0), 0);
    assert_eq!((h.uv0, h.uv1), ((3, 2), (9, 7)));
}

#[test]
fn gray_levels_become_opaque_pixels() {
    assert_eq!(expand_to_rgba(&[]), Vec::<u8>::new());
    assert_eq!(
        expand_to_rgba(&[0, 7, 255]),
        vec![0, 0, 0, 255, 7, 7, 7, 255, 255, 255, 255, 255]
    );
}

#[test]
fn pixel_arithmetic_stops_at_the_ends_of_the_range() {
    assert_eq!(px_add(1, 2), 3);
    assert_eq!(px_add(i32::MAX, 1), i32::MAX);
    assert_eq!(px_add(i32::MIN, -1), i32::MIN);
    assert_eq!(px_add(5, -7), -2);
    assert_eq!(clamp_px(i64::MAX), i32::MAX);
    assert_eq!(clamp_px(i64::MIN), i32::MIN);
    assert_eq!(clamp_px(-17), -17);
    assert_eq!(clamp_px_wide(i128::MAX), i32::MAX);
    assert_eq!(clamp_px_wide(i128::MIN), i32::MIN);
    assert_eq!(clamp_px_wide(2147483647), i32::MAX);
    assert_eq!(clamp_px_wide(-2147483648), i32::MIN);
    assert_eq!(min_i32(3, -4), -4);
    assert_eq!(max_i32(3, -4), 3);
}

#[test]
fn quotients_are_rounded_toward_zero() {
    assert_eq!(div_toward_zero(7, 2), 3);
    assert_eq!(div_toward_zero(-7, 2), -3);
    assert_eq!(div_toward_zero(7, -2), -3);
    assert_eq!(div_toward_zero(-7, -2), 3);
    assert_eq!(div_toward_zero(0, -5), 0);
    assert_eq!(div_toward_zero(6, 3), 2);
}

#[test]
fn a_pair_of_coordinates_is_a_point() {
    assert_eq!(Point::from((3, -4)), Point { x: 3, y: -4 });
    let p: Point = (i32::MIN, i32::MAX).into();
    assert_eq!(p, Point { x: i32::MIN, y: i32::MAX });
}

#[test]
fn a_copy_is_planned_from_what_the_buffers_hold() {
    let mut g = OverlayGeometry::new(2, font());
    let empty = Upload {
        new_vertex_buffer: true,
        new_index_buffer: true,
        vertex_count: 0,
        index_count: 0,
    };
    assert_eq!(g.plan_upload(None, None), Some(empty));
    // A buffer that holds nothing is made anew even for nothing.
    assert_eq!(g.plan_upload(Some(0), Some(0)), Some(empty));
    g.push_text(FRONT_LAYER, "ab", Point { x: 0, y: 0 }, (0, 0, 0, 0));
    g.push_rectangle(
        BACKGROUND_LAYER,
        &(Point { x: 0, y: 0 }, Point { x: 1, y: 1 }),
        (0, 0, 0, 0),
        (0, 0, 0, 0),
    );
    let plan = |vertices, indices| g.plan_upload(vertices, indices).unwrap();
    assert_eq!(
        plan(None, None),
        Upload { new_vertex_buffer: true, new_index_buffer: true, vertex_count: 12, index_count: 18 }
    );
    assert_eq!(
        plan(Some(12), Some(19)),
        Upload { new_vertex_buffer: true, new_index_buffer: false, vertex_count: 12, index_count: 18 }
    );
    assert_eq!(
        plan(Some(13), Some(18)),
        Upload { new_vertex_buffer: false, new_index_buffer: true, vertex_count: 12, index_count: 18 }
    );
    assert_eq!(
        plan(Some(usize::MAX), Some(17)),
        Upload { new_vertex_buffer: false, new_index_buffer: true, vertex_count: 12, index_count: 18 }
    );
}
