use debug_overlay::counter::{Counter, CounterDescriptor, CounterId, Sample};
use debug_overlay::font::{GlyphAtlas, GlyphInfo};
use debug_overlay::geometry::{Point, Vertex, BACKGROUND_LAYER, FRONT_LAYER};
use debug_overlay::overlay::{Overlay, OverlayItem};
use debug_overlay::table::{
    add_point_to_rect, draw_cell, draw_cell_text, draw_cell_value, rect, Column, ColumnKind, Table,
};

/// A font of 96 glyphs from the space on, each 8 by 16 pixels; glyph `i`
/// starts at texel column `2 * i`, so that a vertex tells its character.
fn font() -> GlyphAtlas {
    let mut glyphs = Vec::new();
    for i in 0..96u16 {
        glyphs.push(GlyphInfo {
            uv0: (2 * i, 0),
            uv1: (2 * i + 8, 16),
            offset: (1, -12),
            x_advance: 9,
        });
    }
    GlyphAtlas {
        first_char: 32,
        atlas_width: 256,
        atlas_height: 128,
        font_height: 18,
        opaque_pixel: (0, 127),
        glyphs,
    }
}

fn point(x: i32, y: i32) -> Point {
    Point { x, y }
}

/// The characters that the quads of the pool show, read off their texels.
fn text_of(vertices: &[Vertex]) -> String {
    vertices
        .chunks(4)
        .map(|q| char::from_u32(32 + (q[0].uv >> 16) / 2).unwrap())
        .collect()
}

fn counter(descriptor: CounterDescriptor, window: &[Sample]) -> Counter {
    let mut c = Counter::new(descriptor);
    for (i, sample) in window.iter().enumerate() {
        c.set(Some(*sample));
        c.update(i + 1 == window.len());
    }
    c
}

#[test]
fn columns_are_built_step_by_step() {
    let kinds = [
        (Column::color(), ColumnKind::Color),
        (Column::name(), ColumnKind::Name),
        (Column::avg(), ColumnKind::Avg),
        (Column::min(), ColumnKind::Min),
        (Column::max(), ColumnKind::Max),
        (Column::value(), ColumnKind::Value),
        (Column::history_graph(), ColumnKind::HistoryGraph),
    ];
    for (column, kind) in kinds {
        assert_eq!(column.kind, kind);
        assert!(!column.unit);
        assert_eq!(column.label, None);
    }
    let column = Column::avg().with_unit().label("Avg");
    assert_eq!(column.kind, ColumnKind::Avg);
    assert!(column.unit);
    assert_eq!(column.label, Some("Avg"));
}

#[test]
fn a_box_is_stretched_to_hold_a_point() {
    let mut min = point(0, 0);
    let mut max = point(10, 10);
    add_point_to_rect(point(5, 20), &mut min, &mut max);
    assert_eq!((min, max), (point(0, 0), point(10, 20)));
    add_point_to_rect(point(-5, 3), &mut min, &mut max);
    assert_eq!((min, max), (point(-5, 0), point(10, 20)));
    assert_eq!(rect(((1, 2), (3, 4))), (point(1, 2), point(3, 4)));
}

#[test]
fn table_blank_cell_rule() {
    let mut overlay = Overlay::new(font());
    let c = Counter::new(CounterDescriptor::float("frame", "ms", CounterId(0)));
    assert_eq!(c.displayed_avg(), None);
    for column in [Column::avg(), Column::avg().with_unit(), Column::min(), Column::max(), Column::value()] {
        let area = draw_cell(30, 40, &column, &c, (255, 255, 255, 255), &mut overlay);
        assert_eq!(area, (point(30, 40), point(30, 40)));
    }
    assert!(overlay.geometry.vertices().is_empty());
    assert!(overlay.geometry.indices(FRONT_LAYER).is_empty());
    assert!(overlay.geometry.indices(BACKGROUND_LAYER).is_empty());
    let area = draw_cell_value(30, 40, None, &c, true, (255, 255, 255, 255), &mut overlay);
    assert_eq!(area, (point(30, 40), point(30, 40)));
    assert!(overlay.geometry.vertices().is_empty());
}

#[test]
fn a_value_is_right_aligned_in_five_characters() {
    let mut overlay = Overlay::new(font());
    let whole = Counter::new(CounterDescriptor::integer("n", "MB", CounterId(0)));
    let area = draw_cell_value(0, 0, Some(7), &whole, false, (0, 0, 0, 0), &mut overlay);
    assert_eq!(text_of(overlay.geometry.vertices()), "    7");
    assert_eq!(area, (point(0, -12), point(45, 4)));

    overlay.begin_frame();
    draw_cell_value(0, 0, Some(-1234567), &whole, true, (0, 0, 0, 0), &mut overlay);
    assert_eq!(text_of(overlay.geometry.vertices()), "-1234567MB");

    overlay.begin_frame();
    let parts = Counter::new(CounterDescriptor::float("t", "ms", CounterId(0)));
    draw_cell_value(0, 0, Some(150), &parts, true, (0, 0, 0, 0), &mut overlay);
    assert_eq!(text_of(overlay.geometry.vertices()), " 1.50ms");

    overlay.begin_frame();
    draw_cell_value(0, 0, Some(-7), &parts, false, (0, 0, 0, 0), &mut overlay);
    assert_eq!(text_of(overlay.geometry.vertices()), "-0.07");

    overlay.begin_frame();
    draw_cell_value(0, 0, Some(0), &parts, false, (0, 0, 0, 0), &mut overlay);
    assert_eq!(text_of(overlay.geometry.vertices()), " 0.00");
}

#[test]
fn a_name_shows_its_unit_in_brackets() {
    let mut overlay = Overlay::new(font());
    let area = draw_cell_text(10, 58, "ab", "", (0, 0, 0, 0), &mut overlay);
    assert_eq!(text_of(overlay.geometry.vertices()), "ab");
    assert_eq!(area, (point(10, 46), point(28, 62)));
    overlay.begin_frame();
    draw_cell_text(10, 58, "frame", "ms", (0, 0, 0, 0), &mut overlay);
    assert_eq!(text_of(overlay.geometry.vertices()), "frame (ms)");

    let c = Counter::new(CounterDescriptor::float("frame", "ms", CounterId(0)));
    overlay.begin_frame();
    draw_cell(0, 0, &Column::name(), &c, (0, 0, 0, 0), &mut overlay);
    assert_eq!(text_of(overlay.geometry.vertices()), "frame");
    overlay.begin_frame();
    draw_cell(0, 0, &Column::name().with_unit(), &c, (0, 0, 0, 0), &mut overlay);
    assert_eq!(text_of(overlay.geometry.vertices()), "frame (ms)");
    let plain = Counter::new(CounterDescriptor::integer("count", "", CounterId(0)));
    overlay.begin_frame();
    draw_cell(0, 0, &Column::name().with_unit(), &plain, (0, 0, 0, 0), &mut overlay);
    assert_eq!(text_of(overlay.geometry.vertices()), "count");
}

#[test]
fn cells_show_the_statistics_of_the_last_window() {
    let mut overlay = Overlay::new(font());
    let mut c = counter(CounterDescriptor::integer("n", "u", CounterId(0)), &[40, 20, 90]);
    c.set(Some(33));
    let shown = |column: Column, overlay: &mut Overlay| {
        overlay.begin_frame();
        draw_cell(0, 0, &column, &c, (0, 0, 0, 0), overlay);
        text_of(overlay.geometry.vertices())
    };
    assert_eq!(shown(Column::avg(), &mut overlay), "   50");
    assert_eq!(shown(Column::min(), &mut overlay), "   20");
    assert_eq!(shown(Column::max().with_unit(), &mut overlay), "   90u");
    assert_eq!(shown(Column::value(), &mut overlay), "   33");
    assert_eq!(shown(Column { kind: ColumnKind::Empty, unit: true, label: None }, &mut overlay), "");
    assert_eq!(shown(Column { kind: ColumnKind::Changed, unit: true, label: None }, &mut overlay), "");
}

#[test]
fn a_swatch_is_ten_pixels_square() {
    let mut overlay = Overlay::new(font());
    let c = Counter::new(CounterDescriptor::integer("n", "", CounterId(0)).color((1, 2, 3, 4)));
    let area = draw_cell(30, 40, &Column::color(), &c, (9, 9, 9, 9), &mut overlay);
    assert_eq!(area, (point(30, 29), point(40, 39)));
    let vertices = overlay.geometry.vertices();
    assert_eq!(vertices.len(), 4);
    assert_eq!((vertices[0].x, vertices[0].y), (30, 29));
    assert_eq!((vertices[2].x, vertices[2].y), (40, 39));
    assert!(vertices.iter().all(|v| v.color == 0x0102_0304 && v.uv == 127));
    assert_eq!(overlay.geometry.indices(FRONT_LAYER), &vec![0, 1, 2, 0, 2, 3]);
}

#[test]
fn a_history_cell_is_one_pixel_per_frame_wide_and_one_line_high() {
    let mut overlay = Overlay::new(font());
    let mut c = Counter::new(CounterDescriptor::integer("n", "", CounterId(0)));
    let area = draw_cell(30, 40, &Column::history_graph(), &c, (9, 9, 9, 9), &mut overlay);
    assert_eq!(area, (point(30, 40), point(30, 40)));
    assert!(overlay.geometry.vertices().is_empty());

    c.enable_history(3);
    c.set(Some(9));
    c.update(false);
    c.set(Some(18));
    c.update(false);
    let area = draw_cell(30, 40, &Column::history_graph(), &c, (9, 9, 9, 9), &mut overlay);
    assert_eq!(area, (point(30, 22), point(33, 40)));
    let vertices = overlay.geometry.vertices();
    assert_eq!(vertices.len(), 8);
    assert_eq!((vertices[0].x, vertices[0].y), (31, 40));
    assert_eq!((vertices[2].x, vertices[2].y), (32, 31));
    assert_eq!((vertices[4].x, vertices[4].y), (32, 40));
    assert_eq!((vertices[6].x, vertices[6].y), (33, 22));
    assert!(vertices.iter().all(|v| v.color == 0x0909_0909));
}

#[test]
fn a_history_of_milliseconds_is_scaled_to_eight_of_them() {
    let mut overlay = Overlay::new(font());
    let mut whole = Counter::new(CounterDescriptor::integer("n", "ms", CounterId(0)));
    whole.enable_history(1);
    whole.set(Some(4));
    whole.update(false);
    draw_cell(0, 18, &Column::history_graph(), &whole, (0, 0, 0, 0), &mut overlay);
    assert_eq!(overlay.geometry.vertices()[2].y, 9);

    overlay.begin_frame();
    let mut parts = Counter::new(CounterDescriptor::float("n", "ms", CounterId(0)));
    parts.enable_history(1);
    parts.set(Some(400));
    parts.update(false);
    draw_cell(0, 18, &Column::history_graph(), &parts, (0, 0, 0, 0), &mut overlay);
    assert_eq!(overlay.geometry.vertices()[2].y, 9);

    overlay.begin_frame();
    let mut other = Counter::new(CounterDescriptor::integer("n", "s", CounterId(0)));
    other.enable_history(1);
    other.set(Some(4));
    other.update(false);
    draw_cell(0, 18, &Column::history_graph(), &other, (0, 0, 0, 0), &mut overlay);
    assert_eq!(overlay.geometry.vertices()[2].y, 0);
}

#[test]
fn a_table_is_drawn_column_by_column() {
    let mut overlay = Overlay::new(font());
    let first = counter(CounterDescriptor::float("ab", "ms", CounterId(0)), &[150]);
    let second = Counter::new(CounterDescriptor::float("c", "ms", CounterId(1)));
    let columns = [Column::name().label("Name"), Column::avg().with_unit().label("Avg")];
    let rows = [&first, &second];
    let table = Table { columns: &columns, rows: &rows, labels: true };
    let area = table.draw(point(10, 10), &mut overlay);
    assert_eq!(area, (point(10, 10), point(129, 82)));
    let vertices = overlay.geometry.vertices();
    assert_eq!(text_of(vertices), "NameabcAvg 1.50ms");
    assert_eq!(vertices.len(), 68);
    assert_eq!(overlay.geometry.indices(FRONT_LAYER).len(), 102);
    assert!(overlay.geometry.indices(BACKGROUND_LAYER).is_empty());
    let starts: Vec<(i32, i32)> = vertices.chunks(4).map(|q| (q[0].x, q[0].y)).collect();
    // The label, then the rows one row and one margin lower, 20 pixels apart.
    assert_eq!(starts[0], (11, 16));
    assert_eq!(starts[4], (11, 46));
    assert_eq!(starts[6], (11, 66));
    // The second column starts 20 pixels right of the first one's widest cell.
    assert_eq!(starts[7], (67, 16));
    assert_eq!(starts[10], (67, 46));
    let colors: Vec<u32> = vertices.chunks(4).map(|q| q[0].color).collect();
    assert!(colors[0..4].iter().all(|c| *c == 0x7896_ffff));
    assert!(colors[4..6].iter().all(|c| *c == 0xffff_ffff));
    assert_eq!(colors[6], 0xc8c8_c8ff);
    assert!(colors[7..10].iter().all(|c| *c == 0x7896_ffff));
    assert!(colors[10..].iter().all(|c| *c == 0xffff_ffff));
}

#[test]
fn a_table_without_labels_starts_with_its_rows() {
    let mut overlay = Overlay::new(font());
    let first = Counter::new(CounterDescriptor::integer("ab", "", CounterId(0)));
    let columns = [Column::name().label("Name"), Column::name()];
    let rows = [&first];
    let table = Table { columns: &columns, rows: &rows, labels: false };
    let area = table.draw(point(10, 10), &mut overlay);
    let vertices = overlay.geometry.vertices();
    assert_eq!(text_of(vertices), "abab");
    assert_eq!((vertices[0].x, vertices[0].y), (11, 16));
    assert_eq!((vertices[8].x, vertices[8].y), (49, 16));
    assert_eq!(area, (point(10, 10), point(66, 32)));
}

#[test]
fn a_table_without_columns_or_rows_draws_nothing() {
    let mut overlay = Overlay::new(font());
    let c = Counter::new(CounterDescriptor::integer("ab", "", CounterId(0)));
    let rows = [&c];
    let table = Table { columns: &[], rows: &rows, labels: true };
    assert_eq!(table.draw(point(3, 4), &mut overlay), (point(3, 4), point(3, 4)));
    let columns = [Column::name(), Column::avg()];
    let table = Table { columns: &columns, rows: &[], labels: true };
    assert_eq!(table.draw(point(3, 4), &mut overlay), (point(3, 4), point(3, 4)));
    assert!(overlay.geometry.vertices().is_empty());
}

#[test]
fn a_row_outside_its_safe_range_is_highlighted() {
    let mut overlay = Overlay::new(font());
    let calm = counter(
        CounterDescriptor::integer("a", "", CounterId(0)).safe_range(0..100),
        &[50],
    );
    let high = counter(
        CounterDescriptor::integer("b", "", CounterId(1)).safe_range(0..100),
        &[150],
    );
    let low = counter(
        CounterDescriptor::integer("c", "", CounterId(2)).safe_range(0..100),
        &[-1],
    );
    let unknown = Counter::new(CounterDescriptor::integer("d", "", CounterId(3)).safe_range(0..100));
    let columns = [Column::name()];
    let rows = [&calm, &high, &low, &unknown, &calm];
    let table = Table { columns: &columns, rows: &rows, labels: false };
    table.draw(point(0, 0), &mut overlay);
    let colors: Vec<u32> = overlay.geometry.vertices().chunks(4).map(|q| q[0].color).collect();
    assert_eq!(
        colors,
        vec![0xffff_ffff, 0xff64_64ff, 0xff64_64ff, 0xc8c8_c8ff, 0xffff_ffff]
    );
}

#[test]
fn a_table_is_an_item() {
    let mut overlay = Overlay::new(font());
    let first = Counter::new(CounterDescriptor::integer("ab", "", CounterId(0)));
    let columns = [Column::name()];
    let rows = [&first];
    overlay.draw_item(&Table { columns: &columns, rows: &rows, labels: false });
    assert_eq!(overlay.group_area(), (point(10, 10), point(28, 32)));
    overlay.finish();
    assert_eq!(overlay.geometry.indices(BACKGROUND_LAYER).len(), 6);
    assert_eq!(overlay.geometry.indices(FRONT_LAYER).len(), 12);
}
