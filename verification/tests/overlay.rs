use debug_overlay::counter::Orientation;
use debug_overlay::font::{GlyphAtlas, GlyphInfo};
use debug_overlay::geometry::{Point, Vertex, BACKGROUND_LAYER, FRONT_LAYER};
use debug_overlay::overlay::{Overlay, OverlayItem, Style};

fn font() -> GlyphAtlas {
    let mut glyphs = Vec::new();
    for i in 0..96u16 {
        glyphs.push(GlyphInfo {
            uv0: (2 * i, 0),
            uv1: (2 * i + 8, 16),
            offset: (1, -12),
            x_advance: 9,
        });
    }
    GlyphAtlas {
        first_char: 32,
        atlas_width: 256,
        atlas_height: 128,
        font_height: 18,
        opaque_pixel: (0, 127),
        glyphs,
    }
}

fn point(x: i32, y: i32) -> Point {
    Point { x, y }
}

fn corners(vertices: &[Vertex]) -> Vec<(i32, i32)> {
    vertices.iter().map(|v| (v.x, v.y)).collect()
}

/// An item that takes up a fixed size below and right of where it is
/// drawn, draws one rectangle there, and notes nothing else.
struct Block {
    w: i32,
    h: i32,
}

impl OverlayItem for Block {
    fn draw(&self, position: Point, output: &mut Overlay) -> (Point, Point) {
        let rect = (position, point(position.x + self.w, position.y + self.h));
        output
            .geometry
            .push_rectangle(FRONT_LAYER, &rect, (1, 1, 1, 1), (1, 1, 1, 1));
        rect
    }
}

#[test]
fn the_standard_style() {
    let style = Style::default();
    assert_eq!(style.margin, 10);
    assert_eq!(style.line_spacing, 2);
    assert_eq!(style.min_group_width, 0);
    assert_eq!(style.min_group_height, 0);
    assert_eq!(style.column_spacing, 20);
    assert_eq!(style.background, [(0, 0, 0, 255), (0, 0, 0, 200)]);
    assert_eq!(style.text_color, [(255, 255, 255, 255), (200, 200, 200, 255)]);
    assert_eq!(style.title_color, (120, 150, 255, 255));
    assert_eq!(style.highlight_color, (255, 100, 100, 255));
}

#[test]
fn a_new_overlay_is_empty() {
    let overlay = Overlay::new(font());
    assert_eq!(overlay.style, Style::default());
    assert_eq!(overlay.cursor, point(10, 10));
    assert_eq!(overlay.item_flow, Orientation::Horizontal);
    assert_eq!(overlay.group_flow, Orientation::Vertical);
    assert_eq!(overlay.group_area(), (point(10, 10), point(10, 10)));
    assert!(!overlay.in_group());
    assert_eq!(overlay.geometry.layer_count(), 2);
    assert!(overlay.geometry.vertices().is_empty());
    assert_eq!(overlay.current_group_width(), 0);
    assert_eq!(overlay.current_group_height(), 0);
}

#[test]
fn layout_spacing() {
    let mut overlay = Overlay::new(font());
    overlay.item_flow = Orientation::Vertical;
    overlay.draw_item(&"A");
    // The first item has no gap before it: it is drawn at the group's origin.
    assert_eq!(overlay.cursor, point(10, 10));
    assert_eq!(overlay.group_area(), (point(10, 10), point(19, 32)));
    assert!(overlay.in_group());
    overlay.draw_item(&"B");
    // The second item starts one margin below the first one's rectangle.
    assert_eq!(overlay.cursor, point(10, 42));
    assert_eq!(overlay.cursor.y - 32, overlay.style.margin);
    assert_eq!(overlay.group_area(), (point(10, 10), point(19, 64)));
    overlay.draw_item(&"C");
    assert_eq!(overlay.cursor, point(10, 74));
    assert_eq!(
        corners(overlay.geometry.vertices()),
        vec![
            (11, 16), (19, 16), (19, 32), (11, 32),
            (11, 48), (19, 48), (19, 64), (11, 64),
            (11, 80), (19, 80), (19, 96), (11, 96),
        ]
    );
}

#[test]
fn items_follow_each_other_to_the_right() {
    let mut overlay = Overlay::new(font());
    overlay.draw_item(&Block { w: 30, h: 20 });
    assert_eq!(overlay.cursor, point(10, 10));
    overlay.draw_item(&Block { w: 5, h: 50 });
    assert_eq!(overlay.cursor, point(50, 10));
    assert_eq!(overlay.group_area(), (point(10, 10), point(55, 60)));
    assert_eq!(overlay.current_group_width(), 45);
    assert_eq!(overlay.current_group_height(), 50);
    overlay.draw_item(&Block { w: 1, h: 1 });
    assert_eq!(overlay.cursor, point(65, 10));
}

#[test]
fn a_group_gets_a_panel_one_margin_around_it() {
    let mut overlay = Overlay::new(font());
    overlay.item_flow = Orientation::Vertical;
    overlay.draw_item(&"A");
    overlay.draw_item(&"B");
    overlay.finish();
    assert!(!overlay.in_group());
    let vertices = overlay.geometry.vertices();
    assert_eq!(vertices.len(), 12);
    assert_eq!(corners(&vertices[8..]), vec![(0, 0), (29, 0), (29, 74), (0, 74)]);
    let colors: Vec<u32> = vertices[8..].iter().map(|v| v.color).collect();
    assert_eq!(colors, vec![0xff, 0xff, 0xc8, 0xc8]);
    assert!(vertices[8..].iter().all(|v| v.uv == 127));
    assert_eq!(overlay.geometry.indices(BACKGROUND_LAYER), &vec![8, 9, 10, 8, 10, 11]);
    assert_eq!(
        overlay.geometry.indices(FRONT_LAYER),
        &vec![0, 1, 2, 0, 2, 3, 4, 5, 6, 4, 6, 7]
    );
    // Finishing twice changes nothing.
    overlay.finish();
    assert_eq!(overlay.geometry.vertices().len(), 12);
}

#[test]
fn an_empty_group_leaves_no_trace() {
    let mut overlay = Overlay::new(font());
    overlay.draw_item(&"");
    assert!(overlay.in_group());
    overlay.end_group();
    assert!(!overlay.in_group());
    assert!(overlay.geometry.vertices().is_empty());
    assert!(overlay.geometry.indices(BACKGROUND_LAYER).is_empty());
    // A group without width leaves none either, however high it is.
    overlay.draw_item(&Block { w: 0, h: 40 });
    overlay.end_group();
    assert_eq!(overlay.geometry.vertices().len(), 4);
    assert!(overlay.geometry.indices(BACKGROUND_LAYER).is_empty());
}

#[test]
fn groups_follow_each_other_downward() {
    let mut overlay = Overlay::new(font());
    overlay.draw_item(&Block { w: 30, h: 20 });
    overlay.end_group();
    overlay.draw_item(&Block { w: 10, h: 10 });
    // Three margins below the first group, whose box ended at 30.
    assert_eq!(overlay.cursor, point(10, 60));
    assert_eq!(overlay.group_area(), (point(10, 60), point(20, 70)));
    overlay.end_group();
    overlay.group_flow = Orientation::Horizontal;
    overlay.draw_item(&Block { w: 10, h: 10 });
    assert_eq!(overlay.cursor, point(50, 60));
}

#[test]
fn a_group_is_grown_to_the_minimum_size() {
    let mut overlay = Overlay::new(font());
    overlay.style.min_group_width = 100;
    overlay.style.min_group_height = 5;
    overlay.draw_item(&Block { w: 30, h: 20 });
    overlay.end_group();
    assert_eq!(overlay.group_area(), (point(10, 10), point(110, 30)));
    assert_eq!(
        corners(&overlay.geometry.vertices()[4..]),
        vec![(0, 0), (120, 0), (120, 40), (0, 40)]
    );
}

#[test]
fn a_column_starts_right_of_everything() {
    let mut overlay = Overlay::new(font());
    overlay.draw_item(&Block { w: 30, h: 20 });
    overlay.end_group();
    overlay.draw_item(&Block { w: 70, h: 20 });
    overlay.push_column();
    assert!(!overlay.in_group());
    assert_eq!(overlay.group_area(), (point(110, 10), point(110, 10)));
    assert_eq!(overlay.geometry.indices(BACKGROUND_LAYER).len(), 12);
    overlay.draw_item(&Block { w: 5, h: 5 });
    assert_eq!(overlay.cursor, point(110, 10));
    assert_eq!(overlay.group_area(), (point(110, 10), point(115, 15)));
}

#[test]
fn a_separator_moves_the_cursor_along_the_item_flow() {
    let mut overlay = Overlay::new(font());
    overlay.push_separator();
    assert_eq!(overlay.cursor, point(10, 10));
    overlay.draw_item(&Block { w: 30, h: 20 });
    overlay.push_separator();
    assert_eq!(overlay.cursor, point(40, 10));
    assert!(overlay.in_group());
    overlay.item_flow = Orientation::Vertical;
    overlay.push_separator();
    assert_eq!(overlay.cursor, point(40, 40));
    assert_eq!(overlay.group_area(), (point(10, 10), point(40, 30)));
}

#[test]
fn a_frame_starts_anew() {
    let mut overlay = Overlay::new(font());
    overlay.style.margin = 4;
    overlay.draw_item(&Block { w: 30, h: 20 });
    overlay.push_column();
    overlay.draw_item(&"text");
    overlay.begin_frame();
    assert_eq!(overlay.cursor, point(4, 4));
    assert_eq!(overlay.group_area(), (point(4, 4), point(4, 4)));
    assert!(!overlay.in_group());
    assert!(overlay.geometry.vertices().is_empty());
    assert!(overlay.geometry.indices(BACKGROUND_LAYER).is_empty());
    assert!(overlay.geometry.indices(FRONT_LAYER).is_empty());
    overlay.push_column();
    assert_eq!(overlay.group_area(), (point(12, 4), point(12, 4)));
}

#[test]
fn the_box_of_a_group_never_shrinks() {
    let mut overlay = Overlay::new(font());
    overlay.item_flow = Orientation::Vertical;
    let mut before = overlay.group_area();
    for (w, h) in [(30, 20), (5, 0), (0, 0), (100, 1), (-50, -500)] {
        overlay.draw_item(&Block { w, h });
        let after = overlay.group_area();
        if w != 30 {
            assert!(after.0.x <= before.0.x && after.0.y <= before.0.y);
            assert!(after.1.x >= before.1.x && after.1.y >= before.1.y);
        }
        before = after;
    }
    // The last item reaches up and to the left, which the box's far corner ignores.
    assert_eq!(before, (point(10, 10), point(110, 61)));
}

#[test]
fn layout_at_the_edge_of_the_pixel_range_stays_inside() {
    let mut overlay = Overlay::new(font());
    overlay.style.margin = i32::MAX;
    overlay.begin_frame();
    overlay.item_flow = Orientation::Vertical;
    overlay.draw_item(&Block { w: 0, h: 0 });
    overlay.draw_item(&Block { w: 0, h: 0 });
    assert_eq!(overlay.cursor, point(i32::MAX, i32::MAX));
    overlay.push_separator();
    overlay.push_column();
    assert_eq!(overlay.group_area().0, point(i32::MAX, i32::MAX));
}
