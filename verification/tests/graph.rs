use debug_overlay::counter::{Counter, CounterDescriptor, CounterId, Orientation, Sample};
use debug_overlay::font::{GlyphAtlas, GlyphInfo};
use debug_overlay::geometry::{Point, Vertex, BACKGROUND_LAYER, FRONT_LAYER};
use debug_overlay::graph::{bar_end_px, bar_width_px, draw_graph, draw_graphs, orient, Graph, Graphs};
use debug_overlay::overlay::Overlay;

fn font() -> GlyphAtlas {
    GlyphAtlas {
        first_char: 32,
        atlas_width: 256,
        atlas_height: 128,
        font_height: 18,
        opaque_pixel: (3, 127),
        glyphs: vec![GlyphInfo { uv0: (0, 0), uv1: (8, 16), offset: (0, 0), x_advance: 9 }; 96],
    }
}

fn point(x: i32, y: i32) -> Point {
    Point { x, y }
}

/// The top-left and bottom-right vertex of every quad of the pool.
fn quads(vertices: &[Vertex]) -> Vec<((i32, i32), (i32, i32))> {
    vertices
        .chunks(4)
        .map(|q| ((q[0].x, q[0].y), (q[2].x, q[2].y)))
        .collect()
}

fn counter_with_history(color: (u8, u8, u8, u8), frames: &[Option<Sample>]) -> Counter {
    let mut c = Counter::new(CounterDescriptor::integer("c", "", CounterId(0)).color(color));
    c.enable_history(frames.len());
    for frame in frames {
        c.set(*frame);
        c.update(false);
    }
    c
}

#[test]
fn graph_degeneration() {
    let mut overlay = Overlay::new(font());
    let c = Counter::new(CounterDescriptor::integer("c", "", CounterId(0)));
    let stats = draw_graph(
        FRONT_LAYER,
        (point(0, 0), point(100, 100)),
        &c,
        5,
        (255, 0, 0, 255),
        Orientation::Vertical,
        &mut overlay,
    );
    assert_eq!(stats.avg, None);
    assert_eq!(stats.min, None);
    assert_eq!(stats.max, None);
    assert_eq!(stats.samples_active, 0);
    assert_eq!(stats.samples_total, 0);
    assert!(overlay.geometry.vertices().is_empty());
    assert!(overlay.geometry.indices(FRONT_LAYER).is_empty());
    assert!(overlay.geometry.indices(BACKGROUND_LAYER).is_empty());
}

#[test]
fn a_history_without_samples_draws_nothing() {
    let mut overlay = Overlay::new(font());
    let c = counter_with_history((0, 0, 0, 0), &[None, None, None]);
    let stats = draw_graph(
        FRONT_LAYER,
        (point(0, 0), point(100, 100)),
        &c,
        5,
        (255, 0, 0, 255),
        Orientation::Vertical,
        &mut overlay,
    );
    assert_eq!((stats.avg, stats.min, stats.max), (None, None, None));
    assert_eq!((stats.samples_active, stats.samples_total), (0, 3));
    assert!(overlay.geometry.vertices().is_empty());
}

#[test]
fn empty_slots_are_counted() {
    let mut overlay = Overlay::new(font());
    let mut c = Counter::new(CounterDescriptor::float("foo", "", CounterId(0)));
    c.enable_history(4);
    c.update(false);
    let stats = draw_graph(
        FRONT_LAYER,
        (point(0, 0), point(8, 10)),
        &c,
        0,
        (9, 9, 9, 255),
        Orientation::Vertical,
        &mut overlay,
    );
    assert_eq!(stats.samples_total, 4);
    assert_eq!(stats.samples_active, 0);
    assert_eq!((stats.avg, stats.min, stats.max), (None, None, None));
    assert!(overlay.geometry.vertices().is_empty());
    assert!(overlay.geometry.indices(FRONT_LAYER).is_empty());
    assert!(overlay.geometry.indices(BACKGROUND_LAYER).is_empty());
}

#[test]
fn one_bar_for_every_frame_with_a_sample() {
    let mut overlay = Overlay::new(font());
    let c = counter_with_history((0, 0, 0, 0), &[Some(2), None, Some(4)]);
    let stats = draw_graph(
        FRONT_LAYER,
        (point(0, 0), point(30, 40)),
        &c,
        0,
        (1, 2, 3, 4),
        Orientation::Vertical,
        &mut overlay,
    );
    assert_eq!(stats.avg, Some(3));
    assert_eq!(stats.min, Some(2));
    assert_eq!(stats.max, Some(4));
    assert_eq!(stats.samples_active, 2);
    assert_eq!(stats.samples_total, 3);
    let vertices = overlay.geometry.vertices();
    assert_eq!(quads(vertices), vec![((0, 40), (10, 20)), ((20, 40), (30, 0))]);
    assert!(vertices.iter().all(|v| v.color == 0x0102_0304 && v.uv == (3 << 16) | 127));
    assert_eq!(
        overlay.geometry.indices(FRONT_LAYER),
        &vec![0, 1, 2, 0, 2, 3, 4, 5, 6, 4, 6, 7]
    );
    assert!(overlay.geometry.indices(BACKGROUND_LAYER).is_empty());
}

#[test]
fn the_reference_value_takes_the_full_height_if_no_sample_is_higher() {
    let mut overlay = Overlay::new(font());
    let c = counter_with_history((0, 0, 0, 0), &[Some(2), Some(4)]);
    draw_graph(
        BACKGROUND_LAYER,
        (point(0, 0), point(30, 40)),
        &c,
        8,
        (0, 0, 0, 0),
        Orientation::Vertical,
        &mut overlay,
    );
    assert_eq!(
        quads(overlay.geometry.vertices()),
        vec![((0, 40), (15, 30)), ((15, 40), (30, 20))]
    );
    assert_eq!(overlay.geometry.indices(BACKGROUND_LAYER).len(), 12);
}

#[test]
fn a_graph_that_grows_to_the_right_swaps_the_axes() {
    let mut overlay = Overlay::new(font());
    let c = counter_with_history((0, 0, 0, 0), &[Some(2), None, Some(4)]);
    draw_graph(
        FRONT_LAYER,
        (point(0, 0), point(40, 30)),
        &c,
        0,
        (0, 0, 0, 0),
        Orientation::Horizontal,
        &mut overlay,
    );
    assert_eq!(
        quads(overlay.geometry.vertices()),
        vec![((40, 0), (20, 10)), ((40, 20), (0, 30))]
    );
    assert_eq!(
        orient((point(1, 2), point(3, 4)), Orientation::Horizontal),
        (point(2, 1), point(4, 3))
    );
    assert_eq!(
        orient((point(1, 2), point(3, 4)), Orientation::Vertical),
        (point(1, 2), point(3, 4))
    );
}

#[test]
fn a_bar_is_one_pixel_wide_at_least() {
    assert_eq!(bar_width_px(&(point(0, 0), point(30, 0)), 3), 10);
    assert_eq!(bar_width_px(&(point(0, 0), point(29, 0)), 3), 9);
    assert_eq!(bar_width_px(&(point(0, 0), point(2, 0)), 3), 1);
    assert_eq!(bar_width_px(&(point(0, 0), point(0, 0)), 3), 1);
    assert_eq!(bar_width_px(&(point(10, 0), point(0, 0)), 3), 1);
    assert_eq!(bar_width_px(&(point(i32::MIN, 0), point(i32::MAX, 0)), 1), i32::MAX);
    assert_eq!(bar_width_px(&(point(i32::MIN, 0), point(i32::MAX, 0)), 2), i32::MAX);
    assert_eq!(bar_width_px(&(point(i32::MIN, 0), point(i32::MAX, 0)), 4), 0x3fff_ffff);
    assert_eq!(bar_width_px(&(point(i32::MAX, 0), point(i32::MIN, 0)), 1), 1);
}

#[test]
fn a_bar_ends_where_its_value_scales_to() {
    assert_eq!(bar_end_px(40, 2, 40, 4), 20);
    assert_eq!(bar_end_px(40, 4, 40, 4), 0);
    assert_eq!(bar_end_px(40, 0, 40, 4), 40);
    // 100 - 1 * 18 / 8 is 97.75, which is rounded toward zero.
    assert_eq!(bar_end_px(100, 1, 18, 8), 97);
    // -100 - 1 * 18 / 8 is -102.25.
    assert_eq!(bar_end_px(-100, 1, 18, 8), -102);
    assert_eq!(bar_end_px(40, -2, 40, 4), 60);
    assert_eq!(bar_end_px(40, 2, 40, -4), 60);
    // With a scale of zero no bar has a length.
    assert_eq!(bar_end_px(40, 0, 40, 0), 40);
    assert_eq!(bar_end_px(40, -7, 40, 0), 40);
    assert_eq!(bar_end_px(0, i64::MIN, 0x1_0000_0000, 1), i32::MAX);
    assert_eq!(bar_end_px(0, i64::MAX, 0x1_0000_0000, 1), i32::MIN);
    assert_eq!(bar_end_px(i32::MIN, i64::MAX, -0x1_0000_0000, i64::MIN), i32::MIN);
}

#[test]
fn bars_past_the_pixel_range_stay_at_its_end() {
    let mut overlay = Overlay::new(font());
    let c = counter_with_history((0, 0, 0, 0), &[Some(1), Some(1), Some(1)]);
    draw_graph(
        FRONT_LAYER,
        (point(i32::MAX - 15, 0), point(i32::MAX, 10)),
        &c,
        0,
        (0, 0, 0, 0),
        Orientation::Vertical,
        &mut overlay,
    );
    // The frame is 15 pixels wide, so every bar is 5 pixels wide.
    let m = i32::MAX;
    assert_eq!(
        quads(overlay.geometry.vertices()),
        vec![((m - 15, 10), (m - 10, 0)), ((m - 10, 10), (m - 5, 0)), ((m - 5, 10), (m, 0))]
    );
}

#[test]
fn stacked_bars_stand_on_each_other() {
    let mut overlay = Overlay::new(font());
    let a = counter_with_history((1, 0, 0, 0), &[Some(1), Some(1), Some(1)]);
    let b = counter_with_history((2, 0, 0, 0), &[Some(3), None]);
    let none = Counter::new(CounterDescriptor::integer("none", "", CounterId(0)));
    draw_graphs(
        FRONT_LAYER,
        (point(0, 0), point(20, 40)),
        &[&none, &a, &b],
        0,
        Orientation::Vertical,
        &mut overlay,
    );
    let vertices = overlay.geometry.vertices();
    // The graph has the two slots of the shorter history. In the slot
    // after them the first counter still gets its bar.
    assert_eq!(
        quads(vertices),
        vec![
            ((0, 40), (10, 30)),
            ((0, 30), (10, 0)),
            ((10, 40), (20, 30)),
            ((20, 40), (30, 30)),
        ]
    );
    let colors: Vec<u32> = vertices.chunks(4).map(|q| q[0].color).collect();
    assert_eq!(colors, vec![0x0100_0000, 0x0200_0000, 0x0100_0000, 0x0100_0000]);
    assert_eq!(overlay.geometry.indices(FRONT_LAYER).len(), 24);
}

#[test]
fn stacked_bars_end_with_the_first_history_that_ends() {
    let mut overlay = Overlay::new(font());
    let a = counter_with_history((1, 0, 0, 0), &[Some(1)]);
    let b = counter_with_history((2, 0, 0, 0), &[Some(3), Some(5), Some(7)]);
    draw_graphs(
        FRONT_LAYER,
        (point(0, 0), point(20, 40)),
        &[&a, &b],
        0,
        Orientation::Horizontal,
        &mut overlay,
    );
    // One slot, 40 pixels wide; the frame is 20 pixels high and the stack 4.
    assert_eq!(
        quads(overlay.geometry.vertices()),
        vec![((20, 0), (15, 40)), ((15, 0), (0, 40))]
    );
}

#[test]
fn counters_without_a_history_draw_no_stack() {
    let mut overlay = Overlay::new(font());
    let none = Counter::new(CounterDescriptor::integer("none", "", CounterId(0)));
    draw_graphs(
        FRONT_LAYER,
        (point(0, 0), point(20, 40)),
        &[&none, &none],
        0,
        Orientation::Vertical,
        &mut overlay,
    );
    draw_graphs(FRONT_LAYER, (point(0, 0), point(20, 40)), &[], 0, Orientation::Vertical, &mut overlay);
    assert!(overlay.geometry.vertices().is_empty());
}

#[test]
fn the_sum_of_a_slot_stays_a_sample() {
    let mut overlay = Overlay::new(font());
    let a = counter_with_history((1, 0, 0, 0), &[Some(i64::MAX)]);
    let b = counter_with_history((2, 0, 0, 0), &[Some(i64::MAX)]);
    draw_graphs(
        FRONT_LAYER,
        (point(0, 0), point(10, 100)),
        &[&a, &b],
        0,
        Orientation::Vertical,
        &mut overlay,
    );
    // The scale is the highest sample there is, so each bar takes the full height.
    assert_eq!(
        quads(overlay.geometry.vertices()),
        vec![((0, 100), (10, 0)), ((0, 0), (10, -100))]
    );
}

#[test]
fn a_graph_takes_the_size_it_asks_for() {
    let mut overlay = Overlay::new(font());
    let c = counter_with_history((0, 0, 0, 0), &[Some(1), Some(2)]);
    let graph = Graph {
        color: (9, 9, 9, 9),
        width: Some(20),
        height: Some(10),
        counter: &c,
        reference_value: 0,
        orientation: Orientation::Vertical,
    };
    overlay.draw_item(&graph);
    assert_eq!(overlay.group_area(), (point(10, 10), point(30, 20)));
    assert_eq!(
        quads(overlay.geometry.vertices()),
        vec![((10, 20), (20, 15)), ((20, 20), (30, 10))]
    );
    assert_eq!(overlay.geometry.indices(FRONT_LAYER).len(), 12);
}

#[test]
fn a_graph_without_a_size_takes_that_of_its_group() {
    let mut overlay = Overlay::new(font());
    overlay.item_flow = Orientation::Vertical;
    let c = Counter::new(CounterDescriptor::integer("c", "", CounterId(0)));
    let sized = |width, height| Graph {
        color: (0, 0, 0, 0),
        width,
        height,
        counter: &c,
        reference_value: 0,
        orientation: Orientation::Vertical,
    };
    // In an empty group a graph is 100 pixels wide and high.
    overlay.draw_item(&sized(None, None));
    assert_eq!(overlay.group_area(), (point(10, 10), point(110, 110)));
    overlay.draw_item(&sized(Some(30), None));
    assert_eq!(overlay.cursor, point(10, 120));
    assert_eq!(overlay.group_area(), (point(10, 10), point(110, 220)));
    overlay.draw_item(&sized(None, Some(5)));
    assert_eq!(overlay.group_area(), (point(10, 10), point(110, 235)));
    assert!(overlay.geometry.vertices().is_empty());
}

#[test]
fn stacked_graphs_are_items_too() {
    let mut overlay = Overlay::new(font());
    let a = counter_with_history((1, 0, 0, 0), &[Some(1), Some(3)]);
    let b = counter_with_history((2, 0, 0, 0), &[Some(1), Some(1)]);
    let counters = [&a, &b];
    let graphs = Graphs {
        width: Some(20),
        height: Some(40),
        counters: &counters,
        reference_value: 8,
        orientation: Orientation::Vertical,
    };
    overlay.draw_item(&graphs);
    assert_eq!(overlay.group_area(), (point(10, 10), point(30, 50)));
    assert_eq!(
        quads(overlay.geometry.vertices()),
        vec![
            ((10, 50), (20, 45)),
            ((10, 45), (20, 40)),
            ((20, 50), (30, 35)),
            ((20, 35), (30, 30)),
        ]
    );
}
