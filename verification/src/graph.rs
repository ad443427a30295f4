//! Bar graphs of counter histories: one bar per frame, and stacked bars
//! for several counters at once.

use vstd::prelude::*;
use crate::counter::{lemma_mean_in_range, mean, Counter, CounterView, Orientation, Sample};
use crate::geometry::{lemma_with_rectangle_wf, Color, GeometryView, Layer, Point, FRONT_LAYER};
use crate::overlay::{Overlay, OverlayItem, OverlayView};
use crate::pixel::{clamp_px, clamp_px_wide, div_toward_zero, max_int, px, px_add, truncated_quotient};

verus! {

/// A bar graph of one counter's history.
pub struct Graph<'a> {
    pub color: Color,
    /// Width of the graph; that of the current group if `None`.
    pub width: Option<i32>,
    /// Height of the graph; that of the current group if `None`.
    pub height: Option<i32>,
    pub counter: &'a Counter,
    /// A value that reaches the full height if no sample is higher.
    pub reference_value: Sample,
    /// The direction in which the bars grow.
    pub orientation: Orientation,
}

/// A graph of several counters' histories, their bars stacked frame by frame.
pub struct Graphs<'a> {
    /// Width of the graph; that of the current group if `None`.
    pub width: Option<i32>,
    /// Height of the graph; that of the current group if `None`.
    pub height: Option<i32>,
    pub counters: &'a [&'a Counter],
    /// A value that reaches the full height if no stack is higher.
    pub reference_value: Sample,
    /// The direction in which the bars grow.
    pub orientation: Orientation,
}

/// What a graph shows of a history.
#[derive(Copy, Clone, Debug)]
pub struct GraphStats {
    /// Mean of the frames with a sample, rounded toward zero.
    pub avg: Option<Sample>,
    pub min: Option<Sample>,
    pub max: Option<Sample>,
    /// Number of frames with a sample.
    pub samples_active: usize,
    /// Number of frames.
    pub samples_total: usize,
}

impl GraphStats {
    /// The statistics of nothing.
    pub open spec fn none() -> GraphStats {
        GraphStats { avg: None, min: None, max: None, samples_active: 0, samples_total: 0 }
    }
}

/// Number of frames with a sample.
pub open spec fn active_count(history: Seq<Option<Sample>>) -> nat
    decreases history.len(),
{
    if history.len() == 0 {
        0
    } else {
        active_count(history.drop_last()) + if history.last() is Some {
            1nat
        } else {
            0nat
        }
    }
}

/// Sum of the samples.
pub open spec fn active_sum(history: Seq<Option<Sample>>) -> int
    decreases history.len(),
{
    if history.len() == 0 {
        0
    } else {
        active_sum(history.drop_last()) + match history.last() {
            Some(v) => v as int,
            None => 0,
        }
    }
}

/// The highest sample; the lowest value there is if no frame has a sample.
pub open spec fn active_max(history: Seq<Option<Sample>>) -> Sample
    decreases history.len(),
{
    if history.len() == 0 {
        i64::MIN
    } else {
        let before = active_max(history.drop_last());
        match history.last() {
            Some(v) => if v > before {
                v
            } else {
                before
            },
            None => before,
        }
    }
}

/// The lowest sample; the highest value there is if no frame has a sample.
pub open spec fn active_min(history: Seq<Option<Sample>>) -> Sample
    decreases history.len(),
{
    if history.len() == 0 {
        i64::MAX
    } else {
        let before = active_min(history.drop_last());
        match history.last() {
            Some(v) => if v < before {
                v
            } else {
                before
            },
            None => before,
        }
    }
}

/// The statistics of a history: how many frames it has and how many of
/// them have a sample, and the mean and the extremes of the samples. A
/// history without a sample has no mean and no extremes.
pub open spec fn graph_stats(history: Seq<Option<Sample>>) -> GraphStats {
    if active_count(history) == 0 {
        GraphStats {
            avg: None,
            min: None,
            max: None,
            samples_active: 0,
            samples_total: history.len() as usize,
        }
    } else {
        GraphStats {
            avg: Some(mean(active_sum(history), active_count(history) as int) as i64),
            min: Some(active_min(history)),
            max: Some(active_max(history)),
            samples_active: active_count(history) as usize,
            samples_total: history.len() as usize,
        }
    }
}

/// The rectangle with its axes swapped.
pub open spec fn transposed(rect: (Point, Point)) -> (Point, Point) {
    (Point { x: rect.0.y, y: rect.0.x }, Point { x: rect.1.y, y: rect.1.x })
}

/// The rectangle as a graph of this orientation uses it: a graph that
/// grows to the right is laid out as one that grows upward, with the axes
/// swapped.
pub open spec fn oriented(rect: (Point, Point), orientation: Orientation) -> (Point, Point) {
    if orientation == Orientation::Horizontal {
        transposed(rect)
    } else {
        rect
    }
}

/// Width of a bar when `slots` bars share the frame: an equal share of
/// the frame's width, but one pixel at least.
pub open spec fn bar_width(frame: (Point, Point), slots: int) -> i32
    recommends
        slots > 0,
{
    px(max_int(1, (frame.1.x - frame.0.x) / slots))
}

/// Left edge of the bar of `slot`.
pub open spec fn bar_left(left: i32, width: i32, slot: nat) -> i32
    decreases slot,
{
    if slot == 0 {
        left
    } else {
        px(bar_left(left, width, (slot - 1) as nat) + width)
    }
}

/// Where a bar ends that starts at `base` and shows `value`, when `scale`
/// takes up `height`: at `base - value * height / scale`, rounded toward
/// zero. With a scale of zero no bar has a length.
pub open spec fn bar_end(base: i32, value: Sample, height: int, scale: Sample) -> i32 {
    if scale == 0 {
        base
    } else {
        px(truncated_quotient(base * scale - value * height, scale as int))
    }
}

/// The rectangle of the bar of `slot` that starts at `base` and shows `value`.
pub open spec fn bar(
    frame: (Point, Point),
    slot: nat,
    width: i32,
    base: i32,
    value: Sample,
    scale: Sample,
    orientation: Orientation,
) -> (Point, Point) {
    let x0 = bar_left(frame.0.x, width, slot);
    oriented(
        (
            Point { x: x0, y: base },
            Point { x: px(x0 + width), y: bar_end(base, value, frame.1.y - frame.0.y, scale) },
        ),
        orientation,
    )
}

/// The geometry with one bar for every frame of `history` that has a
/// sample, each standing on the frame's bottom edge.
pub open spec fn bars(
    g: GeometryView,
    layer: int,
    frame: (Point, Point),
    history: Seq<Option<Sample>>,
    width: i32,
    scale: Sample,
    color: Color,
    orientation: Orientation,
) -> GeometryView
    decreases history.len(),
{
    if history.len() == 0 {
        g
    } else {
        let before = bars(g, layer, frame, history.drop_last(), width, scale, color, orientation);
        match history.last() {
            Some(v) => before.with_rectangle(
                layer,
                bar(frame, (history.len() - 1) as nat, width, frame.1.y, v, scale, orientation),
                color,
                color,
            ),
            None => before,
        }
    }
}

/// The higher of two samples.
pub open spec fn higher(a: Sample, b: Sample) -> Sample {
    if a >= b {
        a
    } else {
        b
    }
}

/// The geometry with the graph of `history` in `rect`. A history without
/// a sample leaves the geometry as it is.
pub open spec fn graph_geometry(
    g: GeometryView,
    layer: int,
    rect: (Point, Point),
    history: Seq<Option<Sample>>,
    reference_value: Sample,
    color: Color,
    orientation: Orientation,
) -> GeometryView {
    if active_count(history) == 0 {
        g
    } else {
        let frame = oriented(rect, orientation);
        bars(
            g,
            layer,
            frame,
            history,
            bar_width(frame, history.len() as int),
            higher(active_max(history), reference_value),
            color,
            orientation,
        )
    }
}

/// Bars leave the number of layers and the font as they were, and keep
/// every index inside the pool.
pub proof fn lemma_bars_shape(
    g: GeometryView,
    layer: int,
    frame: (Point, Point),
    history: Seq<Option<Sample>>,
    width: i32,
    scale: Sample,
    color: Color,
    orientation: Orientation,
)
    requires
        0 <= layer < g.layers.len(),
    ensures
        bars(g, layer, frame, history, width, scale, color, orientation).layers.len()
            == g.layers.len(),
        bars(g, layer, frame, history, width, scale, color, orientation).font == g.font,
        g.wf() ==> bars(g, layer, frame, history, width, scale, color, orientation).wf(),
    decreases history.len(),
{
    if history.len() > 0 {
        lemma_bars_shape(g, layer, frame, history.drop_last(), width, scale, color, orientation);
        let before = bars(g, layer, frame, history.drop_last(), width, scale, color, orientation);
        match history.last() {
            Some(v) => {
                if before.wf() {
                    lemma_with_rectangle_wf(
                        before,
                        layer,
                        bar(frame, (history.len() - 1) as nat, width, frame.1.y, v, scale, orientation),
                        color,
                        color,
                    );
                }
            },
            None => {},
        }
    }
}

/// A graph leaves the number of layers and the font as they were, and
/// keeps every index inside the pool.
pub proof fn lemma_graph_shape(
    g: GeometryView,
    layer: int,
    rect: (Point, Point),
    history: Seq<Option<Sample>>,
    reference_value: Sample,
    color: Color,
    orientation: Orientation,
)
    requires
        0 <= layer < g.layers.len(),
    ensures
        graph_geometry(g, layer, rect, history, reference_value, color, orientation).layers.len()
            == g.layers.len(),
        graph_geometry(g, layer, rect, history, reference_value, color, orientation).font
            == g.font,
        g.wf() ==> graph_geometry(g, layer, rect, history, reference_value, color, orientation).wf(),
{
    if active_count(history) > 0 {
        let frame = oriented(rect, orientation);
        lemma_bars_shape(
            g,
            layer,
            frame,
            history,
            bar_width(frame, history.len() as int),
            higher(active_max(history), reference_value),
            color,
            orientation,
        );
    }
}

/// A history without a sample has no mean, no extremes and no bars; its
/// statistics count its frames and nothing else. An empty history has
/// the statistics of nothing.
pub proof fn lemma_no_sample_no_graph(
    g: GeometryView,
    layer: int,
    rect: (Point, Point),
    history: Seq<Option<Sample>>,
    reference_value: Sample,
    color: Color,
    orientation: Orientation,
)
    requires
        forall|i: int| 0 <= i < history.len() ==> history[i] is None,
    ensures
        graph_stats(history) == (GraphStats {
            samples_total: history.len() as usize,
            ..GraphStats::none()
        }),
        history.len() == 0 ==> graph_stats(history) == GraphStats::none(),
        graph_geometry(g, layer, rect, history, reference_value, color, orientation) == g,
    decreases history.len(),
{
    if history.len() > 0 {
        lemma_no_sample_no_graph(
            g,
            layer,
            rect,
            history.drop_last(),
            reference_value,
            color,
            orientation,
        );
    }
}

/// The end of a bar, computed.
pub fn bar_end_px(base: i32, value: Sample, height: i64, scale: Sample) -> (end: i32)
    requires
        -0x1_0000_0000 <= height <= 0x1_0000_0000,
    ensures
        end == bar_end(base, value, height as int, scale),
{
    if scale == 0 {
        return base;
    }
    assert(-0x4000_0000_0000_0000_0000_0000 <= base * scale <= 0x4000_0000_0000_0000_0000_0000)
        by (nonlinear_arith)
        requires
            -0x8000_0000 <= base <= 0x8000_0000,
            -0x8000_0000_0000_0000 <= scale <= 0x8000_0000_0000_0000,
    ;
    assert(-0x8000_0000_0000_0000_0000_0000 <= value * height <= 0x8000_0000_0000_0000_0000_0000)
        by (nonlinear_arith)
        requires
            -0x1_0000_0000 <= height <= 0x1_0000_0000,
            -0x8000_0000_0000_0000 <= value <= 0x8000_0000_0000_0000,
    ;
    let numerator: i128 = (base as i128) * (scale as i128) - (value as i128) * (height as i128);
    clamp_px_wide(div_toward_zero(numerator, scale as i128))
}

/// The width of a bar, computed.
pub fn bar_width_px(frame: &(Point, Point), slots: usize) -> (width: i32)
    requires
        slots > 0,
    ensures
        width == bar_width(*frame, slots as int),
{
    let span: i64 = frame.1.x as i64 - frame.0.x as i64;
    if span <= 0 {
        assert(span as int / slots as int <= 0) by (nonlinear_arith)
            requires
                span <= 0,
                slots > 0,
        ;
        1
    } else {
        let share: u128 = (span as u128) / (slots as u128);
        assert(0 <= share <= span) by (nonlinear_arith)
            requires
                share == span as int / slots as int,
                0 < span,
                0 < slots,
        ;
        if share < 1 {
            1
        } else {
            clamp_px(share as i64)
        }
    }
}

/// Swaps the axes of a rectangle for a graph that grows to the right.
pub fn orient(rect: (Point, Point), orientation: Orientation) -> (frame: (Point, Point))
    ensures
        frame == oriented(rect, orientation),
{
    match orientation {
        Orientation::Horizontal => (
            Point { x: rect.0.y, y: rect.0.x },
            Point { x: rect.1.y, y: rect.1.x },
        ),
        Orientation::Vertical => rect,
    }
}

/// Draws the history of `counter` as bars into `rect` and returns its
/// statistics. A counter without a history draws nothing and has the
/// statistics of nothing. A history without a sample draws nothing
/// either; its statistics count its frames, and have no mean and no
/// extremes.
pub fn draw_graph(
    layer: Layer,
    rect: (Point, Point),
    counter: &Counter,
    reference_value: Sample,
    color: Color,
    orientation: Orientation,
    overlay: &mut Overlay,
) -> (stats: GraphStats)
    requires
        layer < old(overlay)@.geometry.layers.len(),
    ensures
        stats == graph_stats(counter@.history),
        final(overlay)@ == old(overlay)@.with_geometry(
            graph_geometry(
                old(overlay)@.geometry,
                layer as int,
                rect,
                counter@.history,
                reference_value,
                color,
                orientation,
            ),
        ),
        counter@.history.len() == 0 ==> stats == GraphStats::none() && final(overlay)@ == old(overlay)@,
        final(overlay)@.geometry.layers.len() == old(overlay)@.geometry.layers.len(),
        final(overlay)@.geometry.font == old(overlay)@.geometry.font,
        old(overlay)@.geometry.wf() ==> final(overlay)@.geometry.wf(),
{
    proof {
        lemma_graph_shape(
            old(overlay)@.geometry,
            layer as int,
            rect,
            counter@.history,
            reference_value,
            color,
            orientation,
        );
    }
    let ghost history = counter@.history;
    let total: usize = counter.history_len();
    let frame = orient(rect, orientation);
    let mut max: Sample = i64::MIN;
    let mut min: Sample = i64::MAX;
    let mut sum: i128 = 0;
    let mut active: usize = 0;
    let mut i: usize = 0;
    while i < total
        invariant
            i <= total,
            total == history.len(),
            history == counter@.history,
            active == active_count(history.take(i as int)),
            active <= i,
            sum == active_sum(history.take(i as int)),
            active * i64::MIN <= sum <= active * i64::MAX,
            max == active_max(history.take(i as int)),
            min == active_min(history.take(i as int)),
        decreases total - i,
    {
        proof {
            assert(history.take(i + 1).drop_last() == history.take(i as int));
            assert(history.take(i + 1).last() == history[i as int]);
        }
        match counter.history_slot(i) {
            Some(v) => {
                assert((active + 1) * i64::MIN == active * i64::MIN + i64::MIN) by (nonlinear_arith);
                assert((active + 1) * i64::MAX == active * i64::MAX + i64::MAX) by (nonlinear_arith);
                assert(active * i64::MAX <= usize::MAX * i64::MAX) by (nonlinear_arith)
                    requires
                        active <= usize::MAX,
                ;
                assert(active * i64::MIN >= usize::MAX * i64::MIN) by (nonlinear_arith)
                    requires
                        active <= usize::MAX,
                ;
                active = active + 1;
                sum = sum + v as i128;
                if v > max {
                    max = v;
                }
                if v < min {
                    min = v;
                }
            },
            None => {},
        }
        i = i + 1;
    }
    assert(history.take(total as int) == history);
    if active == 0 {
        return GraphStats {
            avg: None,
            min: None,
            max: None,
            samples_active: 0,
            samples_total: total,
        };
    }
    proof {
        lemma_mean_in_range(sum as int, active as int);
    }
    let avg: i128 = sum / (active as i128);
    let width: i32 = bar_width_px(&frame, total);
    let scale: Sample = if max >= reference_value {
        max
    } else {
        reference_value
    };
    let height: i64 = frame.1.y as i64 - frame.0.y as i64;
    let base: i32 = frame.1.y;
    let mut x0: i32 = frame.0.x;
    let mut slot: usize = 0;
    while slot < total
        invariant
            slot <= total,
            total == history.len(),
            history == counter@.history,
            layer < overlay@.geometry.layers.len(),
            overlay@.geometry.layers.len() == old(overlay)@.geometry.layers.len(),
            height == frame.1.y - frame.0.y,
            base == frame.1.y,
            x0 == bar_left(frame.0.x, width, slot as nat),
            overlay@ == old(overlay)@.with_geometry(
                bars(
                    old(overlay)@.geometry,
                    layer as int,
                    frame,
                    history.take(slot as int),
                    width,
                    scale,
                    color,
                    orientation,
                ),
            ),
        decreases total - slot,
    {
        proof {
            assert(history.take(slot + 1).drop_last() == history.take(slot as int));
            assert(history.take(slot + 1).last() == history[slot as int]);
        }
        let x1: i32 = px_add(x0, width);
        match counter.history_slot(slot) {
            Some(v) => {
                let y1: i32 = bar_end_px(base, v, height, scale);
                let bar = orient((Point { x: x0, y: base }, Point { x: x1, y: y1 }), orientation);
                overlay.geometry.push_rectangle(layer, &bar, color, color);
            },
            None => {},
        }
        x0 = x1;
        slot = slot + 1;
    }
    GraphStats {
        max: Some(max),
        min: Some(min),
        avg: Some(avg as i64),
        samples_active: active,
        samples_total: total,
    }
}

/// The counters as mathematics.
pub open spec fn counter_views(counters: Seq<&Counter>) -> Seq<CounterView> {
    Seq::new(counters.len(), |i: int| counters[i]@)
}

/// Length of the shortest history among the counters that keep one, or
/// `None` if none of them keeps a history.
pub open spec fn shortest_history(series: Seq<CounterView>) -> Option<nat>
    decreases series.len(),
{
    if series.len() == 0 {
        None
    } else {
        let before = shortest_history(series.drop_last());
        let last = series.last().history.len();
        if last == 0 {
            before
        } else {
            match before {
                Some(n) => if n <= last {
                    Some(n)
                } else {
                    Some(last)
                },
                None => Some(last),
            }
        }
    }
}

/// Sum of the samples that the counters have in `slot`.
pub open spec fn slot_sum(series: Seq<CounterView>, slot: int) -> int
    decreases series.len(),
{
    if series.len() == 0 {
        0
    } else {
        slot_sum(series.drop_last(), slot) + if slot < series.last().history.len() {
            match series.last().history[slot] {
                Some(v) => v as int,
                None => 0,
            }
        } else {
            0
        }
    }
}

/// The sample nearest to `v`.
pub open spec fn sample_of(v: int) -> Sample {
    if v < i64::MIN {
        i64::MIN
    } else if v > i64::MAX {
        i64::MAX
    } else {
        v as i64
    }
}

/// The highest sum among the first `slots` slots, as a sample; the lowest
/// value there is for no slots.
pub open spec fn peak(series: Seq<CounterView>, slots: nat) -> Sample
    decreases slots,
{
    if slots == 0 {
        i64::MIN
    } else {
        higher(
            peak(series, (slots - 1) as nat),
            sample_of(slot_sum(series, slots - 1)),
        )
    }
}

/// A stack of bars while it is drawn.
pub struct Stack {
    pub geometry: GeometryView,
    /// Where the next bar starts.
    pub top: i32,
    /// Whether every counter so far reached this slot.
    pub complete: bool,
}

/// The bars of `slot` for the first `upto` counters, each standing on the
/// one before it. A counter without a history is passed over; a counter
/// whose history ends before `slot` ends the drawing.
pub open spec fn stacked(
    g: GeometryView,
    layer: int,
    frame: (Point, Point),
    series: Seq<CounterView>,
    slot: nat,
    width: i32,
    scale: Sample,
    orientation: Orientation,
    upto: nat,
) -> Stack
    decreases upto,
{
    if upto == 0 {
        Stack { geometry: g, top: frame.1.y, complete: true }
    } else {
        let below = stacked(
            g,
            layer,
            frame,
            series,
            slot,
            width,
            scale,
            orientation,
            (upto - 1) as nat,
        );
        let counter = series[upto - 1];
        if !below.complete || counter.history.len() == 0 {
            below
        } else if counter.history.len() <= slot {
            Stack { complete: false, ..below }
        } else {
            match counter.history[slot as int] {
                Some(v) => Stack {
                    geometry: below.geometry.with_rectangle(
                        layer,
                        bar(frame, slot, width, below.top, v, scale, orientation),
                        counter.descriptor.color,
                        counter.descriptor.color,
                    ),
                    top: bar_end(below.top, v, frame.1.y - frame.0.y, scale),
                    complete: true,
                },
                None => below,
            }
        }
    }
}

/// The stacks of the first `slots` slots, one after the other, up to the
/// first slot that some counter's history does not reach.
pub open spec fn slots_stacked(
    g: GeometryView,
    layer: int,
    frame: (Point, Point),
    series: Seq<CounterView>,
    width: i32,
    scale: Sample,
    orientation: Orientation,
    slots: nat,
) -> Stack
    decreases slots,
{
    if slots == 0 {
        Stack { geometry: g, top: frame.1.y, complete: true }
    } else {
        let before = slots_stacked(
            g,
            layer,
            frame,
            series,
            width,
            scale,
            orientation,
            (slots - 1) as nat,
        );
        if !before.complete {
            before
        } else {
            stacked(
                before.geometry,
                layer,
                frame,
                series,
                (slots - 1) as nat,
                width,
                scale,
                orientation,
                series.len(),
            )
        }
    }
}

/// The geometry with the stacked graph of the counters in `rect`. The
/// graph has as many slots as the shortest history; in the slot after
/// them, the counters before the one with the shortest history still get
/// their bars. Counters without a history take no part, and if there is
/// no other the geometry stays as it is.
pub open spec fn graphs_geometry(
    g: GeometryView,
    layer: int,
    rect: (Point, Point),
    series: Seq<CounterView>,
    reference_value: Sample,
    orientation: Orientation,
) -> GeometryView {
    match shortest_history(series) {
        None => g,
        Some(total) => {
            let frame = oriented(rect, orientation);
            slots_stacked(
                g,
                layer,
                frame,
                series,
                bar_width(frame, total as int),
                higher(peak(series, total), reference_value),
                orientation,
                total + 1,
            ).geometry
        },
    }
}

/// The shortest history has a frame, belongs to one of the counters, and
/// no counter's history is shorter.
pub proof fn lemma_shortest_history(series: Seq<CounterView>)
    ensures
        match shortest_history(series) {
            Some(total) => total > 0 && (exists|j: int|
                0 <= j < series.len() && (#[trigger] series[j]).history.len() == total) && (
            forall|j: int|
                0 <= j < series.len() && (#[trigger] series[j]).history.len() > 0
                    ==> series[j].history.len() >= total),
            None => forall|j: int| 0 <= j < series.len() ==> (#[trigger] series[j]).history.len() == 0,
        },
    decreases series.len(),
{
    if series.len() > 0 {
        let rest = series.drop_last();
        lemma_shortest_history(rest);
        assert(forall|j: int| 0 <= j < rest.len() ==> rest[j] == series[j]);
        match shortest_history(series) {
            Some(total) => {
                if series.last().history.len() == total {
                    assert(series[series.len() - 1].history.len() == total);
                } else {
                    let j = choose|j: int|
                        0 <= j < rest.len() && (#[trigger] rest[j]).history.len() == total;
                    assert(series[j].history.len() == total);
                }
            },
            None => {},
        }
    }
}

/// Once a counter's history has ended, the stack stays as it is.
pub proof fn lemma_stacked_stops(
    g: GeometryView,
    layer: int,
    frame: (Point, Point),
    series: Seq<CounterView>,
    slot: nat,
    width: i32,
    scale: Sample,
    orientation: Orientation,
    upto: nat,
    later: nat,
)
    requires
        upto <= later,
        !stacked(g, layer, frame, series, slot, width, scale, orientation, upto).complete,
    ensures
        stacked(g, layer, frame, series, slot, width, scale, orientation, later) == stacked(
            g,
            layer,
            frame,
            series,
            slot,
            width,
            scale,
            orientation,
            upto,
        ),
    decreases later,
{
    if upto < later {
        lemma_stacked_stops(
            g,
            layer,
            frame,
            series,
            slot,
            width,
            scale,
            orientation,
            upto,
            (later - 1) as nat,
        );
    }
}

/// Once a slot was not reached by every counter, no further slot is drawn.
pub proof fn lemma_slots_stacked_stops(
    g: GeometryView,
    layer: int,
    frame: (Point, Point),
    series: Seq<CounterView>,
    width: i32,
    scale: Sample,
    orientation: Orientation,
    slots: nat,
    later: nat,
)
    requires
        slots <= later,
        !slots_stacked(g, layer, frame, series, width, scale, orientation, slots).complete,
    ensures
        slots_stacked(g, layer, frame, series, width, scale, orientation, later) == slots_stacked(
            g,
            layer,
            frame,
            series,
            width,
            scale,
            orientation,
            slots,
        ),
    decreases later,
{
    if slots < later {
        lemma_slots_stacked_stops(
            g,
            layer,
            frame,
            series,
            width,
            scale,
            orientation,
            slots,
            (later - 1) as nat,
        );
    }
}

/// A stack that every counter reached shows that every history is longer
/// than the slot.
pub proof fn lemma_stacked_complete(
    g: GeometryView,
    layer: int,
    frame: (Point, Point),
    series: Seq<CounterView>,
    slot: nat,
    width: i32,
    scale: Sample,
    orientation: Orientation,
    upto: nat,
)
    requires
        upto <= series.len(),
        stacked(g, layer, frame, series, slot, width, scale, orientation, upto).complete,
    ensures
        forall|j: int|
            0 <= j < upto && (#[trigger] series[j]).history.len() > 0 ==> series[j].history.len()
                > slot,
    decreases upto,
{
    if upto > 0 {
        lemma_stacked_complete(
            g,
            layer,
            frame,
            series,
            slot,
            width,
            scale,
            orientation,
            (upto - 1) as nat,
        );
    }
}

/// Stacks leave the number of layers and the font as they were, and
/// keep every index inside the pool.
pub proof fn lemma_stacked_shape(
    g: GeometryView,
    layer: int,
    frame: (Point, Point),
    series: Seq<CounterView>,
    slot: nat,
    width: i32,
    scale: Sample,
    orientation: Orientation,
    upto: nat,
)
    requires
        0 <= layer < g.layers.len(),
    ensures
        stacked(g, layer, frame, series, slot, width, scale, orientation, upto).geometry.layers.len()
            == g.layers.len(),
        stacked(g, layer, frame, series, slot, width, scale, orientation, upto).geometry.font
            == g.font,
        g.wf() ==> stacked(g, layer, frame, series, slot, width, scale, orientation, upto).geometry.wf(),
    decreases upto,
{
    if upto > 0 {
        lemma_stacked_shape(
            g,
            layer,
            frame,
            series,
            slot,
            width,
            scale,
            orientation,
            (upto - 1) as nat,
        );
        let below = stacked(
            g,
            layer,
            frame,
            series,
            slot,
            width,
            scale,
            orientation,
            (upto - 1) as nat,
        );
        let counter = series[upto - 1];
        if below.complete && counter.history.len() > slot && below.geometry.wf() {
            match counter.history[slot as int] {
                Some(v) => {
                    lemma_with_rectangle_wf(
                        below.geometry,
                        layer,
                        bar(frame, slot, width, below.top, v, scale, orientation),
                        counter.descriptor.color,
                        counter.descriptor.color,
                    );
                },
                None => {},
            }
        }
    }
}

/// The stacks of any number of slots leave the number of layers and the
/// font as they were, and keep every index inside the pool.
pub proof fn lemma_slots_stacked_shape(
    g: GeometryView,
    layer: int,
    frame: (Point, Point),
    series: Seq<CounterView>,
    width: i32,
    scale: Sample,
    orientation: Orientation,
    slots: nat,
)
    requires
        0 <= layer < g.layers.len(),
    ensures
        slots_stacked(g, layer, frame, series, width, scale, orientation, slots).geometry.layers.len()
            == g.layers.len(),
        slots_stacked(g, layer, frame, series, width, scale, orientation, slots).geometry.font
            == g.font,
        g.wf() ==> slots_stacked(g, layer, frame, series, width, scale, orientation, slots).geometry.wf(),
    decreases slots,
{
    if slots > 0 {
        lemma_slots_stacked_shape(
            g,
            layer,
            frame,
            series,
            width,
            scale,
            orientation,
            (slots - 1) as nat,
        );
        let before = slots_stacked(
            g,
            layer,
            frame,
            series,
            width,
            scale,
            orientation,
            (slots - 1) as nat,
        );
        if before.complete {
            lemma_stacked_shape(
                before.geometry,
                layer,
                frame,
                series,
                (slots - 1) as nat,
                width,
                scale,
                orientation,
                series.len(),
            );
        }
    }
}

/// A stacked graph leaves the number of layers and the font as they
/// were, and keeps every index inside the pool.
pub proof fn lemma_graphs_shape(
    g: GeometryView,
    layer: int,
    rect: (Point, Point),
    series: Seq<CounterView>,
    reference_value: Sample,
    orientation: Orientation,
)
    requires
        0 <= layer < g.layers.len(),
    ensures
        graphs_geometry(g, layer, rect, series, reference_value, orientation).layers.len()
            == g.layers.len(),
        graphs_geometry(g, layer, rect, series, reference_value, orientation).font == g.font,
        g.wf() ==> graphs_geometry(g, layer, rect, series, reference_value, orientation).wf(),
{
    match shortest_history(series) {
        Some(total) => {
            let frame = oriented(rect, orientation);
            lemma_slots_stacked_shape(
                g,
                layer,
                frame,
                series,
                bar_width(frame, total as int),
                higher(peak(series, total), reference_value),
                orientation,
                total + 1,
            );
        },
        None => {},
    }
}

/// The length of the shortest history among the counters that keep one.
fn shortest_history_len(counters: &[&Counter]) -> (shortest: Option<usize>)
    ensures
        match shortest {
            Some(n) => shortest_history(counter_views(counters@)) == Some(n as nat),
            None => shortest_history(counter_views(counters@)) is None,
        },
{
    let ghost series = counter_views(counters@);
    let mut shortest: Option<usize> = None;
    let mut j: usize = 0;
    while j < counters.len()
        invariant
            j <= counters@.len(),
            series == counter_views(counters@),
            match shortest {
                Some(n) => shortest_history(series.take(j as int)) == Some(n as nat),
                None => shortest_history(series.take(j as int)) is None,
            },
        decreases counters@.len() - j,
    {
        proof {
            assert(series.take(j + 1).drop_last() == series.take(j as int));
            assert(series.take(j + 1).last() == series[j as int]);
        }
        let len: usize = counters[j].history_len();
        if len > 0 {
            shortest = match shortest {
                Some(n) => if n <= len {
                    Some(n)
                } else {
                    Some(len)
                },
                None => Some(len),
            };
        }
        j = j + 1;
    }
    assert(series.take(counters@.len() as int) == series);
    shortest
}

/// The sum of the samples that the counters have in `slot`, as a sample.
fn slot_total(counters: &[&Counter], slot: usize) -> (total: Sample)
    ensures
        total == sample_of(slot_sum(counter_views(counters@), slot as int)),
{
    let ghost series = counter_views(counters@);
    let mut sum: i128 = 0;
    let mut j: usize = 0;
    while j < counters.len()
        invariant
            j <= counters@.len(),
            series == counter_views(counters@),
            sum == slot_sum(series.take(j as int), slot as int),
            j * i64::MIN <= sum <= j * i64::MAX,
        decreases counters@.len() - j,
    {
        proof {
            assert(series.take(j + 1).drop_last() == series.take(j as int));
            assert(series.take(j + 1).last() == series[j as int]);
            assert((j + 1) * i64::MIN == j * i64::MIN + i64::MIN) by (nonlinear_arith);
            assert((j + 1) * i64::MAX == j * i64::MAX + i64::MAX) by (nonlinear_arith);
            assert(j * i64::MAX <= usize::MAX * i64::MAX) by (nonlinear_arith)
                requires
                    j <= usize::MAX,
            ;
            assert(j * i64::MIN >= usize::MAX * i64::MIN) by (nonlinear_arith)
                requires
                    j <= usize::MAX,
            ;
        }
        if slot < counters[j].history_len() {
            match counters[j].history_slot(slot) {
                Some(v) => {
                    sum = sum + v as i128;
                },
                None => {},
            }
        }
        j = j + 1;
    }
    assert(series.take(counters@.len() as int) == series);
    if sum < i64::MIN as i128 {
        i64::MIN
    } else if sum > i64::MAX as i128 {
        i64::MAX
    } else {
        sum as i64
    }
}

/// Draws the histories of `counters` as stacked bars into `rect`, each
/// counter in its own color. The graph ends with the shortest history.
pub fn draw_graphs(
    layer: Layer,
    rect: (Point, Point),
    counters: &[&Counter],
    reference_value: Sample,
    orientation: Orientation,
    overlay: &mut Overlay,
)
    requires
        layer < old(overlay)@.geometry.layers.len(),
    ensures
        final(overlay)@ == old(overlay)@.with_geometry(
            graphs_geometry(
                old(overlay)@.geometry,
                layer as int,
                rect,
                counter_views(counters@),
                reference_value,
                orientation,
            ),
        ),
        final(overlay)@.geometry.layers.len() == old(overlay)@.geometry.layers.len(),
        final(overlay)@.geometry.font == old(overlay)@.geometry.font,
        old(overlay)@.geometry.wf() ==> final(overlay)@.geometry.wf(),
{
    proof {
        lemma_graphs_shape(
            old(overlay)@.geometry,
            layer as int,
            rect,
            counter_views(counters@),
            reference_value,
            orientation,
        );
    }
    let ghost series = counter_views(counters@);
    let ghost g = old(overlay)@.geometry;
    let total: usize = match shortest_history_len(counters) {
        Some(n) => n,
        None => {
            return ;
        },
    };
    proof {
        lemma_shortest_history(series);
    }
    let frame = orient(rect, orientation);
    let mut max: Sample = i64::MIN;
    let mut k: usize = 0;
    while k < total
        invariant
            k <= total,
            max == peak(counter_views(counters@), k as nat),
        decreases total - k,
    {
        let sum: Sample = slot_total(counters, k);
        if sum > max {
            max = sum;
        }
        k = k + 1;
    }
    let width: i32 = bar_width_px(&frame, total);
    let scale: Sample = if max >= reference_value {
        max
    } else {
        reference_value
    };
    let height: i64 = frame.1.y as i64 - frame.0.y as i64;
    let mut x0: i32 = frame.0.x;
    let mut slot: usize = 0;
    loop
        invariant
            slot <= total,
            0 < total,
            series == counter_views(counters@),
            g == old(overlay)@.geometry,
            shortest_history(series) == Some(total as nat),
            exists|j: int| 0 <= j < series.len() && (#[trigger] series[j]).history.len() == total,
            layer < g.layers.len(),
            height == frame.1.y - frame.0.y,
            frame == oriented(rect, orientation),
            width == bar_width(frame, total as int),
            scale == higher(peak(series, total as nat), reference_value),
            x0 == bar_left(frame.0.x, width, slot as nat),
            slots_stacked(g, layer as int, frame, series, width, scale, orientation, slot as nat).complete,
            overlay@ == old(overlay)@.with_geometry(
                slots_stacked(
                    g,
                    layer as int,
                    frame,
                    series,
                    width,
                    scale,
                    orientation,
                    slot as nat,
                ).geometry,
            ),
            overlay@.geometry.layers.len() == g.layers.len(),
        decreases total - slot,
    {
        let ghost under = overlay@.geometry;
        let mut y0: i32 = frame.1.y;
        let x1: i32 = px_add(x0, width);
        let mut j: usize = 0;
        while j < counters.len()
            invariant
                j <= counters@.len(),
                slot <= total,
                0 < total,
                series == counter_views(counters@),
                g == old(overlay)@.geometry,
                layer < g.layers.len(),
                layer < under.layers.len(),
                under.layers.len() == g.layers.len(),
                height == frame.1.y - frame.0.y,
                x0 == bar_left(frame.0.x, width, slot as nat),
                x1 == px(x0 + width),
                under == slots_stacked(
                    g,
                    layer as int,
                    frame,
                    series,
                    width,
                    scale,
                    orientation,
                    slot as nat,
                ).geometry,
                slots_stacked(g, layer as int, frame, series, width, scale, orientation, slot as nat).complete,
                shortest_history(series) == Some(total as nat),
                frame == oriented(rect, orientation),
                width == bar_width(frame, total as int),
                scale == higher(peak(series, total as nat), reference_value),
                (Stack { geometry: overlay@.geometry, top: y0, complete: true }) == stacked(
                    under,
                    layer as int,
                    frame,
                    series,
                    slot as nat,
                    width,
                    scale,
                    orientation,
                    j as nat,
                ),
                overlay@ == old(overlay)@.with_geometry(overlay@.geometry),
            decreases counters@.len() - j,
        {
            proof {
                lemma_stacked_shape(
                    under,
                    layer as int,
                    frame,
                    series,
                    slot as nat,
                    width,
                    scale,
                    orientation,
                    j as nat,
                );
            }
            let len: usize = counters[j].history_len();
            if len > 0 {
                if len <= slot {
                    proof {
                        let stopped = stacked(
                            under,
                            layer as int,
                            frame,
                            series,
                            slot as nat,
                            width,
                            scale,
                            orientation,
                            (j + 1) as nat,
                        );
                        assert(!stopped.complete);
                        assert(stopped.geometry == overlay@.geometry);
                        lemma_stacked_stops(
                            under,
                            layer as int,
                            frame,
                            series,
                            slot as nat,
                            width,
                            scale,
                            orientation,
                            (j + 1) as nat,
                            series.len(),
                        );
                        assert(slots_stacked(
                            g,
                            layer as int,
                            frame,
                            series,
                            width,
                            scale,
                            orientation,
                            (slot + 1) as nat,
                        ) == stopped);
                        lemma_slots_stacked_stops(
                            g,
                            layer as int,
                            frame,
                            series,
                            width,
                            scale,
                            orientation,
                            (slot + 1) as nat,
                            (total + 1) as nat,
                        );
                        lemma_graphs_shape(
                            g,
                            layer as int,
                            rect,
                            series,
                            reference_value,
                            orientation,
                        );
                    }
                    return ;
                }
                match counters[j].history_slot(slot) {
                    Some(v) => {
                        let y1: i32 = bar_end_px(y0, v, height, scale);
                        let bar = orient(
                            (Point { x: x0, y: y0 }, Point { x: x1, y: y1 }),
                            orientation,
                        );
                        let color: Color = counters[j].descriptor().color;
                        overlay.geometry.push_rectangle(layer, &bar, color, color);
                        y0 = y1;
                    },
                    None => {},
                }
            }
            j = j + 1;
        }
        proof {
            lemma_stacked_complete(
                under,
                layer as int,
                frame,
                series,
                slot as nat,
                width,
                scale,
                orientation,
                series.len(),
            );
            let shortest = choose|j: int|
                0 <= j < series.len() && (#[trigger] series[j]).history.len() == total;
            assert(series[shortest].history.len() > slot);
            assert(slot < total);
            lemma_stacked_shape(
                under,
                layer as int,
                frame,
                series,
                slot as nat,
                width,
                scale,
                orientation,
                series.len(),
            );
        }
        x0 = x1;
        slot = slot + 1;
    }
}

/// The size that an item takes: the one it asks for, or else that of the
/// current group, or 100 pixels if the group has none yet.
pub open spec fn extent(requested: Option<i32>, current: i32) -> i32 {
    match requested {
        Some(size) => size,
        None => if current > 0 {
            current
        } else {
            100
        },
    }
}

/// The rectangle of a graph that is drawn at `position`.
pub open spec fn graph_rect(position: Point, width: Option<i32>, height: Option<i32>, before: OverlayView) -> (Point, Point) {
    (
        position,
        Point {
            x: px(position.x + extent(width, before.group_width())),
            y: px(position.y + extent(height, before.group_height())),
        },
    )
}

/// The rectangle of a graph that is drawn at `origin`, computed.
fn item_rect(origin: Point, width: Option<i32>, height: Option<i32>, overlay: &Overlay) -> (rect: (Point, Point))
    ensures
        rect == graph_rect(origin, width, height, overlay@),
{
    let w: i32 = match width {
        Some(size) => size,
        None => {
            let current: i32 = overlay.current_group_width();
            if current > 0 {
                current
            } else {
                100
            }
        },
    };
    let h: i32 = match height {
        Some(size) => size,
        None => {
            let current: i32 = overlay.current_group_height();
            if current > 0 {
                current
            } else {
                100
            }
        },
    };
    (origin, Point { x: px_add(origin.x, w), y: px_add(origin.y, h) })
}

impl<'a> OverlayItem for Graph<'a> {
    /// The graph of the counter's history in the front layer. The graph
    /// takes up its whole rectangle, whatever it draws.
    open spec fn drawn(&self, position: Point, before: OverlayView) -> (GeometryView, (Point, Point)) {
        let rect = graph_rect(position, self.width, self.height, before);
        (
            graph_geometry(
                before.geometry,
                FRONT_LAYER as int,
                rect,
                self.counter@.history,
                self.reference_value,
                self.color,
                self.orientation,
            ),
            rect,
        )
    }

    fn draw(&self, origin: Point, overlay: &mut Overlay) -> (rect: (Point, Point)) {
        let rect = item_rect(origin, self.width, self.height, overlay);
        draw_graph(
            FRONT_LAYER,
            rect,
            self.counter,
            self.reference_value,
            self.color,
            self.orientation,
            overlay,
        );
        rect
    }
}

impl<'a> OverlayItem for Graphs<'a> {
    /// The stacked graph of the counters' histories in the front layer.
    /// The graph takes up its whole rectangle, whatever it draws.
    open spec fn drawn(&self, position: Point, before: OverlayView) -> (GeometryView, (Point, Point)) {
        let rect = graph_rect(position, self.width, self.height, before);
        (
            graphs_geometry(
                before.geometry,
                FRONT_LAYER as int,
                rect,
                counter_views(self.counters@),
                self.reference_value,
                self.orientation,
            ),
            rect,
        )
    }

    fn draw(&self, origin: Point, overlay: &mut Overlay) -> (rect: (Point, Point)) {
        let rect = item_rect(origin, self.width, self.height, overlay);
        draw_graphs(
            FRONT_LAYER,
            rect,
            self.counters,
            self.reference_value,
            self.orientation,
            overlay,
        );
        rect
    }
}

} // verus!
