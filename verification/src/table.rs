//! Tables of counters: one row per counter, one column per thing that is
//! shown of it.

use vstd::prelude::*;
use vstd::string::{StrSliceExecFns, StringExecFns};
use crate::counter::{Counter, CounterView, Format, Orientation, Sample};
use crate::geometry::{
    lemma_put_text_shape, lemma_with_rectangle_wf, Color, GeometryView, Point, TextState,
    FRONT_LAYER,
};
use crate::graph::{draw_graph, graph_geometry, lemma_graph_shape};
use crate::overlay::{Overlay, OverlayItem, OverlayView, Style};
use crate::pixel::{clamp_px, clamp_px_wide, max_i32, max_int, min_i32, min_int, px, px_add};
use crate::text::{
    aligned_with_suffix, format_hundredths, format_int, hundredths_decimal, right_aligned,
    signed_decimal, str_eq,
};

verus! {

/// What a column shows of each counter.
#[derive(Copy, Clone, Debug, PartialEq, Eq, Structural)]
pub enum ColumnKind {
    /// Nothing.
    Empty,
    /// A swatch of the counter's color.
    Color,
    /// The counter's name.
    Name,
    /// The mean of the last window.
    Avg,
    /// The lowest sample of the last window.
    Min,
    /// The highest sample of the last window.
    Max,
    /// The sample that was set last.
    Value,
    /// A small graph of the counter's history.
    HistoryGraph,
    /// Kept for later; shows nothing.
    Changed,
}

/// A column of a table.
#[derive(Copy, Clone, Debug)]
pub struct Column {
    pub kind: ColumnKind,
    /// Whether the counter's unit is shown with it.
    pub unit: bool,
    /// What stands above the column, if the table shows labels.
    pub label: Option<&'static str>,
}

impl Column {
    /// A column of this kind, without unit or label.
    pub open spec fn of(kind: ColumnKind) -> Column {
        Column { kind, unit: false, label: None }
    }

    /// A column of color swatches.
    pub fn color() -> (column: Self)
        ensures
            column == Column::of(ColumnKind::Color),
    {
        Column { kind: ColumnKind::Color, unit: false, label: None }
    }

    /// A column of names.
    pub fn name() -> (column: Self)
        ensures
            column == Column::of(ColumnKind::Name),
    {
        Column { kind: ColumnKind::Name, unit: false, label: None }
    }

    /// A column of means.
    pub fn avg() -> (column: Self)
        ensures
            column == Column::of(ColumnKind::Avg),
    {
        Column { kind: ColumnKind::Avg, unit: false, label: None }
    }

    /// A column of lowest samples.
    pub fn min() -> (column: Self)
        ensures
            column == Column::of(ColumnKind::Min),
    {
        Column { kind: ColumnKind::Min, unit: false, label: None }
    }

    /// A column of highest samples.
    pub fn max() -> (column: Self)
        ensures
            column == Column::of(ColumnKind::Max),
    {
        Column { kind: ColumnKind::Max, unit: false, label: None }
    }

    /// A column of the samples that were set last.
    pub fn value() -> (column: Self)
        ensures
            column == Column::of(ColumnKind::Value),
    {
        Column { kind: ColumnKind::Value, unit: false, label: None }
    }

    /// A column of history graphs.
    pub fn history_graph() -> (column: Self)
        ensures
            column == Column::of(ColumnKind::HistoryGraph),
    {
        Column { kind: ColumnKind::HistoryGraph, unit: false, label: None }
    }

    /// The same column, showing units.
    pub fn with_unit(self) -> (column: Self)
        ensures
            column == (Column { unit: true, ..self }),
    {
        Column { unit: true, ..self }
    }

    /// The same column under a label.
    pub fn label(self, label: &'static str) -> (column: Self)
        ensures
            column == (Column { label: Some(label), ..self }),
    {
        Column { label: Some(label), ..self }
    }
}

/// A table of counters.
pub struct Table<'a> {
    pub columns: &'a [Column],
    pub rows: &'a [&'a Counter],
    /// Whether the columns' labels stand above the rows.
    pub labels: bool,
}

/// The box `(min, max)` stretched to hold `pos`.
pub open spec fn stretched(min: Point, max: Point, pos: Point) -> (Point, Point) {
    (
        Point {
            x: min_int(min.x as int, pos.x as int) as i32,
            y: min_int(min.y as int, pos.y as int) as i32,
        },
        Point {
            x: max_int(max.x as int, pos.x as int) as i32,
            y: max_int(max.y as int, pos.y as int) as i32,
        },
    )
}

/// Stretches the box `(min, max)` to hold `pos`.
pub fn add_point_to_rect(pos: Point, min: &mut Point, max: &mut Point)
    ensures
        (*final(min), *final(max)) == stretched(*old(min), *old(max), pos),
{
    min.x = min_i32(min.x, pos.x);
    min.y = min_i32(min.y, pos.y);
    max.x = max_i32(max.x, pos.x);
    max.y = max_i32(max.y, pos.y);
}

/// The rectangle between two corners given as pairs.
pub fn rect(r: ((i32, i32), (i32, i32))) -> (corners: (Point, Point))
    ensures
        corners == (Point { x: r.0.0, y: r.0.1 }, Point { x: r.1.0, y: r.1.1 }),
{
    (Point { x: r.0.0, y: r.0.1 }, Point { x: r.1.0, y: r.1.1 })
}

/// The text of a name cell: the name, and the unit in brackets if there is one.
pub open spec fn name_text(name: Seq<char>, unit: Seq<char>) -> Seq<char> {
    if unit.len() > 0 {
        name + " ("@ + unit + ")"@
    } else {
        name
    }
}

/// The text of a value cell: the number right-aligned in five characters,
/// whole or with two decimals as the format says, then the unit.
pub open spec fn value_text(value: Sample, format: Format, unit: Seq<char>) -> Seq<char> {
    right_aligned(
        match format {
            Format::Int => signed_decimal(value as int),
            Format::Float => hundredths_decimal(value as int),
        },
        5,
    ) + unit
}

/// A cell that shows nothing: the geometry as it was, and no area.
pub open spec fn blank_cell(g: GeometryView, x: i32, y: i32) -> (GeometryView, (Point, Point)) {
    (g, (Point { x, y }, Point { x, y }))
}

/// A cell of text with its pen starting at `(x, y)`.
pub open spec fn text_cell(g: GeometryView, x: i32, y: i32, text: Seq<char>, color: Color) -> (
    GeometryView,
    (Point, Point),
) {
    let set = TextState::start(g, Point { x, y }).put_text(FRONT_LAYER as int, text, color);
    (set.geometry, (set.min, set.max))
}

/// A cell that shows a number, or nothing if there is none.
pub open spec fn value_cell(
    g: GeometryView,
    x: i32,
    y: i32,
    value: Option<Sample>,
    counter: CounterView,
    unit: bool,
    color: Color,
) -> (GeometryView, (Point, Point)) {
    match value {
        Some(v) => text_cell(
            g,
            x,
            y,
            value_text(
                v,
                counter.descriptor.format,
                if unit {
                    counter.descriptor.unit@
                } else {
                    Seq::empty()
                },
            ),
            color,
        ),
        None => blank_cell(g, x, y),
    }
}

/// The value that fills the height of a history graph in a table if no
/// sample is higher: eight milliseconds for a counter of milliseconds,
/// zero for any other.
pub open spec fn history_reference(counter: CounterView) -> Sample {
    if counter.descriptor.unit@ == "ms"@ {
        match counter.descriptor.format {
            Format::Int => 8,
            Format::Float => 800,
        }
    } else {
        0
    }
}

/// The rectangle of a history graph in a table: one pixel per frame wide,
/// one line high, standing on `y`.
pub open spec fn history_rect(g: GeometryView, x: i32, y: i32, slots: nat) -> (Point, Point) {
    (Point { x, y: px(y - g.font.font_height) }, Point { x: px(x + slots), y })
}

/// The rectangle of a color swatch: ten pixels square, one pixel above `y`.
pub open spec fn swatch_rect(x: i32, y: i32) -> (Point, Point) {
    (Point { x, y: px(y - 11) }, Point { x: px(x + 10), y: px(y - 1) })
}

/// What the cell of `column` for `counter` makes of the geometry when it
/// is drawn at `(x, y)`, and the rectangle that it takes up.
pub open spec fn cell(g: GeometryView, x: i32, y: i32, column: Column, counter: CounterView, color: Color) -> (
    GeometryView,
    (Point, Point),
) {
    match column.kind {
        ColumnKind::Empty => blank_cell(g, x, y),
        ColumnKind::Name => text_cell(
            g,
            x,
            y,
            name_text(
                counter.descriptor.name@,
                if column.unit {
                    counter.descriptor.unit@
                } else {
                    Seq::empty()
                },
            ),
            color,
        ),
        ColumnKind::Value => value_cell(g, x, y, counter.last_value, counter, column.unit, color),
        ColumnKind::Avg => value_cell(g, x, y, counter.displayed_avg, counter, column.unit, color),
        ColumnKind::Min => value_cell(g, x, y, counter.displayed_min, counter, column.unit, color),
        ColumnKind::Max => value_cell(g, x, y, counter.displayed_max, counter, column.unit, color),
        ColumnKind::HistoryGraph => if counter.history.len() > 0 {
            let rect = history_rect(g, x, y, counter.history.len());
            (
                graph_geometry(
                    g,
                    FRONT_LAYER as int,
                    rect,
                    counter.history,
                    history_reference(counter),
                    color,
                    Orientation::Vertical,
                ),
                rect,
            )
        } else {
            blank_cell(g, x, y)
        },
        ColumnKind::Color => (
            g.with_rectangle(
                FRONT_LAYER as int,
                swatch_rect(x, y),
                counter.descriptor.color,
                counter.descriptor.color,
            ),
            swatch_rect(x, y),
        ),
        ColumnKind::Changed => blank_cell(g, x, y),
    }
}

/// A cell leaves the number of layers and the font as they were, and
/// keeps every index inside the pool.
pub proof fn lemma_cell_shape(g: GeometryView, x: i32, y: i32, column: Column, counter: CounterView, color: Color)
    requires
        g.layers.len() >= 2,
    ensures
        cell(g, x, y, column, counter, color).0.layers.len() == g.layers.len(),
        cell(g, x, y, column, counter, color).0.font == g.font,
        g.wf() ==> cell(g, x, y, column, counter, color).0.wf(),
{
    let here = Point { x, y };
    match column.kind {
        ColumnKind::Name => {
            lemma_put_text_shape(
                TextState::start(g, here),
                FRONT_LAYER as int,
                name_text(
                    counter.descriptor.name@,
                    if column.unit {
                        counter.descriptor.unit@
                    } else {
                        Seq::empty()
                    },
                ),
                color,
            );
        },
        ColumnKind::Value => {
            lemma_value_cell_shape(g, x, y, counter.last_value, counter, column.unit, color);
        },
        ColumnKind::Avg => {
            lemma_value_cell_shape(g, x, y, counter.displayed_avg, counter, column.unit, color);
        },
        ColumnKind::Min => {
            lemma_value_cell_shape(g, x, y, counter.displayed_min, counter, column.unit, color);
        },
        ColumnKind::Max => {
            lemma_value_cell_shape(g, x, y, counter.displayed_max, counter, column.unit, color);
        },
        ColumnKind::HistoryGraph => {
            if counter.history.len() > 0 {
                lemma_graph_shape(
                    g,
                    FRONT_LAYER as int,
                    history_rect(g, x, y, counter.history.len()),
                    counter.history,
                    history_reference(counter),
                    color,
                    Orientation::Vertical,
                );
            }
        },
        ColumnKind::Color => {
            if g.wf() {
                lemma_with_rectangle_wf(
                    g,
                    FRONT_LAYER as int,
                    swatch_rect(x, y),
                    counter.descriptor.color,
                    counter.descriptor.color,
                );
            }
        },
        _ => {},
    }
}

/// A value cell leaves the number of layers and the font as they were,
/// and keeps every index inside the pool.
pub proof fn lemma_value_cell_shape(
    g: GeometryView,
    x: i32,
    y: i32,
    value: Option<Sample>,
    counter: CounterView,
    unit: bool,
    color: Color,
)
    requires
        g.layers.len() >= 2,
    ensures
        value_cell(g, x, y, value, counter, unit, color).0.layers.len() == g.layers.len(),
        value_cell(g, x, y, value, counter, unit, color).0.font == g.font,
        g.wf() ==> value_cell(g, x, y, value, counter, unit, color).0.wf(),
{
    match value {
        Some(v) => {
            lemma_put_text_shape(
                TextState::start(g, Point { x, y }),
                FRONT_LAYER as int,
                value_text(
                    v,
                    counter.descriptor.format,
                    if unit {
                        counter.descriptor.unit@
                    } else {
                        Seq::empty()
                    },
                ),
                color,
            );
        },
        None => {},
    }
}

/// Draws a cell of text with its pen starting at `(x, y)`: the text, and
/// the unit in brackets behind it if there is one.
pub fn draw_cell_text(x: i32, y: i32, text: &str, unit: &str, color: Color, overlay: &mut Overlay) -> (area: (
    Point,
    Point,
))
    requires
        old(overlay)@.wf(),
    ensures
        final(overlay)@ == old(overlay)@.with_geometry(
            text_cell(old(overlay)@.geometry, x, y, name_text(text@, unit@), color).0,
        ),
        area == text_cell(old(overlay)@.geometry, x, y, name_text(text@, unit@), color).1,
{
    if unit.unicode_len() > 0 {
        let mut s = String::from_str(text);
        s.append(" (");
        s.append(unit);
        s.append(")");
        overlay.geometry.push_text(FRONT_LAYER, s.as_str(), Point { x, y }, color)
    } else {
        overlay.geometry.push_text(FRONT_LAYER, text, Point { x, y }, color)
    }
}

/// Draws a cell that shows a number. Without a number the cell stays
/// blank: nothing is drawn, and the cell has no area.
pub fn draw_cell_value(
    x: i32,
    y: i32,
    val: Option<Sample>,
    counter: &Counter,
    unit: bool,
    color: Color,
    overlay: &mut Overlay,
) -> (area: (Point, Point))
    requires
        old(overlay)@.wf(),
    ensures
        final(overlay)@ == old(overlay)@.with_geometry(
            value_cell(old(overlay)@.geometry, x, y, val, counter@, unit, color).0,
        ),
        area == value_cell(old(overlay)@.geometry, x, y, val, counter@, unit, color).1,
        val is None ==> final(overlay)@ == old(overlay)@ && area == (Point { x, y }, Point { x, y }),
{
    let v: Sample = match val {
        Some(v) => v,
        None => {
            return (Point { x, y }, Point { x, y });
        },
    };
    let descriptor = counter.descriptor();
    let unit_str: &str = if unit {
        descriptor.unit
    } else {
        ""
    };
    proof {
        reveal_strlit("");
        assert(""@ =~= Seq::<char>::empty());
    }
    let number: Vec<char> = match descriptor.format {
        Format::Int => format_int(v),
        Format::Float => format_hundredths(v),
    };
    let s = aligned_with_suffix(&number, 5, unit_str);
    overlay.geometry.push_text(FRONT_LAYER, s.as_str(), Point { x, y }, color)
}

/// Draws the cell of `column` for `counter` at `(x, y)`.
pub fn draw_cell(x: i32, y: i32, column: &Column, counter: &Counter, color: Color, overlay: &mut Overlay) -> (area: (
    Point,
    Point,
))
    requires
        old(overlay)@.wf(),
    ensures
        final(overlay)@ == old(overlay)@.with_geometry(
            cell(old(overlay)@.geometry, x, y, *column, counter@, color).0,
        ),
        area == cell(old(overlay)@.geometry, x, y, *column, counter@, color).1,
        final(overlay)@.wf(),
        old(overlay)@.geometry.wf() ==> final(overlay)@.geometry.wf(),
        final(overlay)@.geometry.font == old(overlay)@.geometry.font,
        column.kind == ColumnKind::Avg && counter@.displayed_avg is None ==> final(overlay)@ == old(overlay)@ && area == (Point { x, y }, Point { x, y }),
{
    proof {
        lemma_cell_shape(old(overlay)@.geometry, x, y, *column, counter@, color);
    }
    match column.kind {
        ColumnKind::Empty => rect(((x, y), (x, y))),
        ColumnKind::Name => {
            let descriptor = counter.descriptor();
            proof {
                reveal_strlit("");
                assert(""@ =~= Seq::<char>::empty());
            }
            draw_cell_text(
                x,
                y,
                descriptor.name,
                if column.unit {
                    descriptor.unit
                } else {
                    ""
                },
                color,
                overlay,
            )
        },
        ColumnKind::Value => draw_cell_value(
            x,
            y,
            counter.last_value(),
            counter,
            column.unit,
            color,
            overlay,
        ),
        ColumnKind::Avg => draw_cell_value(
            x,
            y,
            counter.displayed_avg(),
            counter,
            column.unit,
            color,
            overlay,
        ),
        ColumnKind::Min => draw_cell_value(
            x,
            y,
            counter.displayed_min(),
            counter,
            column.unit,
            color,
            overlay,
        ),
        ColumnKind::Max => draw_cell_value(
            x,
            y,
            counter.displayed_max(),
            counter,
            column.unit,
            color,
            overlay,
        ),
        ColumnKind::HistoryGraph => {
            let slots: usize = counter.history_len();
            if slots > 0 {
                let area = (
                    Point {
                        x,
                        y: clamp_px(y as i64 - overlay.geometry.font().font_height as i64),
                    },
                    Point { x: clamp_px_wide(x as i128 + slots as i128), y },
                );
                let descriptor = counter.descriptor();
                let ref_value: Sample = if str_eq(descriptor.unit, "ms") {
                    match descriptor.format {
                        Format::Int => 8,
                        Format::Float => 800,
                    }
                } else {
                    0
                };
                draw_graph(
                    FRONT_LAYER,
                    area,
                    counter,
                    ref_value,
                    color,
                    Orientation::Vertical,
                    overlay,
                );
                area
            } else {
                (Point { x, y }, Point { x, y })
            }
        },
        ColumnKind::Color => {
            let r = rect(
                (
                    (x, clamp_px(y as i64 - 11)),
                    (clamp_px(x as i64 + 10), clamp_px(y as i64 - 1)),
                ),
            );
            let c: Color = counter.descriptor().color;
            overlay.geometry.push_rectangle(FRONT_LAYER, &r, c, c);
            r
        },
        ColumnKind::Changed => (Point { x, y }, Point { x, y }),
    }
}

/// A table while it is drawn.
pub struct TableState {
    pub geometry: GeometryView,
    /// The corners of the box around what was drawn.
    pub min: Point,
    pub max: Point,
    /// The left edge of the column that is being drawn.
    pub x: i32,
    /// The base line of the row that is being drawn.
    pub y: i32,
}

/// Distance between the base lines of two rows.
pub open spec fn row_height(style: Style, g: GeometryView) -> i32 {
    px(style.line_spacing + g.font.font_height)
}

/// The text color of row `i`: the highlight color if the counter's
/// displayed extremes lie outside its safe range, else the style's two
/// text colors in turn.
pub open spec fn row_color(style: Style, row: CounterView, i: int) -> Color {
    if row.descriptor.out_of_range(row.displayed_min, row.displayed_max) {
        style.highlight_color
    } else {
        style.text_color[i % 2]
    }
}

/// The state after the head of a column: with labels shown, the label is
/// set in the title color and the rows start one row and one margin lower.
pub open spec fn column_head(state: TableState, column: Column, labels: bool, style: Style) -> TableState {
    if labels {
        let height = row_height(style, state.geometry);
        match column.label {
            Some(label) => {
                let set = text_cell(state.geometry, state.x, state.y, label@, style.title_color);
                let bounds = stretched(state.min, state.max, set.1.1);
                TableState {
                    geometry: set.0,
                    min: bounds.0,
                    max: bounds.1,
                    y: px(state.y + height + style.margin),
                    ..state
                }
            },
            None => TableState { y: px(state.y + height + style.margin), ..state },
        }
    } else {
        state
    }
}

/// The state after the cells of a column for `rows`, top to bottom.
pub open spec fn rows_drawn(state: TableState, column: Column, rows: Seq<CounterView>, style: Style) -> TableState
    decreases rows.len(),
{
    if rows.len() == 0 {
        state
    } else {
        let before = rows_drawn(state, column, rows.drop_last(), style);
        let drawn = cell(
            before.geometry,
            before.x,
            before.y,
            column,
            rows.last(),
            row_color(style, rows.last(), rows.len() - 1),
        );
        let bounds = stretched(before.min, before.max, drawn.1.1);
        TableState {
            geometry: drawn.0,
            min: bounds.0,
            max: bounds.1,
            y: px(before.y + row_height(style, before.geometry)),
            ..before
        }
    }
}

/// The state after a whole column. The next column starts one column
/// spacing right of everything drawn so far, and never left of this one;
/// its first base line is `top`.
pub open spec fn column_drawn(
    state: TableState,
    column: Column,
    rows: Seq<CounterView>,
    labels: bool,
    style: Style,
    top: i32,
) -> TableState {
    let body = rows_drawn(column_head(state, column, labels, style), column, rows, style);
    TableState {
        x: px(state.x + max_int(body.max.x - state.x, 0) + style.column_spacing),
        y: top,
        ..body
    }
}

/// The state after the columns, left to right.
pub open spec fn columns_drawn(
    state: TableState,
    columns: Seq<Column>,
    rows: Seq<CounterView>,
    labels: bool,
    style: Style,
    top: i32,
) -> TableState
    decreases columns.len(),
{
    if columns.len() == 0 {
        state
    } else {
        column_drawn(
            columns_drawn(state, columns.drop_last(), rows, labels, style, top),
            columns.last(),
            rows,
            labels,
            style,
            top,
        )
    }
}

/// The state in which a table starts at `position`: its first base line
/// is one line below.
pub open spec fn table_start(g: GeometryView, position: Point) -> TableState {
    TableState {
        geometry: g,
        min: position,
        max: position,
        x: position.x,
        y: px(position.y + g.font.font_height),
    }
}

/// The rows as mathematics.
pub open spec fn row_views(rows: Seq<&Counter>) -> Seq<CounterView> {
    Seq::new(rows.len(), |i: int| rows[i]@)
}

/// The head of a column leaves the number of layers and the font as they
/// were, and keeps every index inside the pool.
pub proof fn lemma_column_head_shape(state: TableState, column: Column, labels: bool, style: Style)
    requires
        state.geometry.layers.len() >= 2,
    ensures
        column_head(state, column, labels, style).geometry.layers.len()
            == state.geometry.layers.len(),
        column_head(state, column, labels, style).geometry.font == state.geometry.font,
        column_head(state, column, labels, style).x == state.x,
        state.geometry.wf() ==> column_head(state, column, labels, style).geometry.wf(),
{
    if labels {
        match column.label {
            Some(label) => {
                lemma_put_text_shape(
                    TextState::start(state.geometry, Point { x: state.x, y: state.y }),
                    FRONT_LAYER as int,
                    label@,
                    style.title_color,
                );
            },
            None => {},
        }
    }
}

/// The cells of a column leave the number of layers and the font as they
/// were, and keep every index inside the pool.
pub proof fn lemma_rows_shape(state: TableState, column: Column, rows: Seq<CounterView>, style: Style)
    requires
        state.geometry.layers.len() >= 2,
    ensures
        rows_drawn(state, column, rows, style).geometry.layers.len() == state.geometry.layers.len(),
        rows_drawn(state, column, rows, style).geometry.font == state.geometry.font,
        rows_drawn(state, column, rows, style).x == state.x,
        state.geometry.wf() ==> rows_drawn(state, column, rows, style).geometry.wf(),
    decreases rows.len(),
{
    if rows.len() > 0 {
        lemma_rows_shape(state, column, rows.drop_last(), style);
        let before = rows_drawn(state, column, rows.drop_last(), style);
        lemma_cell_shape(
            before.geometry,
            before.x,
            before.y,
            column,
            rows.last(),
            row_color(style, rows.last(), rows.len() - 1),
        );
    }
}

/// The columns leave the number of layers and the font as they were, and
/// keep every index inside the pool.
pub proof fn lemma_columns_shape(
    state: TableState,
    columns: Seq<Column>,
    rows: Seq<CounterView>,
    labels: bool,
    style: Style,
    top: i32,
)
    requires
        state.geometry.layers.len() >= 2,
    ensures
        columns_drawn(state, columns, rows, labels, style, top).geometry.layers.len()
            == state.geometry.layers.len(),
        columns_drawn(state, columns, rows, labels, style, top).geometry.font
            == state.geometry.font,
        state.geometry.wf() ==> columns_drawn(state, columns, rows, labels, style, top).geometry.wf(),
    decreases columns.len(),
{
    if columns.len() > 0 {
        lemma_columns_shape(state, columns.drop_last(), rows, labels, style, top);
        let before = columns_drawn(state, columns.drop_last(), rows, labels, style, top);
        lemma_column_head_shape(before, columns.last(), labels, style);
        lemma_rows_shape(
            column_head(before, columns.last(), labels, style),
            columns.last(),
            rows,
            style,
        );
    }
}

impl<'a> OverlayItem for Table<'a> {
    /// The table with its top-left corner at `position`, column by
    /// column, in the front layer. The rectangle is the box around
    /// `position` and the bottom-right corners of all cells and labels.
    open spec fn drawn(&self, position: Point, before: OverlayView) -> (GeometryView, (Point, Point)) {
        let start = table_start(before.geometry, position);
        let end = columns_drawn(
            start,
            self.columns@,
            row_views(self.rows@),
            self.labels,
            before.style,
            start.y,
        );
        (end.geometry, (end.min, end.max))
    }

    fn draw(&self, origin: Point, overlay: &mut Overlay) -> (area: (Point, Point)) {
        let mut min: Point = origin;
        let mut max: Point = origin;
        let style: Style = overlay.style;
        let font_height: i64 = overlay.geometry.font().font_height as i64;
        let height: i32 = clamp_px(style.line_spacing as i64 + font_height);
        let y0: i32 = clamp_px(origin.y as i64 + font_height);
        let mut x: i32 = origin.x;
        let ghost rows = row_views(self.rows@);
        let ghost start = table_start(old(overlay)@.geometry, origin);
        let mut c: usize = 0;
        while c < self.columns.len()
            invariant
                c <= self.columns@.len(),
                rows == row_views(self.rows@),
                start == table_start(old(overlay)@.geometry, origin),
                style == old(overlay)@.style,
                y0 == start.y,
                font_height == old(overlay)@.geometry.font.font_height,
                height == row_height(style, old(overlay)@.geometry),
                old(overlay)@.wf(),
                overlay@.wf(),
                overlay@.geometry.font == old(overlay)@.geometry.font,
                old(overlay)@.geometry.wf() ==> overlay@.geometry.wf(),
                overlay@ == old(overlay)@.with_geometry(overlay@.geometry),
                (TableState { geometry: overlay@.geometry, min, max, x, y: y0 }) == columns_drawn(
                    start,
                    self.columns@.take(c as int),
                    rows,
                    self.labels,
                    style,
                    y0,
                ),
            decreases self.columns@.len() - c,
        {
            let column: Column = self.columns[c];
            let ghost left = TableState { geometry: overlay@.geometry, min, max, x, y: y0 };
            proof {
                assert(self.columns@.take(c + 1).drop_last() == self.columns@.take(c as int));
                assert(self.columns@.take(c + 1).last() == column);
                lemma_column_head_shape(left, column, self.labels, style);
            }
            let mut y: i32 = y0;
            if self.labels {
                match column.label {
                    Some(label) => {
                        let r = overlay.geometry.push_text(
                            FRONT_LAYER,
                            label,
                            Point { x, y },
                            style.title_color,
                        );
                        add_point_to_rect(r.1, &mut min, &mut max);
                    },
                    None => {},
                }
                y = clamp_px(y as i64 + height as i64 + style.margin as i64);
            }
            let ghost head = column_head(left, column, self.labels, style);
            assert((TableState { geometry: overlay@.geometry, min, max, x, y }) == head);
            let mut i: usize = 0;
            while i < self.rows.len()
                invariant
                    i <= self.rows@.len(),
                    rows == row_views(self.rows@),
                    style == old(overlay)@.style,
                    height == row_height(style, old(overlay)@.geometry),
                    head.geometry.layers.len() >= 2,
                    head.geometry.font == old(overlay)@.geometry.font,
                    overlay@.wf(),
                    overlay@.geometry.font == old(overlay)@.geometry.font,
                    old(overlay)@.geometry.wf() ==> overlay@.geometry.wf(),
                    overlay@ == old(overlay)@.with_geometry(overlay@.geometry),
                    (TableState { geometry: overlay@.geometry, min, max, x, y }) == rows_drawn(
                        head,
                        column,
                        rows.take(i as int),
                        style,
                    ),
                decreases self.rows@.len() - i,
            {
                proof {
                    assert(rows.take(i + 1).drop_last() == rows.take(i as int));
                    assert(rows.take(i + 1).last() == self.rows@[i as int]@);
                }
                let row: &Counter = self.rows[i];
                let highlight: bool = row.descriptor().out_of_range(
                    row.displayed_min(),
                    row.displayed_max(),
                );
                let color: Color = if highlight {
                    style.highlight_color
                } else {
                    style.text_color[i % 2]
                };
                let r = draw_cell(x, y, &column, row, color, overlay);
                add_point_to_rect(r.1, &mut min, &mut max);
                y = px_add(y, height);
                i = i + 1;
            }
            assert(rows.take(self.rows@.len() as int) == rows);
            let reach: i64 = if max.x as i64 - x as i64 > 0 {
                max.x as i64 - x as i64
            } else {
                0
            };
            x = clamp_px(x as i64 + reach + style.column_spacing as i64);
            c = c + 1;
        }
        assert(self.columns@.take(self.columns@.len() as int) == self.columns@);
        (min, max)
    }
}

/// A counter without a displayed mean gets a blank cell in a column of
/// means: nothing is drawn, and the cell has no area.
pub proof fn lemma_blank_avg_cell(g: GeometryView, x: i32, y: i32, column: Column, counter: CounterView, color: Color)
    requires
        column.kind == ColumnKind::Avg,
        counter.displayed_avg is None,
    ensures
        cell(g, x, y, column, counter, color) == blank_cell(g, x, y),
{
}

} // verus!
