//! The layout engine: items are drawn one after the other into groups, and
//! every group gets a panel behind it.

use vstd::prelude::*;
use crate::counter::Orientation;
use crate::font::GlyphAtlas;
use crate::geometry::{
    Color, GeometryView, OverlayGeometry, Point, TextState, BACKGROUND_LAYER, FRONT_LAYER,
};
use crate::geometry::lemma_put_text_shape;
use crate::pixel::{clamp_px, max_i32, max_int, min_i32, min_int, px};

verus! {

/// Distances and colors of the overlay.
#[derive(Copy, Clone, Debug, PartialEq)]
pub struct Style {
    /// Distance between two items of a group, and between a group and the
    /// edge of its panel.
    pub margin: i32,
    /// Distance between two rows of a table, on top of the font's height.
    pub line_spacing: i32,
    pub min_group_width: i32,
    pub min_group_height: i32,
    /// Distance between two columns of a table.
    pub column_spacing: i32,
    /// Color of a panel at its top and at its bottom edge.
    pub background: [Color; 2],
    /// Text colors of the even and of the odd rows of a table.
    pub text_color: [Color; 2],
    pub title_color: Color,
    pub highlight_color: Color,
}

impl Style {
    /// The style of a new overlay.
    pub open spec fn standard() -> Style {
        Style {
            margin: 10,
            line_spacing: 2,
            min_group_width: 0,
            min_group_height: 0,
            column_spacing: 20,
            background: [(0u8, 0u8, 0u8, 255u8), (0u8, 0u8, 0u8, 200u8)],
            text_color: [(255u8, 255u8, 255u8, 255u8), (200u8, 200u8, 200u8, 255u8)],
            title_color: (120u8, 150u8, 255u8, 255u8),
            highlight_color: (255u8, 100u8, 100u8, 255u8),
        }
    }
}

impl Default for Style {
    fn default() -> (style: Style)
        ensures
            style == Style::standard(),
    {
        Style {
            margin: 10,
            line_spacing: 2,
            min_group_width: 0,
            min_group_height: 0,
            column_spacing: 20,
            background: [(0, 0, 0, 255), (0, 0, 0, 200)],
            text_color: [(255, 255, 255, 255), (200, 200, 200, 255)],
            title_color: (120, 150, 255, 255),
            highlight_color: (255, 100, 100, 255),
        }
    }
}

/// The overlay of one frame: its geometry and where the next item goes.
pub struct Overlay {
    pub geometry: OverlayGeometry,
    pub style: Style,
    /// Where the last item was drawn.
    pub cursor: Point,
    /// The direction in which the items of a group follow each other.
    pub item_flow: Orientation,
    /// The direction in which the groups follow each other.
    pub group_flow: Orientation,
    pub(crate) group_area: (Point, Point),
    pub(crate) in_group: bool,
    pub(crate) max_x: i32,
    pub(crate) max_y: i32,
}

/// An overlay as mathematics.
pub struct OverlayView {
    pub geometry: GeometryView,
    pub style: Style,
    pub cursor: Point,
    pub item_flow: Orientation,
    pub group_flow: Orientation,
    /// The corners of the box around the items of the open group, or of
    /// the group that was closed last.
    pub group_area: (Point, Point),
    /// Whether a group is open.
    pub in_group: bool,
    /// The right edge of the rightmost group of this frame.
    pub max_x: i32,
    /// The bottom edge of the lowest group of this frame.
    pub max_y: i32,
}

/// A rectangle grown by `amount` on all four sides.
pub open spec fn inflated(rect: (Point, Point), amount: int) -> (Point, Point) {
    (
        Point { x: px(rect.0.x - amount), y: px(rect.0.y - amount) },
        Point { x: px(rect.1.x + amount), y: px(rect.1.y + amount) },
    )
}

/// The smallest rectangle that holds both `a` and `b`.
pub open spec fn union(a: (Point, Point), b: (Point, Point)) -> (Point, Point) {
    (
        Point {
            x: min_int(a.0.x as int, b.0.x as int) as i32,
            y: min_int(a.0.y as int, b.0.y as int) as i32,
        },
        Point {
            x: max_int(a.1.x as int, b.1.x as int) as i32,
            y: max_int(a.1.y as int, b.1.y as int) as i32,
        },
    )
}

/// Whether `outer` holds all of `inner`.
pub open spec fn covers(outer: (Point, Point), inner: (Point, Point)) -> bool {
    &&& outer.0.x <= inner.0.x
    &&& outer.0.y <= inner.0.y
    &&& outer.1.x >= inner.1.x
    &&& outer.1.y >= inner.1.y
}

impl OverlayView {
    /// The overlay has its background and its front layer.
    pub open spec fn wf(self) -> bool {
        self.geometry.layers.len() >= 2
    }

    /// The same overlay with another geometry.
    pub open spec fn with_geometry(self, geometry: GeometryView) -> OverlayView {
        OverlayView { geometry, ..self }
    }

    /// The overlay at the start of a frame: nothing drawn, no group open,
    /// the cursor one margin from the top-left corner.
    pub open spec fn reset(self) -> OverlayView {
        let cursor = Point { x: self.style.margin, y: self.style.margin };
        OverlayView {
            geometry: self.geometry.cleared(),
            cursor,
            group_area: (cursor, cursor),
            in_group: false,
            max_x: 0,
            max_y: 0,
            ..self
        }
    }

    /// Width of the box around the current group.
    pub open spec fn group_width(self) -> i32 {
        px(self.group_area.1.x - self.group_area.0.x)
    }

    /// Height of the box around the current group.
    pub open spec fn group_height(self) -> i32 {
        px(self.group_area.1.y - self.group_area.0.y)
    }

    /// Where a new group starts: behind the group before it along the
    /// group flow, three margins away from it unless that group ended
    /// within the first margin.
    pub open spec fn group_origin(self) -> Point {
        match self.group_flow {
            Orientation::Vertical => Point {
                x: self.group_area.0.x,
                y: if self.group_area.1.y > self.style.margin {
                    px(self.group_area.1.y + 3 * self.style.margin)
                } else {
                    self.group_area.1.y
                },
            },
            Orientation::Horizontal => Point {
                x: if self.group_area.1.x > self.style.margin {
                    px(self.group_area.1.x + 3 * self.style.margin)
                } else {
                    self.group_area.1.x
                },
                y: self.group_area.0.y,
            },
        }
    }

    /// The overlay with a new, empty group open.
    pub open spec fn opened(self) -> OverlayView {
        let origin = self.group_origin();
        OverlayView { cursor: origin, group_area: (origin, origin), in_group: true, ..self }
    }

    /// Where the next item goes, `gap` behind the open group's box along
    /// the item flow.
    pub open spec fn item_origin(self, gap: int) -> Point {
        match self.item_flow {
            Orientation::Vertical => Point {
                x: self.group_area.0.x,
                y: px(self.group_area.1.y + gap),
            },
            Orientation::Horizontal => Point {
                x: px(self.group_area.1.x + gap),
                y: self.group_area.0.y,
            },
        }
    }

    /// The overlay ready for its next item: a group is open, and the cursor
    /// is where the item goes. The first item of a group follows the group's
    /// origin directly, every other item keeps one margin from the box.
    pub open spec fn placed(self) -> OverlayView {
        if self.in_group {
            OverlayView { cursor: self.item_origin(self.style.margin as int), ..self }
        } else {
            OverlayView { cursor: self.opened().item_origin(0), ..self.opened() }
        }
    }

    /// The overlay with the group's box grown to hold `rect`.
    pub open spec fn grown(self, rect: (Point, Point)) -> OverlayView {
        OverlayView { group_area: union(self.group_area, rect), ..self }
    }

    /// The overlay with the cursor three margins further along the item
    /// flow, if a group is open.
    pub open spec fn separated(self) -> OverlayView {
        if !self.in_group {
            self
        } else {
            match self.item_flow {
                Orientation::Vertical => OverlayView {
                    cursor: Point {
                        x: self.cursor.x,
                        y: px(self.cursor.y + 3 * self.style.margin),
                    },
                    ..self
                },
                Orientation::Horizontal => OverlayView {
                    cursor: Point {
                        x: px(self.cursor.x + 3 * self.style.margin),
                        y: self.cursor.y,
                    },
                    ..self
                },
            }
        }
    }

    /// Whether the group's box holds nothing.
    pub open spec fn group_is_empty(self) -> bool {
        self.group_area.0.x >= self.group_area.1.x || self.group_area.0.y >= self.group_area.1.y
    }

    /// The box of the group grown to the style's minimum size.
    pub open spec fn full_group_area(self) -> (Point, Point) {
        (
            self.group_area.0,
            Point {
                x: max_int(
                    self.group_area.1.x as int,
                    px(self.group_area.0.x + self.style.min_group_width) as int,
                ) as i32,
                y: max_int(
                    self.group_area.1.y as int,
                    px(self.group_area.0.y + self.style.min_group_height) as int,
                ) as i32,
            },
        )
    }

    /// The overlay with its group closed. An empty group leaves no trace.
    /// Any other group is grown to the minimum size, counted into the
    /// frame's extent, and gets its panel: the box and one margin around it.
    pub open spec fn ended(self) -> OverlayView {
        if self.group_is_empty() {
            OverlayView { in_group: false, ..self }
        } else {
            let area = self.full_group_area();
            OverlayView {
                in_group: false,
                group_area: area,
                max_x: max_int(self.max_x as int, area.1.x as int) as i32,
                max_y: max_int(self.max_y as int, area.1.y as int) as i32,
                geometry: self.geometry.with_rectangle(
                    BACKGROUND_LAYER as int,
                    inflated(area, self.style.margin as int),
                    self.style.background[0],
                    self.style.background[1],
                ),
                ..self
            }
        }
    }

    /// The overlay at the end of the frame: the open group, if any, is closed.
    pub open spec fn finished(self) -> OverlayView {
        if self.in_group {
            self.ended()
        } else {
            self
        }
    }

    /// The overlay with a new column begun: the open group is closed, and
    /// the next group starts at the top, three margins right of everything
    /// drawn so far.
    pub open spec fn with_column(self) -> OverlayView {
        let closed = self.finished();
        let origin = Point {
            x: px(closed.max_x + 3 * closed.style.margin),
            y: closed.style.margin,
        };
        OverlayView { group_area: (origin, origin), ..closed }
    }

    /// The overlay after `item` was drawn: the item is placed, draws
    /// itself, and the group's box grows to hold what the item took up.
    pub open spec fn with_item<I: OverlayItem>(self, item: &I) -> OverlayView {
        let placed = self.placed();
        let drawn = item.drawn(placed.cursor, placed);
        placed.with_geometry(drawn.0).grown(drawn.1)
    }
}

/// Something that can be drawn into an overlay.
pub trait OverlayItem {
    /// What drawing the item at `position` makes of the overlay's
    /// geometry, and the rectangle that the item takes up. An item that
    /// does not say otherwise draws nothing and takes up no room.
    open spec fn drawn(&self, position: Point, before: OverlayView) -> (GeometryView, (Point, Point)) {
        (before.geometry, (position, position))
    }

    /// Draws the item at `position` and returns the rectangle that it
    /// takes up. Of the overlay, only the geometry changes.
    fn draw(&self, position: Point, output: &mut Overlay) -> (rect: (Point, Point))
        requires
            old(output)@.wf(),
        ensures
            final(output)@ == old(output)@.with_geometry(self.drawn(position, old(output)@).0),
            rect == self.drawn(position, old(output)@).1,
            final(output)@.wf(),
            old(output)@.geometry.wf() ==> final(output)@.geometry.wf(),
    ;
}

impl View for Overlay {
    type V = OverlayView;

    open(crate) spec fn view(&self) -> OverlayView {
        OverlayView {
            geometry: self.geometry@,
            style: self.style,
            cursor: self.cursor,
            item_flow: self.item_flow,
            group_flow: self.group_flow,
            group_area: self.group_area,
            in_group: self.in_group,
            max_x: self.max_x,
            max_y: self.max_y,
        }
    }
}

impl Overlay {
    /// An empty overlay in the standard style, with its text set in `font`.
    /// Items follow each other to the right, groups downward.
    pub fn new(font: GlyphAtlas) -> (overlay: Overlay)
        ensures
            overlay@.wf(),
            overlay@.geometry.wf(),
            overlay@.geometry.font == font@,
            overlay@.geometry.vertices.len() == 0,
            overlay@.geometry.layers == seq![Seq::<u16>::empty(), Seq::<u16>::empty()],
            overlay@.style == Style::standard(),
            overlay@.cursor == (Point { x: 10, y: 10 }),
            overlay@.group_area == (Point { x: 10, y: 10 }, Point { x: 10, y: 10 }),
            overlay@.item_flow == Orientation::Horizontal,
            overlay@.group_flow == Orientation::Vertical,
            !overlay@.in_group,
            overlay@.max_x == 0,
            overlay@.max_y == 0,
    {
        let style = Style::default();
        let cursor = Point { x: style.margin, y: style.margin };
        let overlay = Overlay {
            geometry: OverlayGeometry::new(2, font),
            style,
            cursor,
            item_flow: Orientation::Horizontal,
            group_flow: Orientation::Vertical,
            group_area: (cursor, cursor),
            in_group: false,
            max_x: 0,
            max_y: 0,
        };
        assert(overlay@.geometry.layers =~= seq![Seq::<u16>::empty(), Seq::<u16>::empty()]);
        overlay
    }

    /// Starts a frame: nothing is drawn, no group is open.
    pub fn begin_frame(&mut self)
        ensures
            final(self)@ == old(self)@.reset(),
    {
        self.geometry.begin_frame();
        self.cursor = Point { x: self.style.margin, y: self.style.margin };
        self.group_area = (self.cursor, self.cursor);
        self.max_x = 0;
        self.max_y = 0;
        self.in_group = false;
    }

    /// Width of the box around the current group.
    pub fn current_group_width(&self) -> (width: i32)
        ensures
            width == self@.group_width(),
    {
        clamp_px(self.group_area.1.x as i64 - self.group_area.0.x as i64)
    }

    /// Height of the box around the current group.
    pub fn current_group_height(&self) -> (height: i32)
        ensures
            height == self@.group_height(),
    {
        clamp_px(self.group_area.1.y as i64 - self.group_area.0.y as i64)
    }

    /// Whether a group is open.
    pub fn in_group(&self) -> (open: bool)
        ensures
            open == self@.in_group,
    {
        self.in_group
    }

    /// The corners of the box around the items of the open group, or of
    /// the group that was closed last.
    pub fn group_area(&self) -> (area: (Point, Point))
        ensures
            area == self@.group_area,
    {
        self.group_area
    }

    /// Draws `item` behind the items that the open group holds; opens a
    /// group if none is open.
    ///
    /// The item draws itself once, at the cursor. In a group that was open
    /// the cursor is one margin behind the group's box along the item
    /// flow, and flush with the box across it, as long as that is a pixel
    /// coordinate; in a new group it is the group's origin.
    pub fn draw_item<I: OverlayItem>(&mut self, item: &I)
        requires
            old(self)@.wf(),
        ensures
            final(self)@ == old(self)@.with_item(item),
            final(self)@.wf(),
            old(self)@.geometry.wf() ==> final(self)@.geometry.wf(),
            final(self)@.cursor == old(self)@.placed().cursor,
            final(self)@.geometry == item.drawn(old(self)@.placed().cursor, old(self)@.placed()).0,
            !old(self)@.in_group ==> final(self)@.cursor == old(self)@.group_origin(),
            old(self)@.in_group && old(self)@.item_flow == Orientation::Vertical && i32::MIN <= old(self)@.group_area.1.y + old(self)@.style.margin <= i32::MAX ==> final(self)@.cursor.x
                == old(self)@.group_area.0.x && final(self)@.cursor.y == old(self)@.group_area.1.y
                + old(self)@.style.margin,
            old(self)@.in_group && old(self)@.item_flow == Orientation::Horizontal && i32::MIN
                <= old(self)@.group_area.1.x + old(self)@.style.margin <= i32::MAX ==> final(self)@.cursor.y == old(self)@.group_area.0.y && final(self)@.cursor.x == old(self)@.group_area.1.x + old(self)@.style.margin,
            final(self)@.in_group,
            covers(final(self)@.group_area, old(self)@.placed().group_area),
    {
        let first: bool = !self.in_group;
        if !self.in_group {
            self.begin_group();
        }
        let margin: i32 = if first {
            0
        } else {
            self.style.margin
        };
        self.cursor = match self.item_flow {
            Orientation::Vertical => Point {
                x: self.group_area.0.x,
                y: clamp_px(self.group_area.1.y as i64 + margin as i64),
            },
            Orientation::Horizontal => Point {
                x: clamp_px(self.group_area.1.x as i64 + margin as i64),
                y: self.group_area.0.y,
            },
        };
        assert(self@ == old(self)@.placed());
        let position: Point = self.cursor;
        let rect = item.draw(position, self);
        self.group_area.0.x = min_i32(self.group_area.0.x, rect.0.x);
        self.group_area.0.y = min_i32(self.group_area.0.y, rect.0.y);
        self.group_area.1.x = max_i32(self.group_area.1.x, rect.1.x);
        self.group_area.1.y = max_i32(self.group_area.1.y, rect.1.y);
    }

    /// Leaves three margins of room before the next item, if a group is open.
    pub fn push_separator(&mut self)
        ensures
            final(self)@ == old(self)@.separated(),
    {
        if !self.in_group {
            return ;
        }
        match self.item_flow {
            Orientation::Vertical => {
                self.cursor.y = clamp_px(self.cursor.y as i64 + 3 * (self.style.margin as i64));
            },
            Orientation::Horizontal => {
                self.cursor.x = clamp_px(self.cursor.x as i64 + 3 * (self.style.margin as i64));
            },
        }
    }

    /// Closes the open group and begins a new column to the right of
    /// everything drawn so far.
    pub fn push_column(&mut self)
        requires
            old(self)@.wf(),
        ensures
            final(self)@ == old(self)@.with_column(),
            final(self)@.wf(),
            old(self)@.geometry.wf() ==> final(self)@.geometry.wf(),
    {
        if self.in_group {
            self.end_group();
        }
        let p = Point {
            x: clamp_px(self.max_x as i64 + 3 * (self.style.margin as i64)),
            y: self.style.margin,
        };
        self.group_area = (p, p);
    }

    /// Opens a new, empty group behind the group before it.
    fn begin_group(&mut self)
        ensures
            final(self)@ == old(self)@.opened(),
    {
        match self.group_flow {
            Orientation::Vertical => {
                self.cursor.x = self.group_area.0.x;
                if self.group_area.1.y > self.style.margin {
                    self.cursor.y = clamp_px(
                        self.group_area.1.y as i64 + 3 * (self.style.margin as i64),
                    );
                } else {
                    self.cursor.y = self.group_area.1.y;
                }
            },
            Orientation::Horizontal => {
                if self.group_area.1.x > self.style.margin {
                    self.cursor.x = clamp_px(
                        self.group_area.1.x as i64 + 3 * (self.style.margin as i64),
                    );
                } else {
                    self.cursor.x = self.group_area.1.x;
                }
                self.cursor.y = self.group_area.0.y;
            },
        }
        self.group_area = (self.cursor, self.cursor);
        self.in_group = true;
    }

    /// Closes the group and draws its panel. An empty group gets none.
    pub fn end_group(&mut self)
        requires
            old(self)@.wf(),
        ensures
            final(self)@ == old(self)@.ended(),
            final(self)@.wf(),
            old(self)@.geometry.wf() ==> final(self)@.geometry.wf(),
    {
        self.in_group = false;
        if self.group_area.0.x >= self.group_area.1.x || self.group_area.0.y
            >= self.group_area.1.y {
            return ;
        }
        self.group_area.1.x = max_i32(
            self.group_area.1.x,
            clamp_px(self.group_area.0.x as i64 + self.style.min_group_width as i64),
        );
        self.group_area.1.y = max_i32(
            self.group_area.1.y,
            clamp_px(self.group_area.0.y as i64 + self.style.min_group_height as i64),
        );
        self.max_x = max_i32(self.max_x, self.group_area.1.x);
        self.max_y = max_i32(self.max_y, self.group_area.1.y);
        let margin: i64 = self.style.margin as i64;
        let bg: (Point, Point) = (
            Point {
                x: clamp_px(self.group_area.0.x as i64 - margin),
                y: clamp_px(self.group_area.0.y as i64 - margin),
            },
            Point {
                x: clamp_px(self.group_area.1.x as i64 + margin),
                y: clamp_px(self.group_area.1.y as i64 + margin),
            },
        );
        let top: Color = self.style.background[0];
        let bottom: Color = self.style.background[1];
        self.geometry.push_rectangle(BACKGROUND_LAYER, &bg, top, bottom);
    }

    /// Ends the frame: closes the group that is still open, if any.
    pub fn finish(&mut self)
        requires
            old(self)@.wf(),
        ensures
            final(self)@ == old(self)@.finished(),
            final(self)@.wf(),
            old(self)@.geometry.wf() ==> final(self)@.geometry.wf(),
            !final(self)@.in_group,
    {
        if self.in_group {
            self.end_group();
        }
    }
}

/// What setting `text` as an item at `position` makes of a geometry: the
/// pen starts one line below `position`, in the front layer.
pub open spec fn item_text(geometry: GeometryView, position: Point, text: Seq<char>, color: Color) -> TextState {
    TextState::start(
        geometry,
        Point { x: position.x, y: px(position.y + geometry.font.font_height) },
    ).put_text(FRONT_LAYER as int, text, color)
}

impl<'a> OverlayItem for &'a str {
    /// The text in the first text color, with its top edge at `position`.
    open spec fn drawn(&self, position: Point, before: OverlayView) -> (GeometryView, (Point, Point)) {
        let set = item_text(before.geometry, position, self@, before.style.text_color[0]);
        (set.geometry, (set.min, set.max))
    }

    fn draw(&self, position: Point, output: &mut Overlay) -> (rect: (Point, Point)) {
        let p = Point {
            x: position.x,
            y: clamp_px(position.y as i64 + output.geometry.font().font_height as i64),
        };
        let color: Color = output.style.text_color[0];
        proof {
            lemma_put_text_shape(TextState::start(output@.geometry, p), FRONT_LAYER as int, self@, color);
        }
        output.geometry.push_text(FRONT_LAYER, self, p, color)
    }
}

/// While a group is open, its box never shrinks: after an item was drawn
/// the box holds the box from before and what the item took up.
pub proof fn lemma_group_area_grows<I: OverlayItem>(before: OverlayView, item: &I)
    requires
        before.in_group,
    ensures
        before.with_item(item).in_group,
        covers(before.with_item(item).group_area, before.group_area),
        covers(
            before.with_item(item).group_area,
            item.drawn(before.placed().cursor, before.placed()).1,
        ),
{
}

/// The first item of a group is drawn at the group's origin, with no gap
/// before it.
pub proof fn lemma_first_item_has_no_gap(before: OverlayView)
    requires
        !before.in_group,
    ensures
        before.placed().cursor == before.group_origin(),
        before.placed().group_area == (before.group_origin(), before.group_origin()),
{
}

/// In a group whose items follow each other downward, every item but the
/// first is drawn one margin below the group's box and flush with its
/// left edge, as long as that is a pixel coordinate.
pub proof fn lemma_vertical_items_one_margin_apart(before: OverlayView)
    requires
        before.in_group,
        before.item_flow == Orientation::Vertical,
        before.group_area.1.y + before.style.margin <= i32::MAX,
        before.group_area.1.y + before.style.margin >= i32::MIN,
    ensures
        before.placed().cursor.x == before.group_area.0.x,
        before.placed().cursor.y - before.group_area.1.y == before.style.margin,
{
}

/// In a group whose items follow each other to the right, every item but
/// the first is drawn one margin right of the group's box and flush with
/// its top edge, as long as that is a pixel coordinate.
pub proof fn lemma_horizontal_items_one_margin_apart(before: OverlayView)
    requires
        before.in_group,
        before.item_flow == Orientation::Horizontal,
        before.group_area.1.x + before.style.margin <= i32::MAX,
        before.group_area.1.x + before.style.margin >= i32::MIN,
    ensures
        before.placed().cursor.y == before.group_area.0.y,
        before.placed().cursor.x - before.group_area.1.x == before.style.margin,
{
}

/// Two items that follow each other downward in one group keep one
/// margin between them: the item after `item` is drawn one margin below
/// the rectangle that `item` took up, unless that rectangle ends above
/// what the group held before. This holds as long as the position is a
/// pixel coordinate.
pub proof fn lemma_consecutive_items_one_margin_apart<I: OverlayItem>(before: OverlayView, item: &I)
    requires
        before.item_flow == Orientation::Vertical,
        item.drawn(before.placed().cursor, before.placed()).1.1.y
            >= before.placed().group_area.1.y,
        i32::MIN <= item.drawn(before.placed().cursor, before.placed()).1.1.y
            + before.style.margin <= i32::MAX,
    ensures
        before.with_item(item).in_group,
        before.with_item(item).placed().cursor.y - item.drawn(before.placed().cursor, before.placed()).1.1.y == before.style.margin,
        before.with_item(item).placed().cursor.x == before.with_item(item).group_area.0.x,
{
}

} // verus!
