//! Points, colors and the geometry builder: one vertex pool shared by all
//! layers, and one index list per layer.

use vstd::prelude::*;
use crate::font::{FontView, GlyphAtlas};
use crate::pixel::{clamp_px, max_i32, max_int, min_i32, min_int, px, px_add};

verus! {

/// An 8-bit per channel RGBA color value.
pub type Color = (u8, u8, u8, u8);

/// The index of an overlay layer.
pub type Layer = usize;

/// The layer of the panels behind the items; it is drawn first.
pub const BACKGROUND_LAYER: Layer = 0;

/// The layer of text, bars and swatches; it is drawn on top.
pub const FRONT_LAYER: Layer = 1;

/// A 2D position (in pixels).
#[derive(Copy, Clone, Debug, PartialEq, Eq, Structural)]
pub struct Point {
    pub x: i32,
    pub y: i32,
}

impl From<(i32, i32)> for Point {
    fn from(val: (i32, i32)) -> (point: Point) {
        Point { x: val.0, y: val.1 }
    }
}

impl vstd::std_specs::convert::FromSpecImpl<(i32, i32)> for Point {
    open spec fn obeys_from_spec() -> bool {
        true
    }

    open spec fn from_spec(val: (i32, i32)) -> Point {
        Point { x: val.0, y: val.1 }
    }
}

/// One corner of a triangle as the renderer reads it.
#[derive(Copy, Clone, Debug)]
pub struct Vertex {
    pub x: i32,
    pub y: i32,
    /// Atlas texel: column in the upper half, row in the lower half.
    pub uv: u32,
    /// Packed color: red in the top byte, alpha in the lowest.
    pub color: u32,
}

/// The color packed as the renderer reads it: red in the top byte, alpha in the lowest.
pub open spec fn packed_color(color: Color) -> u32 {
    (color.0 as int * 0x100_0000 + color.1 as int * 0x1_0000 + color.2 as int * 0x100
        + color.3 as int) as u32
}

/// An atlas texel packed into one word: column in the upper half, row in the lower half.
pub open spec fn packed_uv(uv: (u16, u16)) -> u32 {
    (uv.0 as int * 0x1_0000 + uv.1 as int) as u32
}

/// Packs a color into one word.
pub fn color_to_u32(color: Color) -> (packed: u32)
    ensures
        packed == packed_color(color),
{
    let r: u32 = color.0 as u32;
    let g: u32 = color.1 as u32;
    let b: u32 = color.2 as u32;
    let a: u32 = color.3 as u32;
    assert((r << 24 | g << 16 | b << 8 | a) == r * 0x100_0000 + g * 0x1_0000 + b * 0x100 + a)
        by (bit_vector)
        requires
            r < 256,
            g < 256,
            b < 256,
            a < 256,
    ;
    r << 24 | g << 16 | b << 8 | a
}

/// Packs an atlas texel into one word.
pub fn uv_to_u32(uv: (u16, u16)) -> (packed: u32)
    ensures
        packed == packed_uv(uv),
{
    let u: u32 = uv.0 as u32;
    let v: u32 = uv.1 as u32;
    assert((u << 16 | v) == u * 0x1_0000 + v) by (bit_vector)
        requires
            u < 0x1_0000,
            v < 0x1_0000,
    ;
    u << 16 | v
}

/// The index of the `i`-th vertex pushed onto a pool that held `pool_len`
/// vertices. Indices are 16 bits wide and wrap around.
pub open spec fn pool_index(pool_len: nat, i: int) -> u16 {
    ((pool_len % 0x1_0000 + i) % 0x1_0000) as u16
}

/// The two triangles of a quad whose four corners were pushed onto a pool
/// that held `pool_len` vertices.
pub open spec fn quad_indices(pool_len: nat) -> Seq<u16> {
    seq![
        pool_index(pool_len, 0),
        pool_index(pool_len, 1),
        pool_index(pool_len, 2),
        pool_index(pool_len, 0),
        pool_index(pool_len, 2),
        pool_index(pool_len, 3),
    ]
}

/// The corners of an axis-aligned quad, clockwise from the top left: the
/// positions between `a` and `b`, the texels between `uv0` and `uv1`, the
/// color `top` along the top edge and `bottom` along the bottom edge.
pub open spec fn quad_corners(
    a: Point,
    b: Point,
    uv0: (u16, u16),
    uv1: (u16, u16),
    top: u32,
    bottom: u32,
) -> Seq<Vertex> {
    seq![
        Vertex { x: a.x, y: a.y, uv: packed_uv(uv0), color: top },
        Vertex { x: b.x, y: a.y, uv: packed_uv((uv1.0, uv0.1)), color: top },
        Vertex { x: b.x, y: b.y, uv: packed_uv(uv1), color: bottom },
        Vertex { x: a.x, y: b.y, uv: packed_uv((uv0.0, uv1.1)), color: bottom },
    ]
}

/// The number of indices in all of `layers` together.
pub open spec fn total_len(layers: Seq<Seq<u16>>) -> nat
    decreases layers.len(),
{
    if layers.len() == 0 {
        0
    } else {
        total_len(layers.drop_last()) + layers.last().len()
    }
}

/// The first layers hold no more indices than all of them.
pub proof fn lemma_total_len_grows(layers: Seq<Seq<u16>>, n: int)
    requires
        0 <= n <= layers.len(),
    ensures
        total_len(layers.take(n)) <= total_len(layers),
    decreases layers.len(),
{
    if n < layers.len() {
        lemma_total_len_grows(layers.drop_last(), n);
        assert(layers.drop_last().take(n) == layers.take(n));
    } else {
        assert(layers.take(n) == layers);
    }
}

/// Whether a buffer has to be made anew to hold `len` items: if there is
/// none yet, or if the one there holds no more than `len`.
pub open spec fn needs_buffer(capacity: Option<usize>, len: usize) -> bool {
    match capacity {
        Some(held) => held <= len,
        None => true,
    }
}

/// What a renderer has to do to take a geometry over.
#[derive(Copy, Clone, Debug, PartialEq, Eq)]
pub struct Upload {
    /// Whether the vertex buffer has to be made anew.
    pub new_vertex_buffer: bool,
    /// Whether the index buffer has to be made anew.
    pub new_index_buffer: bool,
    /// The number of vertices to copy.
    pub vertex_count: usize,
    /// The number of indices to copy and to draw, all layers together.
    pub index_count: u32,
}

/// The index list of one layer.
pub struct LayerGeometry {
    pub indices: Vec<u16>,
}

/// The vertex pool, the layers' index lists and the font that text is set in.
pub struct OverlayGeometry {
    pub(crate) vertices: Vec<Vertex>,
    pub(crate) layers: Vec<LayerGeometry>,
    pub(crate) font: GlyphAtlas,
}

/// The geometry as mathematics: the pool and one index sequence per layer.
pub struct GeometryView {
    pub font: FontView,
    pub vertices: Seq<Vertex>,
    pub layers: Seq<Seq<u16>>,
}

/// Pen and bounding box while a text is being set.
pub struct TextState {
    pub geometry: GeometryView,
    pub pen: Point,
    pub min: Point,
    pub max: Point,
}

impl GeometryView {
    /// Every index of every layer names a vertex of the pool.
    pub open spec fn wf(self) -> bool {
        forall|l: int, i: int|
            0 <= l < self.layers.len() && 0 <= i < self.layers[l].len() ==> (
            #[trigger] self.layers[l][i]) < self.vertices.len()
    }

    /// The same font and layers with nothing in them.
    pub open spec fn cleared(self) -> GeometryView {
        GeometryView {
            font: self.font,
            vertices: Seq::empty(),
            layers: Seq::new(self.layers.len(), |l: int| Seq::empty()),
        }
    }

    /// `points` appended to the pool, and `indices`, counted from the first
    /// of them, appended to `layer`.
    pub open spec fn with_geometry(self, layer: int, points: Seq<Vertex>, indices: Seq<u16>) -> GeometryView {
        GeometryView {
            font: self.font,
            vertices: self.vertices + points,
            layers: self.layers.update(
                layer,
                self.layers[layer] + Seq::new(
                    indices.len(),
                    |i: int| pool_index(self.vertices.len(), indices[i] as int),
                ),
            ),
        }
    }

    /// One more quad in `layer`, between the corners `a` and `b`.
    pub open spec fn with_quad(
        self,
        layer: int,
        a: Point,
        b: Point,
        uv0: (u16, u16),
        uv1: (u16, u16),
        top: u32,
        bottom: u32,
    ) -> GeometryView {
        GeometryView {
            font: self.font,
            vertices: self.vertices + quad_corners(a, b, uv0, uv1, top, bottom),
            layers: self.layers.update(
                layer,
                self.layers[layer] + quad_indices(self.vertices.len()),
            ),
        }
    }

    /// One more rectangle in `layer`: `color0` along its top edge, `color1`
    /// along its bottom edge, sampling the font's opaque texel.
    pub open spec fn with_rectangle(self, layer: int, rect: (Point, Point), color0: Color, color1: Color) -> GeometryView {
        self.with_quad(
            layer,
            rect.0,
            rect.1,
            self.font.opaque_pixel,
            self.font.opaque_pixel,
            packed_color(color0),
            packed_color(color1),
        )
    }

    /// One more flat-colored mesh in `layer`.
    pub open spec fn with_mesh(self, layer: int, points: Seq<Point>, indices: Seq<u16>, color: Color) -> GeometryView {
        let uv = packed_uv(self.font.opaque_pixel);
        self.with_geometry(
            layer,
            Seq::new(
                points.len(),
                |i: int| Vertex { x: points[i].x, y: points[i].y, uv, color: packed_color(color) },
            ),
            indices,
        )
    }
}

impl TextState {
    /// The state in which a text starts at `position`.
    pub open spec fn start(geometry: GeometryView, position: Point) -> TextState {
        TextState { geometry, pen: position, min: position, max: position }
    }

    /// The state after one more character.
    ///
    /// A line feed moves the pen down by one line and back to the left edge
    /// of what was drawn so far. A character without a glyph changes
    /// nothing. Any other character adds its quad, grows the box around it
    /// and moves the pen to the right.
    pub open spec fn put_char(self, layer: int, c: char, color: Color) -> TextState {
        let font = self.geometry.font;
        if c == '\n' {
            TextState {
                pen: Point { x: self.min.x, y: px(self.pen.y + font.font_height) },
                ..self
            }
        } else {
            match font.glyph(c) {
                None => self,
                Some(glyph) => {
                    let x0 = px(self.pen.x + glyph.offset.0);
                    let y0 = px(self.pen.y + glyph.offset.1);
                    let x1 = px(x0 + glyph.width());
                    let y1 = px(y0 + glyph.height());
                    TextState {
                        geometry: self.geometry.with_quad(
                            layer,
                            Point { x: x0, y: y0 },
                            Point { x: x1, y: y1 },
                            glyph.uv0,
                            glyph.uv1,
                            packed_color(color),
                            packed_color(color),
                        ),
                        pen: Point { x: px(self.pen.x + glyph.x_advance), y: self.pen.y },
                        min: Point {
                            x: min_int(self.min.x as int, x0 as int) as i32,
                            y: min_int(self.min.y as int, y0 as int) as i32,
                        },
                        max: Point {
                            x: max_int(self.max.x as int, x1 as int) as i32,
                            y: max_int(self.max.y as int, y1 as int) as i32,
                        },
                    }
                },
            }
        }
    }

    /// The state after the characters of `text`, one after the other.
    pub open spec fn put_text(self, layer: int, text: Seq<char>, color: Color) -> TextState
        decreases text.len(),
    {
        if text.len() == 0 {
            self
        } else {
            self.put_text(layer, text.drop_last(), color).put_char(layer, text.last(), color)
        }
    }
}

impl View for OverlayGeometry {
    type V = GeometryView;

    closed spec fn view(&self) -> GeometryView {
        GeometryView {
            font: self.font@,
            vertices: self.vertices@,
            layers: Seq::new(self.layers@.len(), |l: int| self.layers@[l].indices@),
        }
    }
}

impl OverlayGeometry {
    /// An empty geometry with `layer_count` layers, set in `font`.
    pub fn new(layer_count: usize, font: GlyphAtlas) -> (geometry: OverlayGeometry)
        ensures
            geometry@.font == font@,
            geometry@.vertices == Seq::<Vertex>::empty(),
            geometry@.layers == Seq::new(layer_count as nat, |l: int| Seq::<u16>::empty()),
            geometry@.wf(),
    {
        let mut layers: Vec<LayerGeometry> = Vec::new();
        let mut l: usize = 0;
        while l < layer_count
            invariant
                l <= layer_count,
                layers@.len() == l,
                forall|k: int| 0 <= k < l ==> (#[trigger] layers@[k]).indices@ == Seq::<u16>::empty(),
            decreases layer_count - l,
        {
            layers.push(LayerGeometry { indices: Vec::new() });
            l = l + 1;
        }
        let geometry = OverlayGeometry { vertices: Vec::new(), layers, font };
        assert(geometry@.layers =~= Seq::new(layer_count as nat, |l: int| Seq::<u16>::empty()));
        geometry
    }

    /// The number of layers.
    pub fn layer_count(&self) -> (n: usize)
        ensures
            n == self@.layers.len(),
    {
        self.layers.len()
    }

    /// The vertex pool.
    pub fn vertices(&self) -> (pool: &Vec<Vertex>)
        ensures
            pool@ == self@.vertices,
    {
        &self.vertices
    }

    /// The index list of one layer.
    pub fn indices(&self, layer: Layer) -> (list: &Vec<u16>)
        requires
            layer < self@.layers.len(),
        ensures
            list@ == self@.layers[layer as int],
    {
        &self.layers[layer].indices
    }

    /// The font that text is set in.
    pub fn font(&self) -> (font: &GlyphAtlas)
        ensures
            font@ == self@.font,
    {
        &self.font
    }

    /// Plans the copy of the geometry into buffers that hold
    /// `vertex_capacity` vertices and `index_capacity` indices, if there
    /// are such buffers. There is no plan for a geometry with more indices
    /// than one draw call takes.
    pub fn plan_upload(&self, vertex_capacity: Option<usize>, index_capacity: Option<usize>) -> (plan: Option<Upload>)
        ensures
            total_len(self@.layers) > u32::MAX ==> plan is None,
            total_len(self@.layers) <= u32::MAX ==> plan == Some(
                Upload {
                    new_vertex_buffer: needs_buffer(vertex_capacity, self@.vertices.len() as usize),
                    new_index_buffer: needs_buffer(index_capacity, total_len(self@.layers) as usize),
                    vertex_count: self@.vertices.len() as usize,
                    index_count: total_len(self@.layers) as u32,
                },
            ),
    {
        let mut count: u32 = 0;
        let mut l: usize = 0;
        assert(self@.layers.take(0) =~= Seq::<Seq<u16>>::empty());
        while l < self.layers.len()
            invariant
                l <= self.layers@.len(),
                self@.layers.len() == self.layers@.len(),
                count == total_len(self@.layers.take(l as int)),
            decreases self.layers@.len() - l,
        {
            let len: usize = self.layers[l].indices.len();
            proof {
                assert(self@.layers.take(l + 1).drop_last() =~= self@.layers.take(l as int));
                assert(self@.layers.take(l + 1).last() == self.layers@[l as int].indices@);
                lemma_total_len_grows(self@.layers, l + 1);
            }
            if len > (u32::MAX - count) as usize {
                return None;
            }
            count = count + len as u32;
            l = l + 1;
        }
        assert(self@.layers.take(self@.layers.len() as int) =~= self@.layers);
        let vertex_count: usize = self.vertices.len();
        let new_vertex_buffer: bool = match vertex_capacity {
            Some(held) => held <= vertex_count,
            None => true,
        };
        let new_index_buffer: bool = match index_capacity {
            Some(held) => held <= count as usize,
            None => true,
        };
        Some(Upload { new_vertex_buffer, new_index_buffer, vertex_count, index_count: count })
    }

    /// Empties the pool and every layer.
    pub fn begin_frame(&mut self)
        ensures
            final(self)@ == old(self)@.cleared(),
            final(self)@.wf(),
    {
        self.vertices.clear();
        let n: usize = self.layers.len();
        let mut l: usize = 0;
        while l < n
            invariant
                l <= n,
                n == self.layers@.len(),
                n == old(self).layers@.len(),
                self.font == old(self).font,
                self.vertices@ == Seq::<Vertex>::empty(),
                forall|k: int| 0 <= k < l ==> (#[trigger] self.layers@[k]).indices@ == Seq::<u16>::empty(),
            decreases n - l,
        {
            self.layers[l].indices.clear();
            l = l + 1;
        }
        assert(self@.layers =~= old(self)@.cleared().layers);
    }

    /// Appends the four corners of a quad to the pool and its two triangles to `layer`.
    fn push_quad(&mut self, layer: Layer, a: Point, b: Point, uv0: (u16, u16), uv1: (u16, u16), top: u32, bottom: u32)
        requires
            layer < old(self)@.layers.len(),
        ensures
            final(self)@ == old(self)@.with_quad(layer as int, a, b, uv0, uv1, top, bottom),
    {
        let offset: u32 = (self.vertices.len() % 0x1_0000) as u32;
        self.vertices.push(Vertex { x: a.x, y: a.y, uv: uv_to_u32(uv0), color: top });
        self.vertices.push(Vertex { x: b.x, y: a.y, uv: uv_to_u32((uv1.0, uv0.1)), color: top });
        self.vertices.push(Vertex { x: b.x, y: b.y, uv: uv_to_u32(uv1), color: bottom });
        self.vertices.push(Vertex { x: a.x, y: b.y, uv: uv_to_u32((uv0.0, uv1.1)), color: bottom });
        let i0: u16 = (offset % 0x1_0000) as u16;
        let i1: u16 = ((offset + 1) % 0x1_0000) as u16;
        let i2: u16 = ((offset + 2) % 0x1_0000) as u16;
        let i3: u16 = ((offset + 3) % 0x1_0000) as u16;
        let list = &mut self.layers[layer].indices;
        list.push(i0);
        list.push(i1);
        list.push(i2);
        list.push(i0);
        list.push(i2);
        list.push(i3);
        assert(self@.vertices =~= old(self)@.vertices + quad_corners(a, b, uv0, uv1, top, bottom));
        assert(self@.layers[layer as int] =~= old(self)@.layers[layer as int] + quad_indices(
            old(self)@.vertices.len(),
        ));
        assert(self@.layers =~= old(self)@.with_quad(
            layer as int,
            a,
            b,
            uv0,
            uv1,
            top,
            bottom,
        ).layers);
    }

    /// Sets `text` with its pen starting at `position` and returns the box
    /// around the glyphs that were drawn, which always holds `position`.
    #[verifier::rlimit(30)]
    pub fn push_text(&mut self, layer: Layer, text: &str, position: Point, color: Color) -> (bounds: (Point, Point))
        requires
            layer < old(self)@.layers.len(),
        ensures
            final(self)@ == TextState::start(old(self)@, position).put_text(layer as int, text@, color).geometry,
            bounds.0 == TextState::start(old(self)@, position).put_text(layer as int, text@, color).min,
            bounds.1 == TextState::start(old(self)@, position).put_text(layer as int, text@, color).max,
            final(self)@.layers.len() == old(self)@.layers.len(),
            final(self)@.font == old(self)@.font,
            old(self)@.wf() ==> final(self)@.wf(),
    {
        proof {
            lemma_put_text_shape(TextState::start(old(self)@, position), layer as int, text@, color);
        }
        let packed: u32 = color_to_u32(color);
        let mut pen: Point = position;
        let mut min: Point = position;
        let mut max: Point = position;
        let ghost start = TextState::start(old(self)@, position);
        for c in it: text.chars()
            invariant
                it.seq() == text@,
                layer < self@.layers.len(),
                packed == packed_color(color),
                start == TextState::start(old(self)@, position),
                (TextState { geometry: self@, pen, min, max }) == start.put_text(
                    layer as int,
                    text@.take(it.index() as int),
                    color,
                ),
        {
            proof {
                let k = it.index() as int;
                assert(text@.take(k + 1).drop_last() == text@.take(k));
                assert(text@.take(k + 1).last() == c);
            }
            if c == '\n' {
                pen = Point { x: min.x, y: clamp_px(pen.y as i64 + self.font.font_height as i64) };
            } else {
                match self.font.glyph(c) {
                    None => {},
                    Some(glyph) => {
                        let x0: i32 = clamp_px(pen.x as i64 + glyph.offset.0 as i64);
                        let y0: i32 = clamp_px(pen.y as i64 + glyph.offset.1 as i64);
                        let x1: i32 = clamp_px(x0 as i64 + glyph.width() as i64);
                        let y1: i32 = clamp_px(y0 as i64 + glyph.height() as i64);
                        self.push_quad(
                            layer,
                            Point { x: x0, y: y0 },
                            Point { x: x1, y: y1 },
                            glyph.uv0,
                            glyph.uv1,
                            packed,
                            packed,
                        );
                        pen = Point { x: px_add(pen.x, glyph.x_advance), y: pen.y };
                        min = Point { x: min_i32(min.x, x0), y: min_i32(min.y, y0) };
                        max = Point { x: max_i32(max.x, x1), y: max_i32(max.y, y1) };
                    },
                }
            }
        }
        assert(text@.take(text@.len() as int) == text@);
        (min, max)
    }

    /// Adds a rectangle that samples the font's opaque texel, `color0`
    /// along its top edge and `color1` along its bottom edge.
    pub fn push_rectangle(&mut self, layer: Layer, rect: &(Point, Point), color0: Color, color1: Color)
        requires
            layer < old(self)@.layers.len(),
        ensures
            final(self)@ == old(self)@.with_rectangle(layer as int, *rect, color0, color1),
            final(self)@.layers.len() == old(self)@.layers.len(),
            final(self)@.font == old(self)@.font,
            old(self)@.wf() ==> final(self)@.wf(),
    {
        proof {
            if old(self)@.wf() {
                lemma_with_rectangle_wf(old(self)@, layer as int, *rect, color0, color1);
            }
        }
        let uv: (u16, u16) = self.font.opaque_pixel;
        let packed0: u32 = color_to_u32(color0);
        let packed1: u32 = color_to_u32(color1);
        self.push_quad(layer, rect.0, rect.1, uv, uv, packed0, packed1);
    }

    /// Adds a flat-colored triangle mesh. `indices` count from the first of
    /// `vertices`.
    pub fn push_mesh(&mut self, layer: Layer, vertices: &[Point], indices: &[u16], color: Color)
        requires
            layer < old(self)@.layers.len(),
        ensures
            final(self)@ == old(self)@.with_mesh(layer as int, vertices@, indices@, color),
            final(self)@.layers.len() == old(self)@.layers.len(),
            final(self)@.font == old(self)@.font,
            old(self)@.wf() && (forall|i: int|
                0 <= i < indices@.len() ==> (#[trigger] indices@[i]) < vertices@.len())
                ==> final(self)@.wf(),
    {
        proof {
            if old(self)@.wf() && (forall|i: int|
                0 <= i < indices@.len() ==> (#[trigger] indices@[i]) < vertices@.len()) {
                let uv = packed_uv(old(self)@.font.opaque_pixel);
                lemma_with_geometry_wf(
                    old(self)@,
                    layer as int,
                    Seq::new(
                        vertices@.len(),
                        |i: int|
                            Vertex {
                                x: vertices@[i].x,
                                y: vertices@[i].y,
                                uv,
                                color: packed_color(color),
                            },
                    ),
                    indices@,
                );
            }
        }
        let uv: u32 = uv_to_u32(self.font.opaque_pixel);
        let packed: u32 = color_to_u32(color);
        let offset: u32 = (self.vertices.len() % 0x1_0000) as u32;
        let ghost goal = old(self)@.with_mesh(layer as int, vertices@, indices@, color);
        let mut i: usize = 0;
        while i < vertices.len()
            invariant
                i <= vertices.len(),
                self.font == old(self).font,
                self.layers == old(self).layers,
                self.vertices@ =~= goal.vertices.take(old(self).vertices@.len() + i),
                uv == packed_uv(old(self)@.font.opaque_pixel),
                packed == packed_color(color),
                goal == old(self)@.with_mesh(layer as int, vertices@, indices@, color),
            decreases vertices.len() - i,
        {
            self.vertices.push(Vertex { x: vertices[i].x, y: vertices[i].y, uv, color: packed });
            i = i + 1;
        }
        let ghost before = old(self)@.layers[layer as int];
        let mut k: usize = 0;
        while k < indices.len()
            invariant
                k <= indices.len(),
                layer < self.layers@.len(),
                self.font == old(self).font,
                self.vertices@ =~= goal.vertices,
                self.layers@.len() == old(self).layers@.len(),
                forall|l: int| 0 <= l < self.layers@.len() && l != layer ==> self.layers@[l] == old(self).layers@[l],
                self.layers@[layer as int].indices@ =~= goal.layers[layer as int].take(before.len() + k),
                offset == old(self).vertices@.len() % 0x1_0000,
                before == old(self)@.layers[layer as int],
                goal == old(self)@.with_mesh(layer as int, vertices@, indices@, color),
            decreases indices.len() - k,
        {
            let index: u16 = ((offset + indices[k] as u32) % 0x1_0000) as u16;
            self.layers[layer].indices.push(index);
            k = k + 1;
        }
        assert(goal.layers[layer as int].len() == before.len() + indices@.len());
        assert(self@.layers[layer as int] =~= goal.layers[layer as int]);
        assert(self@.layers =~= goal.layers);
    }
}

/// Adding geometry keeps every index inside the pool, as long as the new
/// indices stay below the number of new vertices.
pub proof fn lemma_with_geometry_wf(g: GeometryView, layer: int, points: Seq<Vertex>, indices: Seq<u16>)
    requires
        g.wf(),
        0 <= layer < g.layers.len(),
        forall|i: int| 0 <= i < indices.len() ==> (#[trigger] indices[i]) < points.len(),
    ensures
        g.with_geometry(layer, points, indices).wf(),
{
    let after = g.with_geometry(layer, points, indices);
    assert forall|l: int, i: int|
        0 <= l < after.layers.len() && 0 <= i < after.layers[l].len() implies (
    #[trigger] after.layers[l][i]) < after.vertices.len() by {
        if l == layer && i >= g.layers[l].len() {
            let j = i - g.layers[l].len();
            assert(indices[j] < points.len());
        } else {
            assert(after.layers[l][i] == g.layers[l][i]);
        }
    }
}

/// Adding a quad keeps every index inside the pool.
pub proof fn lemma_with_quad_wf(
    g: GeometryView,
    layer: int,
    a: Point,
    b: Point,
    uv0: (u16, u16),
    uv1: (u16, u16),
    top: u32,
    bottom: u32,
)
    requires
        g.wf(),
        0 <= layer < g.layers.len(),
    ensures
        g.with_quad(layer, a, b, uv0, uv1, top, bottom).wf(),
{
    let after = g.with_quad(layer, a, b, uv0, uv1, top, bottom);
    assert forall|l: int, i: int|
        0 <= l < after.layers.len() && 0 <= i < after.layers[l].len() implies (
    #[trigger] after.layers[l][i]) < after.vertices.len() by {
        if l == layer && i >= g.layers[l].len() {
        } else {
            assert(after.layers[l][i] == g.layers[l][i]);
        }
    }
}

/// Adding a rectangle leaves the number of layers and the font as they
/// were, and keeps every index inside the pool.
pub proof fn lemma_with_rectangle_wf(g: GeometryView, layer: int, rect: (Point, Point), color0: Color, color1: Color)
    requires
        g.wf(),
        0 <= layer < g.layers.len(),
    ensures
        g.with_rectangle(layer, rect, color0, color1).wf(),
        g.with_rectangle(layer, rect, color0, color1).layers.len() == g.layers.len(),
        g.with_rectangle(layer, rect, color0, color1).font == g.font,
{
    lemma_with_quad_wf(
        g,
        layer,
        rect.0,
        rect.1,
        g.font.opaque_pixel,
        g.font.opaque_pixel,
        packed_color(color0),
        packed_color(color1),
    );
}

/// Setting text leaves the number of layers and the font as they were,
/// and keeps every index inside the pool.
pub proof fn lemma_put_text_shape(s: TextState, layer: int, text: Seq<char>, color: Color)
    requires
        0 <= layer < s.geometry.layers.len(),
    ensures
        s.put_text(layer, text, color).geometry.layers.len() == s.geometry.layers.len(),
        s.put_text(layer, text, color).geometry.font == s.geometry.font,
        s.geometry.wf() ==> s.put_text(layer, text, color).geometry.wf(),
    decreases text.len(),
{
    if text.len() > 0 {
        lemma_put_text_shape(s, layer, text.drop_last(), color);
        let before = s.put_text(layer, text.drop_last(), color);
        match before.geometry.font.glyph(text.last()) {
            Some(glyph) => {
                if before.geometry.wf() {
                    let x0 = px(before.pen.x + glyph.offset.0);
                    let y0 = px(before.pen.y + glyph.offset.1);
                    let x1 = px(x0 + glyph.width());
                    let y1 = px(y0 + glyph.height());
                    lemma_with_quad_wf(
                        before.geometry,
                        layer,
                        Point { x: x0, y: y0 },
                        Point { x: x1, y: y1 },
                        glyph.uv0,
                        glyph.uv1,
                        packed_color(color),
                        packed_color(color),
                    );
                }
            },
            None => {},
        }
    }
}

} // verus!
