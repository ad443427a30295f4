//! A low-overhead debugging overlay: frame-stepped counters with windowed
//! statistics, an immediate-mode layout engine and a geometry builder that
//! turns both into indexed triangles.
//!
//! Everything here works on integers. Counter samples are `i64`; a counter
//! shown with decimals holds hundredths. Pixel coordinates are `i32`:
//! they are computed on mathematical integers and brought back into the
//! range of `i32` by [`pixel::px`].

pub mod pixel;
pub mod text;
pub mod font;
pub mod bake;
pub mod geometry;
pub mod counter;
pub mod overlay;
pub mod graph;
pub mod table;
pub mod shader;
pub mod wgpu_counters;
pub mod filters;
pub mod events;
pub mod noop;
pub mod svg;

pub use counter::{
    Counter, CounterDescriptor, CounterGroup, CounterId, CounterIndex, CounterIterator, Counters,
    Format, HistoryIter, Orientation, Sample,
};
pub use font::{GlyphAtlas, GlyphInfo};
pub use geometry::{
    color_to_u32, Color, Layer, LayerGeometry, OverlayGeometry, Point, Vertex, BACKGROUND_LAYER,
    FRONT_LAYER,
};
pub use overlay::{Overlay, OverlayItem, Style};
