//! The shader that draws the overlay's triangles.

use vstd::prelude::*;
use vstd::string::StringExecFns;
use crate::text::{append_decimal, decimal};

verus! {

/// What the shader says before the width of the atlas.
pub const SHADER_HEAD: &'static str = "
const ATLAS_SIZE: f32 = ";

/// What the shader says after the width of the atlas.
pub const SHADER_TAIL: &'static str = ".0;

struct Globals {
    target_size: vec2f,
    scale: f32,
    opacity: f32,
    y_flip: f32,
};

@group(0) @binding(0) var<uniform> globals: Globals;
@group(0) @binding(1) var glyph_atlas: texture_2d<f32>;

struct VertexOutput {
    @builtin(position) position: vec4f,
    @location(0) color: vec4f,
    @location(1) uv: vec2f,
};

@vertex fn vs_main(
    @location(0) position: vec2f,
    @location(1) uv_color: vec2u,
) -> VertexOutput {
    let uv = vec2f(
        f32(uv_color.x >> 16u),
        f32(uv_color.x & 0xFFFFu)
    );

    let color = vec4f(
        f32((uv_color.y >> 24u) & 0xFFu),
        f32((uv_color.y >> 16u) & 0xFFu),
        f32((uv_color.y >>  8u) & 0xFFu),
        f32(uv_color.y & 0xFFu) * globals.opacity,
    ) / 255.0;

    var screen_pos = ((position * globals.scale) / globals.target_size) * 2.0 - 1.0;
    screen_pos.y *= globals.y_flip;

    return VertexOutput(
        vec4f(screen_pos, 0.0, 1.0),
        color,
        uv,
    );
}

@fragment fn fs_main(
    @location(0) color: vec4f,
    @location(1) uv: vec2f,
) -> @location(0) vec4f {
    let texel = textureLoad(glyph_atlas, vec2u(uv), 0).r;
    return color * color.a * texel;
}
";

/// The source of the shader for an atlas that is `atlas_width` texels wide.
pub fn shader_src(atlas_width: u32) -> (source: String)
    ensures
        source@ == SHADER_HEAD@ + decimal(atlas_width as nat) + SHADER_TAIL@,
{
    let mut source = String::from_str(SHADER_HEAD);
    append_decimal(&mut source, atlas_width as u64);
    source.append(SHADER_TAIL);
    source
}

} // verus!
