//! What the overlay binds and uploads.
use vstd::prelude::*;

use crate::gpu::single_set_pool;
use crate::gpu::Format;
use crate::gpu::PoolPlan;

verus! {

/// The textures of the overlay.
#[derive(Clone, Copy, Debug, PartialEq, Eq, Structural)]
pub enum MenuTexture {
    Font,
    Sprites,
    Items,
    McFont,
    Blur,
    Favicons,
    CameraOverlay,
    Underwater,
    McFontColor,
}

/// The textures in the order the shader binds them.
pub const MENU_BINDINGS: [MenuTexture; 9] = [
    MenuTexture::Font,
    MenuTexture::Sprites,
    MenuTexture::Items,
    MenuTexture::McFont,
    MenuTexture::Blur,
    MenuTexture::Favicons,
    MenuTexture::CameraOverlay,
    MenuTexture::Underwater,
    MenuTexture::McFontColor,
];

/// Bytes of the overlay's uniform block: the screen's width and height.
pub const GLOBALS_SIZE: u64 = 8;

/// The pool of the overlay: its uniform block, and all textures in one set.
pub fn menu_pool() -> (plan: PoolPlan)
    ensures
        plan == (PoolPlan { uniforms: 1, samplers: 9, max_sets: 2 }),
{
    single_set_pool(9)
}

/// The binding of a texture.
pub fn binding_of(texture: MenuTexture) -> (binding: u32)
    ensures
        binding < 9,
        MENU_BINDINGS[binding as int] == texture,
{
    match texture {
        MenuTexture::Font => 0,
        MenuTexture::Sprites => 1,
        MenuTexture::Items => 2,
        MenuTexture::McFont => 3,
        MenuTexture::Blur => 4,
        MenuTexture::Favicons => 5,
        MenuTexture::CameraOverlay => 6,
        MenuTexture::Underwater => 7,
        MenuTexture::McFontColor => 8,
    }
}

/// No texture is bound twice.
pub proof fn law_bindings_are_distinct(a: int, b: int)
    requires
        0 <= a < b < 9,
    ensures
        MENU_BINDINGS[a] != MENU_BINDINGS[b],
{
    assert(MENU_BINDINGS[0] == MenuTexture::Font);
}

/// The image a binding starts with: its own, and the font's where the blurred
/// screen will be.
pub fn initial_image(binding: usize) -> (texture: MenuTexture)
    requires
        binding < 9,
    ensures
        texture == (if MENU_BINDINGS[binding as int] == MenuTexture::Blur {
            MenuTexture::Font
        } else {
            MENU_BINDINGS[binding as int]
        }),
{
    let bindings = MENU_BINDINGS;
    match bindings[binding] {
        MenuTexture::Blur => MenuTexture::Font,
        texture => texture,
    }
}

/// Side of a glyph atlas layer.
pub const GLYPH_ATLAS_SIZE: u32 = 2048;

/// A layered image to upload.
#[derive(Clone, Copy, Debug, PartialEq, Eq, Structural)]
pub struct ImageArray {
    pub width: u32,
    pub height: u32,
    pub layers: u32,
    pub format: Format,
}

/// An image of glyphs, or a single blank pixel where there are none.
pub open spec fn glyph_image(layers: u32, format: Format) -> ImageArray {
    if layers > 0 {
        ImageArray { width: GLYPH_ATLAS_SIZE, height: GLYPH_ATLAS_SIZE, layers, format }
    } else {
        ImageArray { width: 1, height: 1, layers: 1, format }
    }
}

/// The layers of the loaded glyphs.
#[derive(Clone, Copy, Debug, PartialEq, Eq, Structural)]
pub struct GlyphLayers {
    pub gray: u32,
    pub color: u32,
}

/// The images of the gray and of the coloured glyphs.
pub fn font_images(glyphs: Option<GlyphLayers>) -> (images: (ImageArray, ImageArray))
    ensures
        images.0 == (match glyphs {
            Some(g) => ImageArray {
                width: GLYPH_ATLAS_SIZE,
                height: GLYPH_ATLAS_SIZE,
                layers: g.gray,
                format: Format::R8Unorm,
            },
            None => glyph_image(0, Format::R8Unorm),
        }),
        images.1 == glyph_image(
            match glyphs {
                Some(g) => g.color,
                None => 0,
            },
            Format::R8G8B8A8Srgb,
        ),
{
    let gray = match glyphs {
        Some(g) => ImageArray {
            width: GLYPH_ATLAS_SIZE,
            height: GLYPH_ATLAS_SIZE,
            layers: g.gray,
            format: Format::R8Unorm,
        },
        None => ImageArray { width: 1, height: 1, layers: 1, format: Format::R8Unorm },
    };
    let layers: u32 = match glyphs {
        Some(g) => g.color,
        None => 0,
    };
    let color = if layers > 0 {
        ImageArray {
            width: GLYPH_ATLAS_SIZE,
            height: GLYPH_ATLAS_SIZE,
            layers,
            format: Format::R8G8B8A8Srgb,
        }
    } else {
        ImageArray { width: 1, height: 1, layers: 1, format: Format::R8G8B8A8Srgb }
    };
    (gray, color)
}

/// Bytes of a pixel of a glyph image.
pub fn bytes_per_pixel(format: Format) -> (bytes: u32)
    ensures
        bytes == (if format == Format::R8Unorm {
            1u32
        } else {
            4u32
        }),
{
    match format {
        Format::R8Unorm => 1,
        _ => 4,
    }
}

/// An image of glyphs has a full side for as many layers as there are; where there are
/// none a single pixel holds its place.
pub proof fn law_glyph_images_hold_their_layers(layers: u32, format: Format)
    ensures
        ({
            let image = glyph_image(layers, format);
            &&& image.format == format
            &&& image.layers >= 1
            &&& layers >= 1 ==> image.layers == layers && image.width == 2048 && image.height
                == 2048
            &&& layers == 0 ==> image.width == 1 && image.height == 1 && image.layers == 1
        }),
{
}

} // verus!
