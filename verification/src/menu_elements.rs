//! The quads each element of the overlay is made of.
use vstd::prelude::*;
use vstd::string::*;

use crate::atlas::SpriteAtlas;
use crate::atlas::SpriteRegion;
use crate::favicons::IconCell;
use crate::font_atlas::GlyphPlace;
use crate::mc_text::InlineObject;
use crate::mc_text::PIXEL;
use crate::nine_slice::nine_slice;
use crate::nine_slice::Frame;
use crate::nine_slice::SliceQuad;
use crate::sprites::SpriteId;
use crate::text_map::TextMap;
use crate::tooltip::tile_area;
use crate::tooltip::Tile;

verus! {

/// How the shader fills a quad.
#[derive(Clone, Copy, Debug, PartialEq, Eq, Structural)]
pub enum ShaderMode {
    Solid,
    Icon,
    Sprite,
    Item,
    Glyph,
    ColoredGlyph,
    Frosted,
    Dynamic,
    Pumpkin,
    Vignette,
    Underwater,
    Fill,
}

/// The number of a mode, in quarters.
pub open spec fn quarters(mode: ShaderMode) -> u32 {
    match mode {
        ShaderMode::Solid => 0,
        ShaderMode::Icon => 4,
        ShaderMode::Sprite => 8,
        ShaderMode::Item => 12,
        ShaderMode::Glyph => 16,
        ShaderMode::ColoredGlyph => 17,
        ShaderMode::Frosted => 20,
        ShaderMode::Dynamic => 24,
        ShaderMode::Pumpkin => 28,
        ShaderMode::Vignette => 32,
        ShaderMode::Underwater => 36,
        ShaderMode::Fill => 40,
    }
}

/// The number the shader knows a mode by, in quarters.
pub fn mode_quarters(mode: ShaderMode) -> (number: u32)
    ensures
        number == quarters(mode),
{
    match mode {
        ShaderMode::Solid => 0,
        ShaderMode::Icon => 4,
        ShaderMode::Sprite => 8,
        ShaderMode::Item => 12,
        ShaderMode::Glyph => 16,
        ShaderMode::ColoredGlyph => 17,
        ShaderMode::Frosted => 20,
        ShaderMode::Dynamic => 24,
        ShaderMode::Pumpkin => 28,
        ShaderMode::Vignette => 32,
        ShaderMode::Underwater => 36,
        ShaderMode::Fill => 40,
    }
}

/// No two modes share a number.
pub proof fn law_modes_are_distinct(a: ShaderMode, b: ShaderMode)
    requires
        quarters(a) == quarters(b),
    ensures
        a == b,
{
}

/// The corners of a quad's two triangles: right, and bottom.
pub const MENU_CORNERS: [(bool, bool); 6] = [
    (false, false),
    (true, false),
    (false, true),
    (true, false),
    (true, true),
    (false, true),
];

/// The part of a texture a quad shows.
#[derive(Clone, Copy, Debug, PartialEq, Eq, Structural)]
pub enum Texture {
    /// None, or all of it.
    Whole,
    Glyph(GlyphPlace),
    Sprite(SpriteRegion),
    /// A part of the sprite atlas, in its pixels.
    Slice { u0: i64, v0: i64, u1: i64, v1: i64 },
    /// The upper left of a sprite: `w` and `h` of each `tile`.
    Part { region: SpriteRegion, w: i64, h: i64, tile: i64 },
    Cell(IconCell),
}

/// A quad of the overlay, placed in 256ths of a pixel.
#[derive(Clone, Copy, Debug, PartialEq, Eq, Structural)]
pub struct OverlayQuad {
    pub x: i64,
    pub y: i64,
    pub w: i64,
    pub h: i64,
    pub mode: ShaderMode,
    pub texture: Texture,
}

/// What an element shows.
pub enum Content {
    /// A plain, rounded or gradient rectangle.
    Solid,
    /// A symbol of the interface font, if the atlas has it.
    Icon { place: Option<GlyphPlace> },
    Sprite { sprite: SpriteId },
    /// A sprite with its border kept; the rectangle snaps to whole pixels.
    NineSlice { sprite: SpriteId, frame: Frame },
    /// A sprite repeated.
    Tiled { sprite: SpriteId, tile: i64 },
    /// An item, if it is on the item atlas.
    Item { known: bool },
    Frosted,
    /// A picture loaded at run time, with the sprite shown until then.
    Dynamic { key: String, fallback: SpriteId },
    Vignette,
    Pumpkin,
    Underwater,
    Sleep,
}

/// An element and its rectangle, in 256ths of a pixel.
pub struct OverlayElement {
    pub x: i64,
    pub y: i64,
    pub w: i64,
    pub h: i64,
    pub content: Content,
}

/// The mode an object in text is drawn in: that of the dynamic atlas, or of the sprite
/// that stands in for it.
pub fn object_mode(texture: &Texture) -> (mode: ShaderMode)
    ensures
        mode == (if *texture is Cell {
            ShaderMode::Dynamic
        } else {
            ShaderMode::Sprite
        }),
{
    match texture {
        Texture::Cell(_) => ShaderMode::Dynamic,
        _ => ShaderMode::Sprite,
    }
}

/// The atlases elements take their pictures from.
pub struct Pictures {
    pub sprites: SpriteAtlas,
    pub dynamic: TextMap<IconCell>,
}

impl Pictures {
    pub open spec fn wf(self) -> bool {
        self.dynamic.wf()
    }

    /// Where a sprite lies.
    pub open spec fn sprite(self, id: SpriteId) -> Option<SpriteRegion> {
        crate::atlas::region_of(self.sprites.regions@, id, self.sprites.regions@.len() as int)
    }

    /// Shows the picture under `frame_key` for an object, if there is one.
    pub fn set_inline_object_frame(&mut self, key: &str, frame_key: &str)
        requires
            old(self).wf(),
        ensures
            final(self).wf(),
            final(self).sprites == old(self).sprites,
            final(self).dynamic@ == (if old(self).dynamic@.dom().contains(frame_key@) {
                old(self).dynamic@.insert(key@, old(self).dynamic@[frame_key@])
            } else {
                old(self).dynamic@
            }),
    {
        self.dynamic.alias(key, frame_key);
    }
}

/// The objects drawn in text since they were last asked for, by their picture's
/// key.
pub struct DrawnObjects {
    pub objects: TextMap<InlineObject>,
}

impl DrawnObjects {
    pub open spec fn wf(self) -> bool {
        self.objects.wf()
    }

    pub fn new() -> (drawn: Self)
        ensures
            drawn.wf(),
            drawn.objects@ == Map::<Seq<char>, InlineObject>::empty(),
    {
        DrawnObjects { objects: TextMap::new() }
    }

    /// An object was drawn; the first one under a key is kept.
    pub fn note_drawn(&mut self, key: String, object: InlineObject)
        requires
            old(self).wf(),
        ensures
            final(self).wf(),
            final(self).objects@ == (if old(self).objects@.dom().contains(key@) {
                old(self).objects@
            } else {
                old(self).objects@.insert(key@, object)
            }),
    {
        self.objects.insert_new(key, object);
    }

    /// Hands the drawn objects over, each once, and forgets them.
    pub fn drain_drawn_inline_objects(&mut self) -> (list: Vec<(String, InlineObject)>)
        requires
            old(self).wf(),
        ensures
            final(self).wf(),
            final(self).objects@ == Map::<Seq<char>, InlineObject>::empty(),
            crate::text_map::lists(list@, old(self).objects@),
    {
        self.objects.drain()
    }
}

impl OverlayElement {
    /// Coordinates that can be added, and tiles that can be counted.
    pub open spec fn wf(self) -> bool {
        &&& crate::tooltip::moderate(self.x as int)
        &&& crate::tooltip::moderate(self.y as int)
        &&& crate::tooltip::moderate(self.w as int)
        &&& crate::tooltip::moderate(self.h as int)
        &&& match self.content {
            Content::NineSlice { frame, .. } => frame.wf(),
            Content::Tiled { tile, .. } => {
                &&& 0 < tile <= 0x100_0000_0000
                &&& crate::tooltip::tile_count(self.w as int, tile as int)
                    * crate::tooltip::tile_count(self.h as int, tile as int) <= i64::MAX
            },
            _ => true,
        }
    }

    /// A quad over the whole rectangle.
    pub open spec fn filled(self, mode: ShaderMode, texture: Texture) -> Seq<OverlayQuad> {
        seq![OverlayQuad { x: self.x, y: self.y, w: self.w, h: self.h, mode, texture }]
    }
}

/// A quad of a sprite with its border kept.
pub open spec fn slice_quad(q: SliceQuad) -> OverlayQuad {
    OverlayQuad {
        x: (q.x * 256) as i64,
        y: (q.y * 256) as i64,
        w: (q.w * 256) as i64,
        h: (q.h * 256) as i64,
        mode: ShaderMode::Sprite,
        texture: Texture::Slice { u0: q.u0, v0: q.v0, u1: q.u1, v1: q.v1 },
    }
}

/// A quad of a repeated sprite.
pub open spec fn tile_quad(
    x: i64,
    y: i64,
    region: SpriteRegion,
    t: Tile,
    tile: i64,
) -> OverlayQuad {
    OverlayQuad {
        x: (x + t.x) as i64,
        y: (y + t.y) as i64,
        w: t.w,
        h: t.h,
        mode: ShaderMode::Sprite,
        texture: Texture::Part { region, w: t.w, h: t.h, tile },
    }
}

/// The tiles of an element.
pub open spec fn element_tiles(e: OverlayElement, tile: i64) -> Seq<Tile> {
    let columns = crate::tooltip::tile_count(e.w as int, tile as int);
    Seq::new(
        (columns * crate::tooltip::tile_count(e.h as int, tile as int)) as nat,
        |k: int|
            crate::tooltip::tile_at(e.w as int, e.h as int, tile as int, k / columns, k % columns),
    )
}

/// The quads of an element. What is not on its atlas is not drawn; a picture that is
/// not loaded shows its sprite.
pub open spec fn quads_of(e: OverlayElement, p: Pictures) -> Seq<OverlayQuad> {
    match e.content {
        Content::Solid => e.filled(ShaderMode::Solid, Texture::Whole),
        Content::Icon { place } => match place {
            Some(g) => e.filled(ShaderMode::Icon, Texture::Glyph(g)),
            None => Seq::empty(),
        },
        Content::Sprite { sprite } => match p.sprite(sprite) {
            Some(r) => e.filled(ShaderMode::Sprite, Texture::Sprite(r)),
            None => Seq::empty(),
        },
        Content::NineSlice { sprite, frame } => match p.sprite(sprite) {
            Some(r) => crate::nine_slice::slices(frame, r, 9).map_values(
                |q: SliceQuad| slice_quad(q),
            ),
            None => Seq::empty(),
        },
        Content::Tiled { sprite, tile } => match p.sprite(sprite) {
            Some(r) => element_tiles(e, tile).map_values(|t: Tile| tile_quad(e.x, e.y, r, t, tile)),
            None => Seq::empty(),
        },
        Content::Item { known } => if known {
            e.filled(ShaderMode::Item, Texture::Whole)
        } else {
            Seq::empty()
        },
        Content::Frosted => e.filled(ShaderMode::Frosted, Texture::Whole),
        Content::Dynamic { key, fallback } => if p.dynamic@.dom().contains(key@) {
            e.filled(ShaderMode::Dynamic, Texture::Cell(p.dynamic@[key@]))
        } else {
            match p.sprite(fallback) {
                Some(r) => e.filled(ShaderMode::Sprite, Texture::Sprite(r)),
                None => Seq::empty(),
            }
        },
        Content::Vignette => e.filled(ShaderMode::Vignette, Texture::Whole),
        Content::Pumpkin => e.filled(ShaderMode::Pumpkin, Texture::Whole),
        Content::Underwater => e.filled(ShaderMode::Underwater, Texture::Whole),
        Content::Sleep => e.filled(ShaderMode::Fill, Texture::Whole),
    }
}

fn fill(e: &OverlayElement, mode: ShaderMode, texture: Texture) -> (quads: Vec<OverlayQuad>)
    ensures
        quads@ == e.filled(mode, texture),
{
    let mut quads: Vec<OverlayQuad> = Vec::new();
    quads.push(OverlayQuad { x: e.x, y: e.y, w: e.w, h: e.h, mode, texture });
    assert(quads@ =~= e.filled(mode, texture));
    quads
}

proof fn lemma_slice_bounds(frame: Frame, region: SpriteRegion, n: int, k: int)
    requires
        frame.wf(),
        0 <= n <= 9,
        0 <= k < crate::nine_slice::slices(frame, region, n).len(),
    ensures
        ({
            let q = crate::nine_slice::slices(frame, region, n)[k];
            &&& -0x8_0000_0000 <= q.x <= 0x8_0000_0000
            &&& -0x8_0000_0000 <= q.y <= 0x8_0000_0000
            &&& 0 < q.w <= 0x10_0000_0000
            &&& 0 < q.h <= 0x10_0000_0000
        }),
    decreases n,
{
    if n > 0 {
        let before = crate::nine_slice::slices(frame, region, n - 1);
        if k < before.len() {
            lemma_slice_bounds(frame, region, n - 1, k);
        }
    }
}

fn sliced(frame: Frame, region: SpriteRegion) -> (quads: Vec<OverlayQuad>)
    requires
        frame.wf(),
    ensures
        quads@ == crate::nine_slice::slices(frame, region, 9).map_values(
            |q: SliceQuad| slice_quad(q),
        ),
{
    let parts = nine_slice(frame, region);
    let mut quads: Vec<OverlayQuad> = Vec::new();
    let ghost want = parts@.map_values(|q: SliceQuad| slice_quad(q));
    let mut k: usize = 0;
    while k < parts.len()
        invariant
            k <= parts@.len(),
            frame.wf(),
            parts@ == crate::nine_slice::slices(frame, region, 9),
            want == parts@.map_values(|q: SliceQuad| slice_quad(q)),
            quads@ =~= want.take(k as int),
        decreases parts@.len() - k,
    {
        proof {
            lemma_slice_bounds(frame, region, 9, k as int);
        }
        let q = parts[k];
        quads.push(
            OverlayQuad {
                x: q.x * PIXEL,
                y: q.y * PIXEL,
                w: q.w * PIXEL,
                h: q.h * PIXEL,
                mode: ShaderMode::Sprite,
                texture: Texture::Slice { u0: q.u0, v0: q.v0, u1: q.u1, v1: q.v1 },
            },
        );
        assert(want[k as int] == slice_quad(q));
        k = k + 1;
    }
    assert(quads@ =~= want);
    quads
}

fn tiled(e: &OverlayElement, region: SpriteRegion, tile: i64) -> (quads: Vec<OverlayQuad>)
    requires
        crate::tooltip::moderate(e.x as int),
        crate::tooltip::moderate(e.y as int),
        crate::tooltip::moderate(e.w as int),
        crate::tooltip::moderate(e.h as int),
        0 < tile <= 0x100_0000_0000,
        crate::tooltip::tile_count(e.w as int, tile as int) * crate::tooltip::tile_count(
            e.h as int,
            tile as int,
        ) <= i64::MAX,
    ensures
        quads@ == element_tiles(*e, tile).map_values(
            |t: Tile| tile_quad(e.x, e.y, region, t, tile),
        ),
{
    let tiles = tile_area(e.w, e.h, tile);
    assert(tiles@ =~= element_tiles(*e, tile));
    let mut quads: Vec<OverlayQuad> = Vec::new();
    let ghost want = tiles@.map_values(|t: Tile| tile_quad(e.x, e.y, region, t, tile));
    let mut k: usize = 0;
    while k < tiles.len()
        invariant
            k <= tiles@.len(),
            crate::tooltip::moderate(e.x as int),
            crate::tooltip::moderate(e.y as int),
            crate::tooltip::moderate(e.w as int),
            crate::tooltip::moderate(e.h as int),
            0 < tile <= 0x100_0000_0000,
            tiles@ == element_tiles(*e, tile),
            want == tiles@.map_values(|t: Tile| tile_quad(e.x, e.y, region, t, tile)),
            quads@ =~= want.take(k as int),
        decreases tiles@.len() - k,
    {
        let t = tiles[k];
        proof {
            crate::tooltip::lemma_tile_in_area(e.w as int, e.h as int, tile as int, k as int);
        }
        quads.push(
            OverlayQuad {
                x: e.x + t.x,
                y: e.y + t.y,
                w: t.w,
                h: t.h,
                mode: ShaderMode::Sprite,
                texture: Texture::Part { region, w: t.w, h: t.h, tile },
            },
        );
        assert(want[k as int] == tile_quad(e.x, e.y, region, t, tile));
        k = k + 1;
    }
    assert(quads@ =~= want);
    quads
}

/// The quads of an element.
pub fn element_quads(e: &OverlayElement, p: &Pictures) -> (quads: Vec<OverlayQuad>)
    requires
        e.wf(),
        p.wf(),
    ensures
        quads@ == quads_of(*e, *p),
{
    match &e.content {
        Content::Solid => fill(e, ShaderMode::Solid, Texture::Whole),
        Content::Icon { place } => match place {
            Some(g) => fill(e, ShaderMode::Icon, Texture::Glyph(*g)),
            None => Vec::new(),
        },
        Content::Sprite { sprite } => match p.sprites.region(*sprite) {
            Some(r) => fill(e, ShaderMode::Sprite, Texture::Sprite(r)),
            None => Vec::new(),
        },
        Content::NineSlice { sprite, frame } => match p.sprites.region(*sprite) {
            Some(r) => sliced(*frame, r),
            None => Vec::new(),
        },
        Content::Tiled { sprite, tile } => match p.sprites.region(*sprite) {
            Some(r) => tiled(e, r, *tile),
            None => Vec::new(),
        },
        Content::Item { known } => if *known {
            fill(e, ShaderMode::Item, Texture::Whole)
        } else {
            Vec::new()
        },
        Content::Frosted => fill(e, ShaderMode::Frosted, Texture::Whole),
        Content::Dynamic { key, fallback } => match p.dynamic.get(key.as_str()) {
            Some(cell) => fill(e, ShaderMode::Dynamic, Texture::Cell(*cell)),
            None => match p.sprites.region(*fallback) {
                Some(r) => fill(e, ShaderMode::Sprite, Texture::Sprite(r)),
                None => Vec::new(),
            },
        },
        Content::Vignette => fill(e, ShaderMode::Vignette, Texture::Whole),
        Content::Pumpkin => fill(e, ShaderMode::Pumpkin, Texture::Whole),
        Content::Underwater => fill(e, ShaderMode::Underwater, Texture::Whole),
        Content::Sleep => fill(e, ShaderMode::Fill, Texture::Whole),
    }
}

/// The sprite shown for an object in text until its picture is loaded.
pub fn object_fallback(object: InlineObject) -> (sprite: SpriteId)
    ensures
        sprite == (if object == InlineObject::Player {
            SpriteId::SteveHead
        } else {
            SpriteId::UnknownServer
        }),
{
    match object {
        InlineObject::Player => SpriteId::SteveHead,
        InlineObject::AtlasSprite { .. } => SpriteId::UnknownServer,
    }
}

/// Where the shadow of text gets its colour.
#[derive(Clone, Copy, Debug, PartialEq, Eq, Structural)]
pub enum ShadowColor {
    /// The style's own, its alpha scaled by the text's.
    Explicit,
    /// A quarter of the text's brightness.
    Quarter,
    Nothing,
}

/// A style's own shadow is always cast, the usual one only where it is asked for.
pub fn shadow_color(explicit: bool, drop_shadow: bool) -> (color: ShadowColor)
    ensures
        color == (if explicit {
            ShadowColor::Explicit
        } else if drop_shadow {
            ShadowColor::Quarter
        } else {
            ShadowColor::Nothing
        }),
{
    if explicit {
        ShadowColor::Explicit
    } else if drop_shadow {
        ShadowColor::Quarter
    } else {
        ShadowColor::Nothing
    }
}

/// A copy of a glyph: its shadow or itself, and whether moved for bold.
#[derive(Clone, Copy, Debug, PartialEq, Eq, Structural)]
pub struct GlyphCopy {
    pub shadow: bool,
    pub bold: bool,
}

/// The two copies of a bold glyph, the one of another.
pub open spec fn with_bold(shadow: bool, bold: bool) -> Seq<GlyphCopy> {
    if bold {
        seq![GlyphCopy { shadow, bold: false }, GlyphCopy { shadow, bold: true }]
    } else {
        seq![GlyphCopy { shadow, bold: false }]
    }
}

/// The copies of a glyph in drawing order; a glyph without pixels has none.
pub open spec fn copies_of(width: u32, height: u32, shadow: bool, bold: bool) -> Seq<GlyphCopy> {
    if width == 0 || height == 0 {
        Seq::empty()
    } else if shadow {
        with_bold(true, bold) + with_bold(false, bold)
    } else {
        with_bold(false, bold)
    }
}

/// The copies of a glyph.
pub fn glyph_copies(width: u32, height: u32, shadow: bool, bold: bool) -> (copies: Vec<GlyphCopy>)
    ensures
        copies@ == copies_of(width, height, shadow, bold),
{
    let mut copies: Vec<GlyphCopy> = Vec::new();
    if width == 0 || height == 0 {
        return copies;
    }
    if shadow {
        copies.push(GlyphCopy { shadow: true, bold: false });
        if bold {
            copies.push(GlyphCopy { shadow: true, bold: true });
        }
        assert(copies@ =~= with_bold(true, bold));
    }
    copies.push(GlyphCopy { shadow: false, bold: false });
    if bold {
        copies.push(GlyphCopy { shadow: false, bold: true });
    }
    copies
}

/// A glyph's shadow lies below the glyph: no shadow is drawn after it.
pub proof fn law_shadows_come_first(bold: bool, i: int, j: int)
    requires
        0 <= i < j < (with_bold(true, bold) + with_bold(false, bold)).len(),
        !(with_bold(true, bold) + with_bold(false, bold))[i].shadow,
    ensures
        !(with_bold(true, bold) + with_bold(false, bold))[j].shadow,
{
}

/// A glyph with pixels is drawn once, a second time if it is bold, and if it casts a
/// shadow as often before that; one without pixels is not drawn.
pub proof fn law_glyphs_are_copied(width: u32, height: u32, shadow: bool, bold: bool, copy: GlyphCopy)
    ensures
        copies_of(width, height, shadow, bold).contains(copy) <==> width > 0 && height > 0 && (
        copy.shadow ==> shadow) && (copy.bold ==> bold),
        width > 0 && height > 0 ==> copies_of(width, height, shadow, bold).len() == (if shadow {
            2int
        } else {
            1
        }) * (if bold {
            2int
        } else {
            1
        }),
        forall|i: int, j: int|
            0 <= i < j < copies_of(width, height, shadow, bold).len() ==> {
                let a = #[trigger] copies_of(width, height, shadow, bold)[i];
                let b = #[trigger] copies_of(width, height, shadow, bold)[j];
                a.shadow && !b.shadow || a.shadow == b.shadow && !a.bold && b.bold
            },
{
    let copies = copies_of(width, height, shadow, bold);
    if width > 0 && height > 0 {
        let per = if bold {
            2int
        } else {
            1
        };
        assert(with_bold(true, bold).len() == per && with_bold(false, bold).len() == per);
        if (copy.shadow ==> shadow) && (copy.bold ==> bold) {
            let j = (if shadow && !copy.shadow {
                per
            } else {
                0
            }) + if copy.bold {
                1int
            } else {
                0
            };
            assert(copies[j] == copy);
        }
    }
}

/// An element that is neither cut up nor repeated is one quad over its rectangle, or
/// nothing where what it shows is not to be had.
pub proof fn law_elements_fill_their_rectangle(e: OverlayElement, p: Pictures)
    requires
        !(e.content is NineSlice),
        !(e.content is Tiled),
    ensures
        ({
            let quads = quads_of(e, p);
            let missing = match e.content {
                Content::Icon { place } => place is None,
                Content::Sprite { sprite } => p.sprite(sprite) is None,
                Content::Item { known } => !known,
                Content::Dynamic { key, fallback } => !p.dynamic@.dom().contains(key@) && p.sprite(
                    fallback,
                ) is None,
                _ => false,
            };
            &&& quads.len() == (if missing {
                0int
            } else {
                1
            })
            &&& !missing ==> quads[0].x == e.x && quads[0].y == e.y && quads[0].w == e.w
                && quads[0].h == e.h
        }),
{
}

/// Each kind of element has the shader mode of its own, by number in quarters, and
/// shows its own part of a texture.
pub proof fn law_elements_show_their_content(e: OverlayElement, p: Pictures, i: int)
    requires
        0 <= i < quads_of(e, p).len(),
    ensures
        ({
            let quad = quads_of(e, p)[i];
            let number = quarters(quad.mode);
            match e.content {
                Content::Solid => number == 0 && quad.texture is Whole,
                Content::Icon { place } => number == 4 && quad.texture == Texture::Glyph(place->0),
                Content::Sprite { sprite } => number == 8 && quad.texture == Texture::Sprite(
                    p.sprite(sprite)->0,
                ),
                Content::NineSlice { .. } => number == 8 && quad.texture is Slice,
                Content::Tiled { sprite, tile } => number == 8 && quad.texture == (Texture::Part {
                    region: p.sprite(sprite)->0,
                    w: quad.w,
                    h: quad.h,
                    tile,
                }),
                Content::Item { .. } => number == 12 && quad.texture is Whole,
                Content::Frosted => number == 20 && quad.texture is Whole,
                Content::Dynamic { key, fallback } => if p.dynamic@.dom().contains(key@) {
                    number == 24 && quad.texture == Texture::Cell(p.dynamic@[key@])
                } else {
                    number == 8 && quad.texture == Texture::Sprite(p.sprite(fallback)->0)
                },
                Content::Pumpkin => number == 28 && quad.texture is Whole,
                Content::Vignette => number == 32 && quad.texture is Whole,
                Content::Underwater => number == 36 && quad.texture is Whole,
                Content::Sleep => number == 40 && quad.texture is Whole,
            }
        }),
{
}

/// A sprite with its border kept is drawn over the whole of its frame: every pixel of it
/// is in one of the quads.
pub proof fn law_sliced_elements_cover_their_frame(
    e: OverlayElement,
    p: Pictures,
    x: int,
    y: int,
)
    requires
        e.wf(),
        e.content is NineSlice,
        p.sprite(e.content->NineSlice_sprite) is Some,
        e.content->frame.x0 <= x < e.content->frame.x1,
        e.content->frame.y0 <= y < e.content->frame.y1,
    ensures
        exists|i: int|
            0 <= i < quads_of(e, p).len() && ({
                let q = #[trigger] quads_of(e, p)[i];
                q.x <= 256 * x && 256 * (x + 1) <= q.x + q.w && q.y <= 256 * y && 256 * (y + 1)
                    <= q.y + q.h
            }),
{
    let frame = e.content->frame;
    let r = p.sprite(e.content->NineSlice_sprite)->0;
    let row = crate::nine_slice::band(frame.row(1), frame.row(2), y);
    let col = crate::nine_slice::band(frame.column(1), frame.column(2), x);
    crate::nine_slice::law_slices_tile_the_frame(frame, r, x, y, row, col);
    let parts = crate::nine_slice::slices(frame, r, 9);
    let s = crate::nine_slice::slice(frame, r, row, col);
    let i = choose|i: int| 0 <= i < parts.len() && parts[i] == s;
    lemma_slice_bounds(frame, r, 9, i);
    assert(quads_of(e, p)[i] == slice_quad(s));
}

/// A repeated sprite is drawn over the whole of its element: every point of it is in one
/// of the quads.
pub proof fn law_tiled_elements_cover_their_rectangle(
    e: OverlayElement,
    p: Pictures,
    x: int,
    y: int,
)
    requires
        e.wf(),
        e.content is Tiled,
        p.sprite(e.content->Tiled_sprite) is Some,
        e.x <= x < e.x + e.w,
        e.y <= y < e.y + e.h,
    ensures
        exists|i: int|
            0 <= i < quads_of(e, p).len() && ({
                let q = #[trigger] quads_of(e, p)[i];
                q.x <= x < q.x + q.w && q.y <= y < q.y + q.h
            }),
{
    let tile = e.content->tile as int;
    let w = e.w as int;
    let h = e.h as int;
    let columns = crate::tooltip::tile_count(w, tile);
    let rows = crate::tooltip::tile_count(h, tile);
    let dx = x - e.x;
    let dy = y - e.y;
    let col = dx / tile;
    let row = dy / tile;
    vstd::arithmetic::div_mod::lemma_div_pos_is_pos(dx, tile);
    vstd::arithmetic::div_mod::lemma_div_pos_is_pos(dy, tile);
    vstd::arithmetic::div_mod::lemma_div_by_self(tile);
    vstd::arithmetic::div_mod::lemma_div_is_ordered(tile, w + tile - 1, tile);
    vstd::arithmetic::div_mod::lemma_div_is_ordered(tile, h + tile - 1, tile);
    crate::tooltip::law_tiles_cover_the_area(w, h, tile, dx, dy, 0, 0);
    crate::tooltip::law_tiles_cover_the_area(w, h, tile, dx, dy, row, col);
    let k = row * columns + col;
    assert(0 <= k < columns * rows) by (nonlinear_arith)
        requires
            0 <= row < rows,
            0 <= col < columns,
            k == row * columns + col,
    ;
    vstd::arithmetic::div_mod::lemma_fundamental_div_mod_converse(k, columns, row, col);
    crate::tooltip::lemma_tile_in_area(w, h, tile, k);
    let t = crate::tooltip::tile_at(w, h, tile, row, col);
    assert(element_tiles(e, e.content->tile)[k] == t);
    assert(quads_of(e, p)[k].x == e.x + t.x);
}

} // verus!
