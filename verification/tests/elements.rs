use pomme_renderer::atlas::SpriteAtlas;
use pomme_renderer::atlas::SpriteRegion;
use pomme_renderer::favicons::IconCell;
use pomme_renderer::font_atlas::GlyphPlace;
use pomme_renderer::mc_text::InlineObject;
use pomme_renderer::menu_elements::element_quads;
use pomme_renderer::menu_elements::glyph_copies;
use pomme_renderer::menu_elements::mode_quarters;
use pomme_renderer::menu_elements::object_fallback;
use pomme_renderer::menu_elements::shadow_color;
use pomme_renderer::menu_elements::Content;
use pomme_renderer::menu_elements::DrawnObjects;
use pomme_renderer::menu_elements::GlyphCopy;
use pomme_renderer::menu_elements::OverlayElement;
use pomme_renderer::menu_elements::OverlayQuad;
use pomme_renderer::menu_elements::Pictures;
use pomme_renderer::menu_elements::ShaderMode;
use pomme_renderer::menu_elements::ShadowColor;
use pomme_renderer::menu_elements::Texture;
use pomme_renderer::nine_slice::Frame;
use pomme_renderer::sprites::SpriteId;
use pomme_renderer::text_map::TextMap;
use pomme_renderer::tooltip::alignment;
use pomme_renderer::tooltip::display_line_left;
use pomme_renderer::tooltip::place_tooltip;
use pomme_renderer::tooltip::tile_area;
use pomme_renderer::tooltip::Alignment;
use pomme_renderer::tooltip::Tile;
use pomme_renderer::tooltip::TooltipPlace;

fn head() -> SpriteRegion {
    SpriteRegion { id: SpriteId::SteveHead, x: 1, y: 1, w: 8, h: 8, nine_slice_border: 3 }
}

fn pictures() -> Pictures {
    let mut dynamic = TextMap::new();
    dynamic.insert("server".to_string(), IconCell { x: 64, y: 0 });
    Pictures {
        sprites: SpriteAtlas {
            size: 64,
            pixels: Vec::new(),
            regions: vec![head()],
            dropped: Vec::new(),
        },
        dynamic,
    }
}

fn element(content: Content) -> OverlayElement {
    OverlayElement { x: 256, y: 512, w: 2048, h: 1024, content }
}

fn whole(mode: ShaderMode, texture: Texture) -> Vec<OverlayQuad> {
    vec![OverlayQuad { x: 256, y: 512, w: 2048, h: 1024, mode, texture }]
}

#[test]
fn plain_elements_are_one_quad() {
    let p = pictures();
    let glyph = GlyphPlace { x: 3, y: 4, w: 5, h: 6 };
    assert_eq!(
        element_quads(&element(Content::Solid), &p),
        whole(ShaderMode::Solid, Texture::Whole)
    );
    assert_eq!(
        element_quads(&element(Content::Icon { place: Some(glyph) }), &p),
        whole(ShaderMode::Icon, Texture::Glyph(glyph))
    );
    assert!(element_quads(&element(Content::Icon { place: None }), &p).is_empty());
    assert_eq!(
        element_quads(&element(Content::Item { known: true }), &p),
        whole(ShaderMode::Item, Texture::Whole)
    );
    assert!(element_quads(&element(Content::Item { known: false }), &p).is_empty());
    assert_eq!(
        element_quads(&element(Content::Frosted), &p),
        whole(ShaderMode::Frosted, Texture::Whole)
    );
    assert_eq!(
        element_quads(&element(Content::Vignette), &p),
        whole(ShaderMode::Vignette, Texture::Whole)
    );
    assert_eq!(
        element_quads(&element(Content::Pumpkin), &p),
        whole(ShaderMode::Pumpkin, Texture::Whole)
    );
    assert_eq!(
        element_quads(&element(Content::Underwater), &p),
        whole(ShaderMode::Underwater, Texture::Whole)
    );
    assert_eq!(
        element_quads(&element(Content::Sleep), &p),
        whole(ShaderMode::Fill, Texture::Whole)
    );
}

#[test]
fn missing_sprites_are_not_drawn() {
    let p = pictures();
    assert_eq!(
        element_quads(&element(Content::Sprite { sprite: SpriteId::SteveHead }), &p),
        whole(ShaderMode::Sprite, Texture::Sprite(head()))
    );
    assert!(element_quads(&element(Content::Sprite { sprite: SpriteId::UnknownServer }), &p)
        .is_empty());
    assert!(element_quads(
        &element(Content::Tiled { sprite: SpriteId::UnknownServer, tile: 256 }),
        &p
    )
    .is_empty());
}

#[test]
fn a_picture_falls_back_to_its_sprite() {
    let p = pictures();
    let dynamic = |key: &str, fallback: SpriteId| {
        element(Content::Dynamic { key: key.to_string(), fallback })
    };
    assert_eq!(
        element_quads(&dynamic("server", SpriteId::SteveHead), &p),
        whole(ShaderMode::Dynamic, Texture::Cell(IconCell { x: 64, y: 0 }))
    );
    assert_eq!(
        element_quads(&dynamic("other", SpriteId::SteveHead), &p),
        whole(ShaderMode::Sprite, Texture::Sprite(head()))
    );
    assert!(element_quads(&dynamic("other", SpriteId::UnknownServer), &p).is_empty());
}

#[test]
fn tiles_stop_at_the_edge() {
    let p = pictures();
    let quads = element_quads(
        &OverlayElement {
            x: 10,
            y: 20,
            w: 300,
            h: 256,
            content: Content::Tiled { sprite: SpriteId::SteveHead, tile: 256 },
        },
        &p,
    );
    let part = |w: i64| Texture::Part { region: head(), w, h: 256, tile: 256 };
    assert_eq!(
        quads,
        vec![
            OverlayQuad { x: 10, y: 20, w: 256, h: 256, mode: ShaderMode::Sprite, texture: part(256) },
            OverlayQuad { x: 266, y: 20, w: 44, h: 256, mode: ShaderMode::Sprite, texture: part(44) },
        ]
    );
}

#[test]
fn borders_are_kept_in_a_sliced_sprite() {
    let p = pictures();
    let quads = element_quads(
        &element(Content::NineSlice {
            sprite: SpriteId::SteveHead,
            frame: Frame { x0: 0, y0: 0, x1: 20, y1: 20, border: 4 },
        }),
        &p,
    );
    assert_eq!(quads.len(), 9);
    assert_eq!(
        quads[4],
        OverlayQuad {
            x: 4 * 256,
            y: 4 * 256,
            w: 12 * 256,
            h: 12 * 256,
            mode: ShaderMode::Sprite,
            texture: Texture::Slice { u0: 4, v0: 4, u1: 6, v1: 6 },
        }
    );
}

#[test]
fn shader_modes_have_their_numbers() {
    assert_eq!(mode_quarters(ShaderMode::Solid), 0);
    assert_eq!(mode_quarters(ShaderMode::Glyph), 16);
    assert_eq!(mode_quarters(ShaderMode::ColoredGlyph), 17);
    assert_eq!(mode_quarters(ShaderMode::Fill), 40);
}

#[test]
fn shadows_lie_below_their_glyphs() {
    let copy = |shadow: bool, bold: bool| GlyphCopy { shadow, bold };
    assert!(glyph_copies(0, 8, true, true).is_empty());
    assert_eq!(glyph_copies(5, 8, false, false), vec![copy(false, false)]);
    assert_eq!(
        glyph_copies(5, 8, true, true),
        vec![copy(true, false), copy(true, true), copy(false, false), copy(false, true)]
    );
    assert_eq!(shadow_color(true, false), ShadowColor::Explicit);
    assert_eq!(shadow_color(false, true), ShadowColor::Quarter);
    assert_eq!(shadow_color(false, false), ShadowColor::Nothing);
}

#[test]
fn objects_in_text_are_collected_once() {
    assert_eq!(object_fallback(InlineObject::Player), SpriteId::SteveHead);
    assert_eq!(
        object_fallback(InlineObject::AtlasSprite { known_atlas: true }),
        SpriteId::UnknownServer
    );
    let mut drawn = DrawnObjects::new();
    drawn.note_drawn("a".to_string(), InlineObject::Player);
    drawn.note_drawn("a".to_string(), InlineObject::AtlasSprite { known_atlas: true });
    assert_eq!(
        drawn.drain_drawn_inline_objects(),
        vec![("a".to_string(), InlineObject::Player)]
    );
    assert!(drawn.drain_drawn_inline_objects().is_empty());
    let mut p = pictures();
    p.set_inline_object_frame("object", "server");
    p.set_inline_object_frame("server", "nowhere");
    assert_eq!(p.dynamic.get("object"), Some(&IconCell { x: 64, y: 0 }));
    assert_eq!(p.dynamic.get("server"), Some(&IconCell { x: 64, y: 0 }));
}

#[test]
fn tooltips_turn_back_at_the_edges() {
    let mut p = TooltipPlace {
        x: 100 * 256,
        y: 100 * 256,
        screen_w: 400 * 256,
        screen_h: 300 * 256,
        scale: 8 * 256,
        px: 256,
    };
    let t = place_tooltip(p, &vec![50 * 256, 20 * 256], &vec![false, true]);
    assert_eq!((t.text_x, t.text_y), (112 * 256, 88 * 256));
    assert_eq!((t.content_w, t.content_h), (51 * 256, 18 * 256));
    assert_eq!((t.box_x, t.box_y), (97 * 256, 73 * 256));
    assert_eq!((t.box_w, t.box_h), (81 * 256, 48 * 256));
    assert_eq!((t.background_border, t.frame_border), (9 * 256, 10 * 256));
    assert_eq!(t.lines, vec![(112 * 256, 88 * 256), (142 * 256, 98 * 256)]);
    p.x = 380 * 256;
    p.y = 310 * 256;
    let t = place_tooltip(p, &vec![50 * 256], &vec![false]);
    assert_eq!(t.text_x, (380 - 24 - 51) * 256);
    assert_eq!(t.text_y, (300 - 8 - 3) * 256);
    p.x = 40 * 256;
    let t = place_tooltip(p, &vec![380 * 256], &vec![false]);
    assert_eq!(t.text_x, 4 * 256);
}

#[test]
fn display_lines_follow_their_alignment() {
    assert_eq!(alignment(0), Alignment::Left);
    assert_eq!(alignment(1), Alignment::Center);
    assert_eq!(alignment(2), Alignment::Right);
    assert_eq!(alignment(7), Alignment::Left);
    assert_eq!(display_line_left(Alignment::Left, 100, 40, 10), 160);
    assert_eq!(display_line_left(Alignment::Center, 100, 40, 10), 190);
    assert_eq!(display_line_left(Alignment::Right, 100, 40, 10), 220);
}

#[test]
fn an_area_is_tiled_row_by_row() {
    assert_eq!(
        tile_area(5, 3, 2),
        vec![
            Tile { x: 0, y: 0, w: 2, h: 2 },
            Tile { x: 2, y: 0, w: 2, h: 2 },
            Tile { x: 4, y: 0, w: 1, h: 2 },
            Tile { x: 0, y: 2, w: 2, h: 1 },
            Tile { x: 2, y: 2, w: 2, h: 1 },
            Tile { x: 4, y: 2, w: 1, h: 1 },
        ]
    );
    assert!(tile_area(0, 3, 2).is_empty());
    assert!(tile_area(-4, 3, 2).is_empty());
}

#[test]
fn long_tooltips_keep_every_line() {
    let p = TooltipPlace {
        x: 0,
        y: 100 * 256,
        screen_w: 400 * 256,
        screen_h: 300 * 256,
        scale: 8 * 256,
        px: 256,
    };
    let t = place_tooltip(p, &vec![256; 5000], &vec![false; 5000]);
    assert_eq!(t.lines.len(), 5000);
    assert_eq!(t.content_h, (5000 * 10 - 2) * 256);
    assert_eq!(t.text_y, (300 - (5000 * 10 - 2) - 3) * 256);
    assert_eq!(t.lines[4999].1, t.text_y + 4999 * 10 * 256);
}
