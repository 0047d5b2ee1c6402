use pomme_renderer::atlas::SpriteAtlas;
use pomme_renderer::mc_text::char_advance;
use pomme_renderer::mc_text::split_text_display_lines;
use pomme_renderer::mc_text::DisplayLine;
use pomme_renderer::mc_text::DisplaySpan;
use pomme_renderer::mc_text::GlyphWidth;
use pomme_renderer::menu_elements::Content;
use pomme_renderer::menu_elements::DrawnObjects;
use pomme_renderer::menu_elements::GlyphCopy;
use pomme_renderer::menu_elements::OverlayElement;
use pomme_renderer::menu_elements::Pictures;
use pomme_renderer::menu_elements::Texture;
use pomme_renderer::overlay_draw::draw_elements;
use pomme_renderer::overlay_draw::carries_size;
use pomme_renderer::menu_elements::object_mode;
use pomme_renderer::favicons::IconCell;
use pomme_renderer::overlay_draw::Element;
use pomme_renderer::overlay_draw::Piece;
use pomme_renderer::overlay_draw::TooltipBox;
use pomme_renderer::text_draw::push_mc_text;
use pomme_renderer::text_draw::Choice;
use pomme_renderer::text_draw::Glyph;
use pomme_renderer::text_draw::SpanStyle;
use pomme_renderer::text_draw::TextObject;
use pomme_renderer::text_draw::TextQuad;
use pomme_renderer::text_draw::TextRun;
use pomme_renderer::text_draw::TextUnit;
use pomme_renderer::text_map::TextMap;
use pomme_renderer::glyph_quads::glyph_mode;
use pomme_renderer::glyph_quads::push_mc_glyph_quads;
use pomme_renderer::glyph_quads::push_sign_glyph;
use pomme_renderer::glyph_quads::GlyphShape;
use pomme_renderer::menu_elements::ShaderMode;
use pomme_renderer::mc_text::push_mc_effect;
use pomme_renderer::mc_text::Fill;
use pomme_renderer::mc_text::McEffect;
use pomme_renderer::mc_text::add_mc_effect;
use pomme_renderer::mc_text::glyph_kind;
use pomme_renderer::mc_text::inline_object_advance;
use pomme_renderer::mc_text::layout_text;
use pomme_renderer::mc_text::object_has_glyph;
use pomme_renderer::mc_text::same_number;
use pomme_renderer::mc_text::text_width;
use pomme_renderer::mc_text::wrap_words;
use pomme_renderer::mc_text::Bar;
use pomme_renderer::mc_text::Color;
use pomme_renderer::mc_text::FontScale;
use pomme_renderer::mc_text::GlyphKind;
use pomme_renderer::mc_text::InlineObject;
use pomme_renderer::mc_text::TextChar;
use pomme_renderer::mc_text::PIXEL;
use pomme_renderer::menu_draw::clip;
use pomme_renderer::menu_draw::emission_order;
use pomme_renderer::menu_draw::grown_vertex_capacity;
use pomme_renderer::menu_draw::plan_overlay;
use pomme_renderer::menu_draw::next_vertex;
use pomme_renderer::menu_draw::submit;
use pomme_renderer::menu_draw::ElementClass;
use pomme_renderer::menu_draw::MenuItem;
use pomme_renderer::menu_draw::OverlayBuffers;
use pomme_renderer::menu_draw::OverlayCommand;
use pomme_renderer::menu_draw::OverlayPipeline;
use pomme_renderer::menu_draw::Rect;
use pomme_renderer::menu_resources::binding_of;
use pomme_renderer::menu_resources::bytes_per_pixel;
use pomme_renderer::menu_resources::font_images;
use pomme_renderer::menu_resources::initial_image;
use pomme_renderer::menu_resources::menu_pool;
use pomme_renderer::menu_resources::GlyphLayers;
use pomme_renderer::menu_resources::MenuTexture;
use pomme_renderer::nine_slice::nine_slice;
use pomme_renderer::nine_slice::Frame;
use pomme_renderer::atlas::SpriteRegion;
use pomme_renderer::gpu::camera_and_texture_pool;
use pomme_renderer::gpu::Format;
use pomme_renderer::pipeline_state::blend_factors;
use pomme_renderer::pipeline_state::depth_flags;
use pomme_renderer::pipeline_state::entity_pipeline;
use pomme_renderer::pipeline_state::item_pipeline;
use pomme_renderer::pipeline_state::menu_pipeline;
use pomme_renderer::pipeline_state::pipeline_state;
use pomme_renderer::pipeline_state::vertex_attributes;
use pomme_renderer::pipeline_state::vertex_stride;
use pomme_renderer::pipeline_state::Blend;
use pomme_renderer::pipeline_state::BlendFactor;
use pomme_renderer::pipeline_state::BlendMode;
use pomme_renderer::pipeline_state::CullMode;
use pomme_renderer::pipeline_state::DepthMode;
use pomme_renderer::pipeline_state::FrontFace;
use pomme_renderer::pipeline_state::ModelInput;
use pomme_renderer::pipeline_state::PipelineKind;
use pomme_renderer::pipeline_state::VertexKind;
use pomme_renderer::random::ObfuscationRng;
use pomme_renderer::sprites::SpriteId;
use pomme_renderer::sprites::TooltipLine;

#[test]
fn vertex_capacity_grows_geometrically_to_cover_required_range() {
    assert_eq!(grown_vertex_capacity(16384, 16384), 16384);
    assert_eq!(grown_vertex_capacity(16384, 16385), 32768);
    assert_eq!(grown_vertex_capacity(16384, 50000), 65536);
}

#[test]
fn obfuscation_rng_matches_java_random_bounded_sequence() {
    let mut rng = ObfuscationRng::new(0);
    let got: Vec<usize> = (0..10).map(|_| rng.next_int(1000)).collect();
    assert_eq!(got, [360, 948, 29, 447, 515, 53, 491, 761, 719, 854]);

    let mut rng = ObfuscationRng::new(0);
    let got: Vec<usize> = (0..10).map(|_| rng.next_int(16)).collect();
    assert_eq!(got, [11, 13, 3, 9, 10, 4, 8, 1, 9, 12]);
}

fn color(value: f32) -> Color {
    let bits = value.to_bits();
    Color { r: bits, g: bits, b: bits, a: bits }
}

fn bar(x0: i64, y0: i64, x1: i64, y1: i64) -> Bar {
    Bar { x0: x0 * PIXEL, y0: y0 * PIXEL, x1: x1 * PIXEL, y1: y1 * PIXEL }
}

#[test]
fn abutting_effects_merge_into_one_quad() {
    let mut effects = Vec::new();
    add_mc_effect(&mut effects, bar(0, 8, 6, 9), color(1.0), None);
    add_mc_effect(&mut effects, bar(6, 8, 12, 9), color(1.0), None);
    add_mc_effect(&mut effects, bar(12, 8, 18, 9), color(0.5), None);
    assert_eq!(effects.len(), 2);
    assert_eq!(effects[0].rect, bar(0, 8, 12, 9));
}

#[test]
fn effects_merge_by_the_value_of_their_color() {
    let merged = |a: f32, b: f32| {
        let mut effects = Vec::new();
        add_mc_effect(&mut effects, bar(0, 8, 6, 9), color(1.0), Some(color(a)));
        add_mc_effect(&mut effects, bar(6, 8, 12, 9), color(1.0), Some(color(b)));
        let mut plain = Vec::new();
        add_mc_effect(&mut plain, bar(0, 8, 6, 9), color(a), None);
        add_mc_effect(&mut plain, bar(6, 8, 12, 9), color(b), None);
        assert_eq!(effects.len(), plain.len());
        plain.len() == 1
    };
    for (a, b) in [(0.0, -0.0), (-0.0, 0.0), (0.5, 0.5), (0.5, -0.5), (f32::NAN, f32::NAN)] {
        assert_eq!(merged(a, b), a == b);
        assert_eq!(same_number(a.to_bits(), b.to_bits()), a == b);
    }
    assert!(same_number(f32::INFINITY.to_bits(), f32::INFINITY.to_bits()));
}

#[test]
fn advances_may_be_negative() {
    let halves = FontScale { num: 1, den: 2 };
    assert_eq!(text_width(&vec![9, -4], halves), 3);
    assert_eq!(text_width(&vec![-3], halves), -1);
    assert_eq!(wrap_words(&vec![9, -9, 9], 0, FontScale { num: 1, den: 1 }, 9).len(), 1);
}

#[test]
fn glyphs_are_chosen_by_character() {
    let known = InlineObject::AtlasSprite { known_atlas: true };
    let unknown = InlineObject::AtlasSprite { known_atlas: false };
    assert_eq!(glyph_kind('\n', None, true), GlyphKind::Newline);
    assert_eq!(glyph_kind('\u{fffc}', Some(known), true), GlyphKind::Object);
    assert_eq!(glyph_kind('\u{fffc}', Some(unknown), false), GlyphKind::Missing);
    assert_eq!(glyph_kind('a', None, true), GlyphKind::Random);
    assert_eq!(glyph_kind(' ', None, true), GlyphKind::Plain);
    assert!(object_has_glyph(InlineObject::Player));
    assert!(!object_has_glyph(unknown));
    assert_eq!(inline_object_advance(true), 9 * PIXEL);
}

#[test]
fn text_is_laid_out_on_two_lines() {
    let ch = |kind, underline| TextChar {
        span: 0,
        kind,
        advance: 6 * PIXEL,
        strikethrough: false,
        underline,
        color: color(1.0),
        shadow_color: None,
    };
    let chars = vec![
        ch(GlyphKind::Plain, true),
        ch(GlyphKind::Plain, true),
        ch(GlyphKind::Newline, false),
        ch(GlyphKind::Plain, false),
        ch(GlyphKind::Newline, false),
        ch(GlyphKind::Plain, false),
    ];
    let layout = layout_text(&chars, 9 * PIXEL);
    let places: Vec<_> = layout.glyphs.iter().map(|g| (g.index, g.x, g.y)).collect();
    assert_eq!(places, vec![(0, 0, 0), (1, 6 * PIXEL, 0), (3, 0, 9 * PIXEL)]);
    assert_eq!(layout.underlines.len(), 1);
    assert_eq!(layout.underlines[0].rect.x0, -PIXEL);
    assert_eq!(layout.underlines[0].rect.x1, 12 * PIXEL);
}

#[test]
fn words_wrap_greedily() {
    let lines = wrap_words(&vec![30, 30, 50, 10], 4, FontScale { num: 1, den: 1 }, 64);
    let ends: Vec<_> = lines.iter().map(|l| (l.start, l.end)).collect();
    assert_eq!(ends, vec![(0, 2), (2, 4)]);
    // Each part is rounded up by itself: 5 + 1 + 5 against 10.
    let halves = FontScale { num: 1, den: 2 };
    assert_eq!(wrap_words(&vec![9, 9], 1, halves, 10).len(), 2);
    assert_eq!(wrap_words(&vec![9, 9], 1, halves, 11).len(), 1);
    assert_eq!(text_width(&vec![9, 1, 9], halves), 10);
}

fn rect(x: i64, y: i64, w: i64, h: i64) -> Rect {
    Rect { x, y, w, h }
}

#[test]
fn scissors_nest() {
    assert_eq!(clip(Some(rect(0, 0, 10, 10)), rect(5, 5, 10, 10)), rect(5, 5, 5, 5));
    assert_eq!(clip(None, rect(5, 5, 10, 10)), rect(5, 5, 10, 10));
}

#[test]
fn tooltips_are_drawn_last() {
    let classes = vec![ElementClass::Tooltip, ElementClass::Plain, ElementClass::OccludedDisplay];
    assert_eq!(emission_order(&classes, None), vec![1, 2, 0]);
    assert_eq!(emission_order(&classes, Some(true)), vec![2]);
    assert_eq!(emission_order(&classes, Some(false)), vec![1, 0]);
}

#[test]
fn batches_break_where_state_changes() {
    let item = |class, vertices| MenuItem { class, vertices };
    let items = vec![
        item(ElementClass::Plain, 6),
        item(ElementClass::Plain, 6),
        item(ElementClass::Invert, 6),
        item(ElementClass::ScissorPush(rect(0, 0, 4, 4)), 0),
        item(ElementClass::Plain, 12),
        item(ElementClass::ScissorPop, 0),
    ];
    let plan = plan_overlay(&items, None);
    assert_eq!(plan.vertices, 30);
    let spans: Vec<_> = plan.ops.iter().map(|o| (o.start, o.count, o.invert)).collect();
    assert_eq!(spans, vec![(0, 12, false), (12, 6, true), (18, 12, false)]);
    assert_eq!(plan.ops[2].scissor, Some(rect(0, 0, 4, 4)));
    let commands = submit(&plan, 100);
    assert!(commands.contains(&OverlayCommand::Pipeline(OverlayPipeline::Invert)));
    assert!(commands.contains(&OverlayCommand::Draw { first: 118, count: 12 }));
    assert_eq!(commands.last(), Some(&OverlayCommand::Scissor(None)));
    assert_eq!(next_vertex(&plan, 100), Some(130));
    assert_eq!(next_vertex(&plan, u32::MAX - 30), Some(u32::MAX));
    assert_eq!(next_vertex(&plan, u32::MAX - 29), None);
    let nothing = plan_overlay(&vec![], None);
    assert!(submit(&nothing, 0).is_empty());
    assert_eq!(next_vertex(&nothing, 100), Some(100));
}

#[test]
fn replaced_buffers_wait_for_their_frame() {
    let mut buffers = OverlayBuffers {
        buffers: vec![1, 2],
        capacities: vec![16384, 16384],
        retired: vec![],
    };
    assert_eq!(buffers.needed_capacity(0, 16384), None);
    assert_eq!(buffers.needed_capacity(0, 20000), Some(32768));
    buffers.replace(0, 3, 32768);
    assert!(buffers.begin_frame(1).is_empty());
    let freed = buffers.begin_frame(0);
    assert_eq!(freed.len(), 1);
    assert_eq!(freed[0].buffer, 1);
    assert!(buffers.begin_frame(0).is_empty());
}

#[test]
fn tooltips_align_left_by_default() {
    assert!(!TooltipLine::new(vec![]).right_align);
    assert!(TooltipLine::right_aligned(vec![]).right_align);
}

#[test]
fn nine_slices_keep_their_corners() {
    let region = SpriteRegion {
        id: SpriteId::Hotbar,
        x: 100,
        y: 200,
        w: 20,
        h: 20,
        nine_slice_border: 3,
    };
    let quads = nine_slice(Frame { x0: 0, y0: 0, x1: 100, y1: 10, border: 6 }, region);
    let shown: Vec<_> = quads.iter().map(|q| (q.x, q.y, q.w, q.h)).collect();
    // Ten rows leave no middle between two borders of five.
    assert_eq!(
        shown,
        vec![
            (0, 0, 6, 5),
            (6, 0, 88, 5),
            (94, 0, 6, 5),
            (0, 5, 6, 5),
            (6, 5, 88, 5),
            (94, 5, 6, 5)
        ]
    );
    assert_eq!((quads[1].u0, quads[1].u1, quads[1].v0, quads[1].v1), (103, 117, 200, 203));
    assert_eq!((quads[5].u0, quads[5].u1, quads[5].v0, quads[5].v1), (117, 120, 217, 220));
    let plain = SpriteRegion { nine_slice_border: 0, ..region };
    let whole = nine_slice(Frame { x0: 0, y0: 0, x1: 9, y1: 9, border: -2 }, plain);
    assert_eq!(whole.len(), 1);
    assert_eq!((whole[0].u0, whole[0].u1), (103, 117));
    assert!(nine_slice(Frame { x0: 4, y0: 0, x1: 4, y1: 9, border: 1 }, plain).is_empty());
}

#[test]
fn textures_are_bound_in_shader_order() {
    assert_eq!(binding_of(MenuTexture::Items), 2);
    assert_eq!(binding_of(MenuTexture::McFont), 3);
    assert_eq!(binding_of(MenuTexture::Blur), 4);
    assert_eq!(binding_of(MenuTexture::McFontColor), 8);
    assert_eq!(initial_image(4), MenuTexture::Font);
    assert_eq!(initial_image(5), MenuTexture::Favicons);
    assert_eq!(menu_pool().samplers, 9);
    let pool = camera_and_texture_pool(9);
    assert_eq!((pool.uniforms, pool.samplers, pool.max_sets), (2, 9, 11));
}

#[test]
fn fonts_without_glyphs_are_placeholders() {
    let (gray, color) = font_images(None);
    assert_eq!((gray.width, gray.layers, gray.format), (1, 1, Format::R8Unorm));
    assert_eq!((color.width, color.layers, color.format), (1, 1, Format::R8G8B8A8Srgb));
    let (gray, color) = font_images(Some(GlyphLayers { gray: 3, color: 0 }));
    assert_eq!((gray.width, gray.layers), (2048, 3));
    assert_eq!(color.width, 1);
    let (_, color) = font_images(Some(GlyphLayers { gray: 3, color: 2 }));
    assert_eq!((color.height, color.layers), (2048, 2));
    assert_eq!(bytes_per_pixel(Format::R8Unorm), 1);
    assert_eq!(bytes_per_pixel(Format::R8G8B8A8Srgb), 4);
}

#[test]
fn entity_modes_differ_in_depth_and_blend() {
    let (eyes, instance) = entity_pipeline(BlendMode::Translucent, ModelInput::Instanced);
    assert_eq!(eyes.depth, DepthMode::Inclusive);
    assert_eq!(eyes.blend, Blend::Over);
    assert_eq!(instance.len(), 7);
    assert_eq!((instance[6].location, instance[6].offset, instance[6].binding), (9, 96, 1));
    let (culled, _) = entity_pipeline(BlendMode::OpaqueCulled, ModelInput::Instanced);
    assert_eq!(culled.cull, CullMode::Back);
    let (block, none) = entity_pipeline(BlendMode::Opaque, ModelInput::PushConstant);
    assert_eq!(block.vertex_shader, "block_entity.vert");
    assert!(none.is_empty());
    let (swirl, _) = entity_pipeline(BlendMode::Additive, ModelInput::Instanced);
    assert_eq!(blend_factors(swirl.blend).dst_color, BlendFactor::One);
    assert_eq!(depth_flags(swirl.depth), (true, true, true));
}

#[test]
fn named_pipelines_follow_their_switches() {
    assert_eq!(
        item_pipeline(FrontFace::Clockwise, false, true, false, true),
        pipeline_state(PipelineKind::GuiItemTranslucent)
    );
    assert_eq!(
        item_pipeline(FrontFace::CounterClockwise, true, false, true, false),
        pipeline_state(PipelineKind::ItemCutout)
    );
    assert_eq!(menu_pipeline(true, false), pipeline_state(PipelineKind::MenuInvert));
    assert_eq!(menu_pipeline(false, true), pipeline_state(PipelineKind::MenuDepth));
    let border = pipeline_state(PipelineKind::WorldBorder);
    assert_eq!(border.vertex_shader, "weather.vert");
    assert_eq!(blend_factors(border.blend).dst_alpha, BlendFactor::Zero);
    assert!(pipeline_state(PipelineKind::MapQuad).depth_bias);
    assert_eq!(depth_flags(pipeline_state(PipelineKind::Weather).depth), (true, false, false));
    assert_eq!(depth_flags(pipeline_state(PipelineKind::SkyOverlay).depth), (false, false, false));
}

#[test]
fn vertices_are_packed() {
    assert_eq!(vertex_stride(VertexKind::Menu), Some(52));
    assert_eq!(vertex_stride(VertexKind::Mesh), None);
    let menu = vertex_attributes(VertexKind::Menu);
    let offsets: Vec<u32> = menu.iter().map(|a| a.offset).collect();
    assert_eq!(offsets, vec![0, 8, 16, 32, 36, 44, 48]);
    let sign = vertex_attributes(VertexKind::Sign);
    assert_eq!(sign.len(), 4);
    assert_eq!(sign[3].format, Format::R32Sfloat);
    assert!(vertex_attributes(VertexKind::Mesh).is_empty());
}

#[test]
fn effects_fill_their_shadow_first() {
    let mut effect = McEffect {
        rect: bar(0, 8, 12, 9),
        color: color(1.0),
        shadow_color: Some(color(0.25)),
    };
    assert_eq!(
        push_mc_effect(&effect, PIXEL),
        vec![
            Fill { rect: bar(1, 9, 13, 10), color: color(0.25) },
            Fill { rect: bar(0, 8, 12, 9), color: color(1.0) },
        ]
    );
    effect.shadow_color = None;
    assert_eq!(push_mc_effect(&effect, PIXEL).len(), 1);
    effect.rect.x1 = effect.rect.x0;
    assert!(push_mc_effect(&effect, PIXEL).is_empty());
}

fn glyph() -> GlyphShape {
    GlyphShape {
        layer: 0,
        colored: false,
        x: 0,
        y: 0,
        w: 5,
        h: 8,
        left: 0,
        top: 0,
        draw_w: 5 * PIXEL,
        draw_h: 8 * PIXEL,
        bold_offset: PIXEL,
        shadow_offset: PIXEL,
    }
}

#[test]
fn italic_shear_matches_baked_sheet_glyph() {
    let scale = FontScale { num: 1, den: 1 };
    let one = 1024;
    let verts = push_mc_glyph_quads(&glyph(), 0, 0, scale, (false, true), false);
    assert_eq!(verts.len(), 6);
    assert_eq!((verts[0].x, verts[0].y), (one, 0));
    assert_eq!((verts[2].x, verts[2].y), (-one, 8 * one));
}

#[test]
fn glyphs_snap_to_pixels_and_repeat_in_bold() {
    let scale = FontScale { num: 3, den: 2 };
    let one = 2048;
    let verts = push_mc_glyph_quads(&glyph(), one / 2, -one / 2, scale, (true, false), true);
    assert_eq!(verts.len(), 24);
    assert!(verts[0].shadow && verts[6].shadow && !verts[12].shadow && !verts[18].shadow);
    assert_eq!((verts[12].x, verts[12].y), (one, -one));
    assert_eq!((verts[16].x, verts[16].y), (one + 8 * one, -one + 12 * one));
    assert_eq!((verts[16].u, verts[16].v), (5, 8));
    assert_eq!(verts[18].x - verts[12].x, 3 * one / 2);
    assert_eq!((verts[0].x - verts[12].x, verts[0].y - verts[12].y), (3 * one / 2, 3 * one / 2));
    let blank = GlyphShape { w: 0, ..glyph() };
    assert!(push_mc_glyph_quads(&blank, 0, 0, scale, (true, true), true).is_empty());
    assert_eq!(glyph_mode(true), ShaderMode::ColoredGlyph);
    assert_eq!(glyph_mode(false), ShaderMode::Glyph);
}

#[test]
fn glyph_quad_uses_atlas_layer_and_world_matrix() {
    let glyph = GlyphShape {
        layer: 2,
        colored: false,
        x: 8,
        y: 16,
        w: 4,
        h: 7,
        draw_w: 4 * PIXEL,
        draw_h: 7 * PIXEL,
        left: PIXEL,
        top: 2 * PIXEL,
        bold_offset: PIXEL,
        shadow_offset: PIXEL,
    };
    let vertices = push_sign_glyph(&glyph, 20 * PIXEL, 40 * PIXEL, 0);
    let matrix = glam::Mat4::from_translation(glam::Vec3::new(2.0, 3.0, 4.0));
    let position = |i: usize| {
        matrix
            .transform_point3(glam::Vec3::new(
                vertices[i].x as f32 / (2 * PIXEL) as f32,
                vertices[i].y as f32 / (2 * PIXEL) as f32,
                0.0,
            ))
            .to_array()
    };
    assert_eq!(vertices.len(), 6);
    assert_eq!(position(0), [13.0, 25.0, 4.0]);
    assert_eq!((vertices[0].u, vertices[0].v, glyph.layer), (8, 16, 2));
    assert_eq!(position(2), [17.0, 32.0, 4.0]);
    assert!(push_sign_glyph(&glyph, 0, 0, 65531).is_empty());
    assert_eq!(push_sign_glyph(&glyph, 0, 0, 65530).len(), 6);
    assert!(push_sign_glyph(&GlyphShape { h: 0, ..glyph }, 0, 0, 0).is_empty());
}

fn style() -> SpanStyle {
    SpanStyle {
        color: color(1.0),
        shadow_color: None,
        bold: false,
        italic: false,
        underline: false,
        strikethrough: false,
        obfuscated: false,
        object: None,
    }
}

fn unit(span: usize, ch: char, choice: Choice) -> TextUnit {
    TextUnit { span, ch, choice }
}

fn letter(advance: i64) -> Glyph {
    Glyph { shape: glyph(), advance: advance * PIXEL }
}

fn no_pictures() -> Pictures {
    Pictures {
        sprites: SpriteAtlas {
            size: 64,
            pixels: Vec::new(),
            regions: vec![SpriteRegion {
                id: SpriteId::SteveHead,
                x: 1,
                y: 1,
                w: 8,
                h: 8,
                nine_slice_border: 0,
            }],
            dropped: Vec::new(),
        },
        dynamic: TextMap::new(),
    }
}

#[test]
fn text_draws_glyphs_objects_and_bars_in_order() {
    let run = TextRun {
        spans: vec![
            SpanStyle { underline: true, shadow_color: Some(color(0.25)), ..style() },
            SpanStyle {
                object: Some(TextObject { key: "head".to_string(), object: InlineObject::Player }),
                ..style()
            },
        ],
        units: vec![
            unit(0, 'a', Choice::One(letter(6))),
            unit(1, '\u{fffc}', Choice::Nothing),
            unit(1, 'b', Choice::One(letter(4))),
        ],
        line_step: 10 * PIXEL,
    };
    let mut rng = ObfuscationRng::new(7);
    let before = rng.seed;
    let mut drawn = DrawnObjects::new();
    let quads = push_mc_text(&run, &no_pictures(), &mut rng, &mut drawn);
    let copy = |shadow: bool| GlyphCopy { shadow, bold: false };
    assert_eq!(quads.len(), 6);
    assert_eq!(quads[0], TextQuad::Glyph { index: 0, shape: glyph(), x: 0, y: 0, copy: copy(true) });
    assert_eq!(quads[1], TextQuad::Glyph { index: 0, shape: glyph(), x: 0, y: 0, copy: copy(false) });
    assert!(matches!(
        quads[2],
        TextQuad::Object { index: 1, x: 1536, y: 0, shadow: false, texture: Texture::Sprite(_) }
    ));
    assert_eq!(
        quads[3],
        TextQuad::Glyph { index: 2, shape: glyph(), x: 14 * PIXEL, y: 0, copy: copy(false) }
    );
    assert_eq!(
        quads[4],
        TextQuad::Fill(Fill { rect: bar(0, 9, 7, 10), color: color(0.25) })
    );
    assert_eq!(
        quads[5],
        TextQuad::Fill(Fill { rect: bar(-1, 8, 6, 9), color: color(1.0) })
    );
    assert_eq!(rng.seed, before);
    assert_eq!(
        drawn.drain_drawn_inline_objects(),
        vec![("head".to_string(), InlineObject::Player)]
    );
}

#[test]
fn obfuscated_text_draws_until_the_second_newline() {
    let wide = |h: u32| Glyph { shape: GlyphShape { h, ..glyph() }, advance: 5 * PIXEL };
    let any = || Choice::Any(vec![wide(1), wide(2), wide(3)]);
    let run = TextRun {
        spans: vec![SpanStyle { obfuscated: true, ..style() }],
        units: vec![
            unit(0, 'a', any()),
            unit(0, ' ', Choice::One(letter(4))),
            unit(0, '\n', Choice::Nothing),
            unit(0, 'b', any()),
            unit(0, '\n', Choice::Nothing),
            unit(0, 'c', any()),
        ],
        line_step: 10 * PIXEL,
    };
    let mut rng = ObfuscationRng::new(0);
    let quads = push_mc_text(&run, &no_pictures(), &mut rng, &mut DrawnObjects::new());
    let mut expected = ObfuscationRng::new(0);
    let picked = [expected.next_int(3), expected.next_int(3)];
    assert_eq!(rng.seed, expected.seed);
    assert_eq!(quads.len(), 3);
    assert!(matches!(quads[2], TextQuad::Glyph { index: 3, x: 0, y: 2560, .. }));
    for (quad, k) in [(quads[0], picked[0]), (quads[2], picked[1])] {
        assert!(matches!(quad, TextQuad::Glyph { shape, .. } if shape.h as usize == k + 1));
    }
}

#[test]
fn elements_become_quads_and_batches() {
    let shape = |w: i64| OverlayElement { x: 0, y: 0, w, h: 256, content: Content::Solid };
    let line = || TextRun {
        spans: vec![style()],
        units: vec![unit(0, 'a', Choice::One(letter(6)))],
        line_step: 10 * PIXEL,
    };
    let frame = Frame { x0: 0, y0: 0, x1: 20, y1: 20, border: 3 };
    let elements = vec![
        Element::Tooltip(Some(TooltipBox {
            background: frame,
            edge: frame,
            lines: vec![line(), line()],
        })),
        Element::Shape(shape(256)),
        Element::ScissorPush(Rect { x: 0, y: 0, w: 10, h: 10 }),
        Element::Invert(OverlayElement {
            x: 0,
            y: 0,
            w: 256,
            h: 256,
            content: Content::Sprite { sprite: SpriteId::SteveHead },
        }),
        Element::Text(line()),
        Element::ScissorPop,
        Element::Display { background: true, lines: vec![line()], see_through: false },
        Element::BlurBackdrop,
    ];
    let mut rng = ObfuscationRng::new(1);
    let mut drawn = DrawnObjects::new();
    let all = draw_elements(&elements, None, &no_pictures(), &mut rng, &mut drawn);
    let order: Vec<usize> = all.quads.iter().map(|q| q.element).collect();
    assert_eq!(order, vec![1, 3, 4, 6, 6, 0, 0]);
    assert_eq!(all.quads[3].piece, Piece::Backdrop);
    assert!(matches!(all.quads[6].piece, Piece::Text { line: 1, .. }));
    let plan = all.plan.unwrap();
    assert_eq!(plan.vertices, 42);
    let ranges: Vec<_> = plan.ops.iter().map(|op| (op.start, op.count, op.invert)).collect();
    assert_eq!(ranges, vec![(0, 6, false), (6, 6, true), (12, 6, false), (18, 24, false)]);
    assert!(plan.ops[1].scissor.is_some() && plan.ops[3].scissor.is_none());

    let hidden = draw_elements(&elements, Some(true), &no_pictures(), &mut rng, &mut drawn);
    assert_eq!(hidden.quads.len(), 2);
    assert!(hidden.plan.unwrap().ops[0].depth_test);
    let rest = draw_elements(&elements, Some(false), &no_pictures(), &mut rng, &mut drawn);
    assert_eq!(rest.quads.len(), 5);
}

fn display_span(text: &str, style: u32, bold: bool, object: bool) -> DisplaySpan {
    DisplaySpan { text: text.to_string(), style, bold, object }
}

fn glyph_widths(count: usize) -> Vec<GlyphWidth> {
    vec![GlyphWidth { advance: 6 * PIXEL, bold_offset: PIXEL }; count]
}

fn pieces(line: &DisplayLine) -> Vec<(&str, u32)> {
    line.pieces.iter().map(|p| (p.text.as_str(), p.style)).collect()
}

#[test]
fn display_lines_break_where_they_are_told() {
    let spans = vec![
        display_span("ab", 1, false, false),
        display_span("", 9, false, false),
        display_span("c", 1, false, false),
        display_span("\u{e9} d", 2, true, false),
        display_span("e", 1, false, false),
    ];
    let lines = split_text_display_lines(&spans, &glyph_widths(7), 40, |chars, start, width| {
        let text: String = chars.iter().map(|c| c.0).collect();
        assert_eq!((text.as_str(), width), ("abc\u{e9} de", PIXEL));
        let widths: Vec<_> = chars.iter().map(|c| c.1 / PIXEL).collect();
        assert_eq!(widths, [6, 6, 6, 7, 7, 7, 6]);
        if start == 0 {
            Some((4, 5))
        } else {
            None
        }
    });
    assert_eq!(lines.len(), 2);
    assert_eq!((lines[0].start, lines[0].end), (0, 4));
    assert_eq!(pieces(&lines[0]), [("abc", 1), ("\u{e9}", 2)]);
    assert_eq!((lines[1].start, lines[1].end), (5, 7));
    assert_eq!(pieces(&lines[1]), [("d", 2), ("e", 1)]);
}

#[test]
fn displays_without_text_have_no_lines() {
    let never = |_: &Vec<(char, i64)>, _: usize, _: i64| -> Option<(usize, usize)> {
        panic!("there is nothing to break")
    };
    assert!(split_text_display_lines(&Vec::new(), &Vec::new(), 40, never).is_empty());
    let empty = vec![display_span("", 1, false, false), display_span("", 2, true, true)];
    assert!(split_text_display_lines(&empty, &Vec::new(), 40, never).is_empty());
}

#[test]
fn display_lines_are_no_narrower_than_a_pixel() {
    let spans = vec![display_span("a", 1, false, false)];
    for (given, used) in [(-5, PIXEL), (0, PIXEL), (255, PIXEL), (257, 257), (9_000, 9_000)] {
        let lines = split_text_display_lines(&spans, &glyph_widths(1), given, |_, _, width| {
            assert_eq!(width, used);
            None
        });
        assert_eq!(lines.len(), 1);
    }
}

#[test]
fn characters_advance_by_their_glyph_or_object() {
    let glyph = GlyphWidth { advance: 5 * PIXEL, bold_offset: PIXEL / 2 };
    assert_eq!(char_advance('a', true, false, glyph), 5 * PIXEL);
    assert_eq!(char_advance('a', true, true, glyph), 5 * PIXEL + PIXEL / 2);
    assert_eq!(char_advance('\u{fffc}', true, false, glyph), 8 * PIXEL);
    assert_eq!(char_advance('\u{fffc}', true, true, glyph), 9 * PIXEL);
    assert_eq!(char_advance('\u{fffc}', false, false, glyph), 5 * PIXEL);
}

#[test]
fn pictures_and_filled_quads_carry_their_size() {
    let shape = |content: Content| {
        Element::Shape(OverlayElement { x: 0, y: 0, w: PIXEL, h: PIXEL, content })
    };
    let face = shape(Content::Dynamic { key: "k".to_string(), fallback: SpriteId::SteveHead });
    let sprite = shape(Content::Sprite { sprite: SpriteId::SteveHead });
    assert!(carries_size(&face, ShaderMode::Dynamic) && carries_size(&face, ShaderMode::Sprite));
    assert!(!carries_size(&sprite, ShaderMode::Sprite) && !carries_size(&sprite, ShaderMode::Fill));
    assert!(carries_size(&shape(Content::Solid), ShaderMode::Solid));
    assert!(carries_size(&shape(Content::Frosted), ShaderMode::Frosted));
    assert!(!carries_size(&Element::Tooltip(None), ShaderMode::Sprite));
    assert_eq!(object_mode(&Texture::Cell(IconCell { x: 0, y: 0 })), ShaderMode::Dynamic);
    assert_eq!(object_mode(&Texture::Whole), ShaderMode::Sprite);
}
