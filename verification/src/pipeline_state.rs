//! The fixed state of every graphics pipeline.
use vstd::prelude::*;

use crate::gpu::Format;

verus! {

/// The vertex layouts in use.
#[derive(Clone, Copy, Debug, PartialEq, Eq, Structural)]
pub enum VertexKind {
    /// Bound by the chunk mesher.
    Mesh,
    Sign,
    Menu,
    Item,
    Shadow,
    MapQuad,
    Hand,
    Sky,
    Weather,
    Particle,
}

/// The pipelines.
#[derive(Clone, Copy, Debug, PartialEq, Eq, Structural)]
pub enum PipelineKind {
    EntityOpaque,
    EntityOpaqueCulled,
    EntityTranslucentDepthWrite,
    EntityTranslucent,
    EntityAdditive,
    SignText,
    Menu,
    MenuDepth,
    MenuInvert,
    HeldItem,
    ItemCutout,
    ItemTranslucent,
    GuiItem,
    GuiItemTranslucent,
    EntityShadow,
    MapQuad,
    Hand,
    SkyTranslucent,
    SkyOverlay,
    Weather,
    WorldBorder,
    ParticleOpaque,
    ParticleTranslucent,
}

/// Which faces are dropped.
#[derive(Clone, Copy, Debug, PartialEq, Eq, Structural)]
pub enum CullMode {
    Nothing,
    Back,
}

/// The winding of a front face.
#[derive(Clone, Copy, Debug, PartialEq, Eq, Structural)]
pub enum FrontFace {
    CounterClockwise,
    Clockwise,
}

/// How depth is used.
#[derive(Clone, Copy, Debug, PartialEq, Eq, Structural)]
pub enum DepthMode {
    /// Neither tested nor written.
    Off,
    /// Nearer fragments pass and are written.
    StrictWrite,
    /// Nearer fragments pass.
    Strict,
    /// Fragments that are not farther pass and are written.
    InclusiveWrite,
    /// Fragments that are not farther pass.
    Inclusive,
}

/// How colours are combined.
#[derive(Clone, Copy, Debug, PartialEq, Eq, Structural)]
pub enum Blend {
    /// The source replaces the destination.
    Replace,
    /// Straight alpha, with coverage accumulated.
    Over,
    /// Straight alpha; the stored alpha is the source's.
    OverKeepAlpha,
    /// Premultiplied alpha.
    Premultiplied,
    /// The source is added, alpha too.
    Additive,
    /// The source is added; the stored alpha is the source's.
    Glow,
    /// The destination is inverted where the source is white.
    Invert,
}

#[derive(Clone, Copy, Debug, PartialEq, Eq, Structural)]
pub enum BlendFactor {
    Zero,
    One,
    SrcAlpha,
    OneMinusSrcAlpha,
    OneMinusSrcColor,
    OneMinusDstColor,
}

/// Factors of an additive blend equation.
#[derive(Clone, Copy, Debug, PartialEq, Eq, Structural)]
pub struct BlendFactors {
    pub src_color: BlendFactor,
    pub dst_color: BlendFactor,
    pub src_alpha: BlendFactor,
    pub dst_alpha: BlendFactor,
}

/// The factors of each way to blend.
pub const BLENDS: [(Blend, BlendFactor, BlendFactor, BlendFactor, BlendFactor); 7] = [
    (Blend::Replace, BlendFactor::One, BlendFactor::Zero, BlendFactor::One, BlendFactor::Zero),
    (
        Blend::Over,
        BlendFactor::SrcAlpha,
        BlendFactor::OneMinusSrcAlpha,
        BlendFactor::One,
        BlendFactor::OneMinusSrcAlpha,
    ),
    (
        Blend::OverKeepAlpha,
        BlendFactor::SrcAlpha,
        BlendFactor::OneMinusSrcAlpha,
        BlendFactor::One,
        BlendFactor::Zero,
    ),
    (
        Blend::Premultiplied,
        BlendFactor::One,
        BlendFactor::OneMinusSrcAlpha,
        BlendFactor::One,
        BlendFactor::OneMinusSrcAlpha,
    ),
    (Blend::Additive, BlendFactor::SrcAlpha, BlendFactor::One, BlendFactor::One, BlendFactor::One),
    (Blend::Glow, BlendFactor::SrcAlpha, BlendFactor::One, BlendFactor::One, BlendFactor::Zero),
    (
        Blend::Invert,
        BlendFactor::OneMinusDstColor,
        BlendFactor::OneMinusSrcColor,
        BlendFactor::One,
        BlendFactor::Zero,
    ),
];

/// The state of each pipeline: shaders, vertices, culling, winding, depth,
/// blending, and whether it is pulled towards the camera by a depth bias.
pub const PIPELINES: [(
    PipelineKind,
    &'static str,
    &'static str,
    VertexKind,
    CullMode,
    FrontFace,
    DepthMode,
    Blend,
    bool,
); 23] = [
    (
        PipelineKind::EntityOpaque,
        "entity.vert",
        "entity.frag",
        VertexKind::Mesh,
        CullMode::Nothing,
        FrontFace::CounterClockwise,
        DepthMode::InclusiveWrite,
        Blend::Replace,
        false,
    ),
    (
        PipelineKind::EntityOpaqueCulled,
        "entity.vert",
        "entity.frag",
        VertexKind::Mesh,
        CullMode::Back,
        FrontFace::CounterClockwise,
        DepthMode::InclusiveWrite,
        Blend::Replace,
        false,
    ),
    (
        PipelineKind::EntityTranslucentDepthWrite,
        "entity.vert",
        "entity.frag",
        VertexKind::Mesh,
        CullMode::Nothing,
        FrontFace::CounterClockwise,
        DepthMode::InclusiveWrite,
        Blend::Over,
        false,
    ),
    (
        PipelineKind::EntityTranslucent,
        "entity.vert",
        "entity.frag",
        VertexKind::Mesh,
        CullMode::Nothing,
        FrontFace::CounterClockwise,
        DepthMode::Inclusive,
        Blend::Over,
        false,
    ),
    (
        PipelineKind::EntityAdditive,
        "entity.vert",
        "entity.frag",
        VertexKind::Mesh,
        CullMode::Nothing,
        FrontFace::CounterClockwise,
        DepthMode::InclusiveWrite,
        Blend::Additive,
        false,
    ),
    (
        PipelineKind::SignText,
        "sign_text.vert",
        "sign_text.frag",
        VertexKind::Sign,
        CullMode::Nothing,
        FrontFace::CounterClockwise,
        DepthMode::InclusiveWrite,
        Blend::Premultiplied,
        false,
    ),
    (
        PipelineKind::Menu,
        "menu_overlay.vert",
        "menu_overlay.frag",
        VertexKind::Menu,
        CullMode::Nothing,
        FrontFace::CounterClockwise,
        DepthMode::Off,
        Blend::Premultiplied,
        false,
    ),
    (
        PipelineKind::MenuDepth,
        "menu_overlay.vert",
        "menu_overlay.frag",
        VertexKind::Menu,
        CullMode::Nothing,
        FrontFace::CounterClockwise,
        DepthMode::Inclusive,
        Blend::Premultiplied,
        false,
    ),
    (
        PipelineKind::MenuInvert,
        "menu_overlay.vert",
        "menu_overlay.frag",
        VertexKind::Menu,
        CullMode::Nothing,
        FrontFace::CounterClockwise,
        DepthMode::Off,
        Blend::Invert,
        false,
    ),
    (
        PipelineKind::HeldItem,
        "item_entity_world.vert",
        "item_entity.frag",
        VertexKind::Item,
        CullMode::Back,
        FrontFace::CounterClockwise,
        DepthMode::InclusiveWrite,
        Blend::OverKeepAlpha,
        false,
    ),
    (
        PipelineKind::ItemCutout,
        "item_entity_world.vert",
        "item_entity.frag",
        VertexKind::Item,
        CullMode::Back,
        FrontFace::CounterClockwise,
        DepthMode::InclusiveWrite,
        Blend::Replace,
        false,
    ),
    (
        PipelineKind::ItemTranslucent,
        "item_entity_world.vert",
        "item_entity.frag",
        VertexKind::Item,
        CullMode::Back,
        FrontFace::CounterClockwise,
        DepthMode::InclusiveWrite,
        Blend::OverKeepAlpha,
        false,
    ),
    (
        PipelineKind::GuiItem,
        "item_entity.vert",
        "item_entity.frag",
        VertexKind::Item,
        CullMode::Back,
        FrontFace::Clockwise,
        DepthMode::InclusiveWrite,
        Blend::OverKeepAlpha,
        false,
    ),
    (
        PipelineKind::GuiItemTranslucent,
        "item_entity.vert",
        "item_entity.frag",
        VertexKind::Item,
        CullMode::Back,
        FrontFace::Clockwise,
        DepthMode::Inclusive,
        Blend::Over,
        false,
    ),
    (
        PipelineKind::EntityShadow,
        "world_shadow.vert",
        "world_shadow.frag",
        VertexKind::Shadow,
        CullMode::Nothing,
        FrontFace::CounterClockwise,
        DepthMode::Inclusive,
        Blend::Over,
        false,
    ),
    (
        PipelineKind::MapQuad,
        "map_quad.vert",
        "map_quad.frag",
        VertexKind::MapQuad,
        CullMode::Nothing,
        FrontFace::CounterClockwise,
        DepthMode::Inclusive,
        Blend::Over,
        true,
    ),
    (
        PipelineKind::Hand,
        "hand.vert",
        "hand.frag",
        VertexKind::Hand,
        CullMode::Nothing,
        FrontFace::CounterClockwise,
        DepthMode::StrictWrite,
        Blend::Replace,
        false,
    ),
    (
        PipelineKind::SkyTranslucent,
        "sky.vert",
        "sky.frag",
        VertexKind::Sky,
        CullMode::Nothing,
        FrontFace::CounterClockwise,
        DepthMode::Off,
        Blend::Over,
        false,
    ),
    (
        PipelineKind::SkyOverlay,
        "sky.vert",
        "sky.frag",
        VertexKind::Sky,
        CullMode::Nothing,
        FrontFace::CounterClockwise,
        DepthMode::Off,
        Blend::Glow,
        false,
    ),
    (
        PipelineKind::Weather,
        "weather.vert",
        "weather.frag",
        VertexKind::Weather,
        CullMode::Nothing,
        FrontFace::CounterClockwise,
        DepthMode::Strict,
        Blend::Over,
        false,
    ),
    (
        PipelineKind::WorldBorder,
        "weather.vert",
        "weather.frag",
        VertexKind::Weather,
        CullMode::Nothing,
        FrontFace::CounterClockwise,
        DepthMode::Inclusive,
        Blend::OverKeepAlpha,
        false,
    ),
    (
        PipelineKind::ParticleOpaque,
        "particle.vert",
        "particle.frag",
        VertexKind::Particle,
        CullMode::Nothing,
        FrontFace::CounterClockwise,
        DepthMode::StrictWrite,
        Blend::Replace,
        false,
    ),
    (
        PipelineKind::ParticleTranslucent,
        "particle.vert",
        "particle.frag",
        VertexKind::Particle,
        CullMode::Nothing,
        FrontFace::CounterClockwise,
        DepthMode::StrictWrite,
        Blend::Over,
        false,
    ),
];

/// The vertex attributes: layout, location, format and byte offset.
pub const ATTRIBUTES: [(VertexKind, u32, Format, u32); 30] = [
    (VertexKind::Sign, 0, Format::R32G32B32Sfloat, 0),
    (VertexKind::Sign, 1, Format::R32G32B32Sfloat, 12),
    (VertexKind::Sign, 2, Format::R32G32B32A32Sfloat, 24),
    (VertexKind::Sign, 3, Format::R32Sfloat, 40),
    (VertexKind::Menu, 0, Format::R32G32Sfloat, 0),
    (VertexKind::Menu, 1, Format::R32G32Sfloat, 8),
    (VertexKind::Menu, 2, Format::R32G32B32A32Sfloat, 16),
    (VertexKind::Menu, 3, Format::R32Sfloat, 32),
    (VertexKind::Menu, 4, Format::R32G32Sfloat, 36),
    (VertexKind::Menu, 5, Format::R32Sfloat, 44),
    (VertexKind::Menu, 6, Format::R32Sfloat, 48),
    (VertexKind::Item, 0, Format::R32G32B32Sfloat, 0),
    (VertexKind::Item, 1, Format::R32G32Sfloat, 12),
    (VertexKind::Item, 2, Format::R8G8B8A8Unorm, 20),
    (VertexKind::Item, 3, Format::R8G8B8A8Snorm, 24),
    (VertexKind::Shadow, 0, Format::R32G32B32Sfloat, 0),
    (VertexKind::Shadow, 1, Format::R32G32Sfloat, 12),
    (VertexKind::Shadow, 2, Format::R8G8B8A8Unorm, 20),
    (VertexKind::MapQuad, 0, Format::R32G32B32Sfloat, 0),
    (VertexKind::MapQuad, 1, Format::R32G32Sfloat, 12),
    (VertexKind::Hand, 0, Format::R32G32B32Sfloat, 0),
    (VertexKind::Hand, 1, Format::R32G32Sfloat, 12),
    (VertexKind::Sky, 0, Format::R32G32B32Sfloat, 0),
    (VertexKind::Sky, 1, Format::R32G32Sfloat, 12),
    (VertexKind::Weather, 0, Format::R32G32B32Sfloat, 0),
    (VertexKind::Weather, 1, Format::R32G32Sfloat, 12),
    (VertexKind::Weather, 2, Format::R32Sfloat, 20),
    (VertexKind::Particle, 0, Format::R32G32B32Sfloat, 0),
    (VertexKind::Particle, 1, Format::R32G32Sfloat, 12),
    (VertexKind::Particle, 2, Format::R8G8B8A8Unorm, 20),
];

/// Bytes from one vertex to the next.
pub const STRIDES: [(VertexKind, u32); 9] = [
    (VertexKind::Sign, 44),
    (VertexKind::Menu, 52),
    (VertexKind::Item, 28),
    (VertexKind::Shadow, 24),
    (VertexKind::MapQuad, 20),
    (VertexKind::Hand, 20),
    (VertexKind::Sky, 20),
    (VertexKind::Weather, 24),
    (VertexKind::Particle, 24),
];

/// Modes of the entity pipelines.
#[derive(Clone, Copy, Debug, PartialEq, Eq, Structural)]
pub enum BlendMode {
    Opaque,
    /// Opaque without back faces, for meshes with coplanar quads.
    OpaqueCulled,
    Translucent,
    /// Blended like `Translucent`, but written to depth.
    TranslucentDepthWrite,
    Additive,
}

/// Where a draw's model matrix comes from.
#[derive(Clone, Copy, Debug, PartialEq, Eq, Structural)]
pub enum ModelInput {
    Instanced,
    PushConstant,
}

/// The entity pipelines, in the order they are kept.
pub const ENTITY_PIPELINES: [BlendMode; 5] = [
    BlendMode::Opaque,
    BlendMode::OpaqueCulled,
    BlendMode::TranslucentDepthWrite,
    BlendMode::Translucent,
    BlendMode::Additive,
];

/// The state a pipeline is created with.
#[derive(Clone, Copy, Debug, PartialEq, Eq)]
pub struct PipelineState {
    pub vertex_shader: &'static str,
    pub fragment_shader: &'static str,
    pub vertices: VertexKind,
    pub cull: CullMode,
    pub front_face: FrontFace,
    pub depth: DepthMode,
    pub blend: Blend,
    pub depth_bias: bool,
}

/// Row `i` of the pipeline table as a state.
pub open spec fn listed(i: int) -> PipelineState {
    PipelineState {
        vertex_shader: PIPELINES[i].1,
        fragment_shader: PIPELINES[i].2,
        vertices: PIPELINES[i].3,
        cull: PIPELINES[i].4,
        front_face: PIPELINES[i].5,
        depth: PIPELINES[i].6,
        blend: PIPELINES[i].7,
        depth_bias: PIPELINES[i].8,
    }
}

/// Row `i` is that of a pipeline.
pub open spec fn is_row(kind: PipelineKind, i: int) -> bool {
    0 <= i < 23 && PIPELINES[i].0 == kind
}

/// The row of a pipeline.
pub open spec fn row_of(kind: PipelineKind) -> int {
    match kind {
        PipelineKind::EntityOpaque => 0,
        PipelineKind::EntityOpaqueCulled => 1,
        PipelineKind::EntityTranslucentDepthWrite => 2,
        PipelineKind::EntityTranslucent => 3,
        PipelineKind::EntityAdditive => 4,
        PipelineKind::SignText => 5,
        PipelineKind::Menu => 6,
        PipelineKind::MenuDepth => 7,
        PipelineKind::MenuInvert => 8,
        PipelineKind::HeldItem => 9,
        PipelineKind::ItemCutout => 10,
        PipelineKind::ItemTranslucent => 11,
        PipelineKind::GuiItem => 12,
        PipelineKind::GuiItemTranslucent => 13,
        PipelineKind::EntityShadow => 14,
        PipelineKind::MapQuad => 15,
        PipelineKind::Hand => 16,
        PipelineKind::SkyTranslucent => 17,
        PipelineKind::SkyOverlay => 18,
        PipelineKind::Weather => 19,
        PipelineKind::WorldBorder => 20,
        PipelineKind::ParticleOpaque => 21,
        PipelineKind::ParticleTranslucent => 22,
    }
}

/// Each pipeline has one row of the table.
pub proof fn law_pipelines_are_listed_once(kind: PipelineKind, i: int)
    ensures
        is_row(kind, i) <==> i == row_of(kind),
{
    assert(PIPELINES[0].0 == PipelineKind::EntityOpaque);
    if 0 <= i < 23 {
        assert(row_of(PIPELINES[i].0) == i);
    }
    assert(PIPELINES[row_of(kind)].0 == kind);
}

/// The state of a pipeline.
pub fn pipeline_state(kind: PipelineKind) -> (state: PipelineState)
    ensures
        state == listed(row_of(kind)),
{
    let table = PIPELINES;
    let mut i: usize = 0;
    while i < 22 && table[i].0 != kind
        invariant
            i <= 22,
            table == PIPELINES,
            forall|j: int| 0 <= j < i ==> !#[trigger] is_row(kind, j),
        decreases 22 - i,
    {
        assert(!is_row(kind, i as int));
        i = i + 1;
    }
    proof {
        law_pipelines_are_listed_once(kind, row_of(kind));
        law_pipelines_are_listed_once(kind, i as int);
        assert(is_row(kind, row_of(kind)));
    }
    let row = table[i];
    PipelineState {
        vertex_shader: row.1,
        fragment_shader: row.2,
        vertices: row.3,
        cull: row.4,
        front_face: row.5,
        depth: row.6,
        blend: row.7,
        depth_bias: row.8,
    }
}

/// Depth fragments are held against the depth image.
pub open spec fn tests_depth(depth: DepthMode) -> bool {
    depth != DepthMode::Off
}

/// Depth is written.
pub open spec fn writes_depth(depth: DepthMode) -> bool {
    depth == DepthMode::StrictWrite || depth == DepthMode::InclusiveWrite
}

/// Depth that is not farther passes, rather than only what is nearer.
pub open spec fn passes_equal_depth(depth: DepthMode) -> bool {
    depth == DepthMode::Inclusive || depth == DepthMode::InclusiveWrite
}

/// Test, write and inclusive comparison of a depth mode.
pub fn depth_flags(depth: DepthMode) -> (flags: (bool, bool, bool))
    ensures
        flags == (tests_depth(depth), writes_depth(depth), passes_equal_depth(depth)),
{
    match depth {
        DepthMode::Off => (false, false, false),
        DepthMode::StrictWrite => (true, true, false),
        DepthMode::Strict => (true, false, false),
        DepthMode::InclusiveWrite => (true, true, true),
        DepthMode::Inclusive => (true, false, true),
    }
}

/// The row of a way to blend.
pub open spec fn blend_row(blend: Blend) -> int {
    match blend {
        Blend::Replace => 0,
        Blend::Over => 1,
        Blend::OverKeepAlpha => 2,
        Blend::Premultiplied => 3,
        Blend::Additive => 4,
        Blend::Glow => 5,
        Blend::Invert => 6,
    }
}

/// The factors of a way to blend.
pub fn blend_factors(blend: Blend) -> (factors: BlendFactors)
    ensures
        BLENDS[blend_row(blend)].0 == blend,
        factors == (BlendFactors {
            src_color: BLENDS[blend_row(blend)].1,
            dst_color: BLENDS[blend_row(blend)].2,
            src_alpha: BLENDS[blend_row(blend)].3,
            dst_alpha: BLENDS[blend_row(blend)].4,
        }),
{
    let table = BLENDS;
    let i: usize = match blend {
        Blend::Replace => 0,
        Blend::Over => 1,
        Blend::OverKeepAlpha => 2,
        Blend::Premultiplied => 3,
        Blend::Additive => 4,
        Blend::Glow => 5,
        Blend::Invert => 6,
    };
    assert(BLENDS[blend_row(blend)].0 == blend);
    BlendFactors {
        src_color: table[i].1,
        dst_color: table[i].2,
        src_alpha: table[i].3,
        dst_alpha: table[i].4,
    }
}

/// The pipeline of an entity mode.
pub open spec fn entity_kind(blend: BlendMode) -> PipelineKind {
    match blend {
        BlendMode::Opaque => PipelineKind::EntityOpaque,
        BlendMode::OpaqueCulled => PipelineKind::EntityOpaqueCulled,
        BlendMode::Translucent => PipelineKind::EntityTranslucent,
        BlendMode::TranslucentDepthWrite => PipelineKind::EntityTranslucentDepthWrite,
        BlendMode::Additive => PipelineKind::EntityAdditive,
    }
}

/// A vertex attribute fed once for each instance.
#[derive(Clone, Copy, Debug, PartialEq, Eq, Structural)]
pub struct Attribute {
    pub location: u32,
    pub binding: u32,
    pub format: Format,
    pub offset: u32,
}

/// Bytes of one entity instance.
pub const INSTANCE_STRIDE: u32 = 112;

/// The state of an entity pipeline, and its attributes fed for each instance:
/// four matrix columns, tint, overlay and texture offset.
pub fn entity_pipeline(blend: BlendMode, input: ModelInput) -> (made: (PipelineState, Vec<Attribute>))
    ensures
        made.0 == (PipelineState {
            vertex_shader: if input == ModelInput::Instanced {
                "entity.vert"
            } else {
                "block_entity.vert"
            },
            ..listed(row_of(entity_kind(blend)))
        }),
        made.1@.len() == (if input == ModelInput::Instanced {
            7int
        } else {
            0
        }),
        forall|i: int|
            0 <= i < made.1@.len() ==> #[trigger] made.1@[i] == (Attribute {
                location: (3 + i) as u32,
                binding: 1,
                format: Format::R32G32B32A32Sfloat,
                offset: (i * 16) as u32,
            }),
{
    let kind = match blend {
        BlendMode::Opaque => PipelineKind::EntityOpaque,
        BlendMode::OpaqueCulled => PipelineKind::EntityOpaqueCulled,
        BlendMode::Translucent => PipelineKind::EntityTranslucent,
        BlendMode::TranslucentDepthWrite => PipelineKind::EntityTranslucentDepthWrite,
        BlendMode::Additive => PipelineKind::EntityAdditive,
    };
    let mut state = pipeline_state(kind);
    let mut attributes: Vec<Attribute> = Vec::new();
    match input {
        ModelInput::Instanced => {
            state.vertex_shader = "entity.vert";
            let mut i: u32 = 0;
            while i < 7
                invariant
                    i <= 7,
                    attributes@.len() == i,
                    forall|j: int|
                        0 <= j < i ==> #[trigger] attributes@[j] == (Attribute {
                            location: (3 + j) as u32,
                            binding: 1,
                            format: Format::R32G32B32A32Sfloat,
                            offset: (j * 16) as u32,
                        }),
                decreases 7 - i,
            {
                attributes.push(
                    Attribute {
                        location: 3 + i,
                        binding: 1,
                        format: Format::R32G32B32A32Sfloat,
                        offset: i * 16,
                    },
                );
                i = i + 1;
            }
        },
        ModelInput::PushConstant => {
            state.vertex_shader = "block_entity.vert";
        },
    }
    (state, attributes)
}

/// The state of a pipeline for item meshes.
pub open spec fn item_state(
    front_face: FrontFace,
    world_lighting: bool,
    blend: bool,
    depth_write: bool,
    accumulate_alpha: bool,
) -> PipelineState {
    PipelineState {
        vertex_shader: if world_lighting {
            "item_entity_world.vert"
        } else {
            "item_entity.vert"
        },
        fragment_shader: "item_entity.frag",
        vertices: VertexKind::Item,
        cull: CullMode::Back,
        front_face,
        depth: if depth_write {
            DepthMode::InclusiveWrite
        } else {
            DepthMode::Inclusive
        },
        blend: if !blend {
            Blend::Replace
        } else if accumulate_alpha {
            Blend::Over
        } else {
            Blend::OverKeepAlpha
        },
        depth_bias: false,
    }
}

pub fn item_pipeline(
    front_face: FrontFace,
    world_lighting: bool,
    blend: bool,
    depth_write: bool,
    accumulate_alpha: bool,
) -> (state: PipelineState)
    ensures
        state == item_state(front_face, world_lighting, blend, depth_write, accumulate_alpha),
{
    PipelineState {
        vertex_shader: if world_lighting {
            "item_entity_world.vert"
        } else {
            "item_entity.vert"
        },
        fragment_shader: "item_entity.frag",
        vertices: VertexKind::Item,
        cull: CullMode::Back,
        front_face,
        depth: if depth_write {
            DepthMode::InclusiveWrite
        } else {
            DepthMode::Inclusive
        },
        blend: if !blend {
            Blend::Replace
        } else if accumulate_alpha {
            Blend::Over
        } else {
            Blend::OverKeepAlpha
        },
        depth_bias: false,
    }
}

/// The state of an overlay pipeline.
pub open spec fn menu_state(invert: bool, depth_test: bool) -> PipelineState {
    PipelineState {
        depth: if depth_test {
            DepthMode::Inclusive
        } else {
            DepthMode::Off
        },
        blend: if invert {
            Blend::Invert
        } else {
            Blend::Premultiplied
        },
        ..listed(row_of(PipelineKind::Menu))
    }
}

pub fn menu_pipeline(invert: bool, depth_test: bool) -> (state: PipelineState)
    ensures
        state == menu_state(invert, depth_test),
{
    let mut state = pipeline_state(PipelineKind::Menu);
    state.depth = if depth_test {
        DepthMode::Inclusive
    } else {
        DepthMode::Off
    };
    state.blend = if invert {
        Blend::Invert
    } else {
        Blend::Premultiplied
    };
    state
}

/// The named item and overlay pipelines are the ones their switches make.
pub proof fn law_named_pipelines_follow_their_switches()
    ensures
        listed(row_of(PipelineKind::HeldItem)) == item_state(
            FrontFace::CounterClockwise,
            true,
            true,
            true,
            false,
        ),
        listed(row_of(PipelineKind::ItemCutout)) == item_state(
            FrontFace::CounterClockwise,
            true,
            false,
            true,
            false,
        ),
        listed(row_of(PipelineKind::ItemTranslucent)) == item_state(
            FrontFace::CounterClockwise,
            true,
            true,
            true,
            false,
        ),
        listed(row_of(PipelineKind::GuiItem)) == item_state(
            FrontFace::Clockwise,
            false,
            true,
            true,
            false,
        ),
        listed(row_of(PipelineKind::GuiItemTranslucent)) == item_state(
            FrontFace::Clockwise,
            false,
            true,
            false,
            true,
        ),
        listed(row_of(PipelineKind::Menu)) == menu_state(false, false),
        listed(row_of(PipelineKind::MenuDepth)) == menu_state(false, true),
        listed(row_of(PipelineKind::MenuInvert)) == menu_state(true, false),
{
}

/// A pipeline that replaces colours leaves its depth behind, and one that leaves
/// no depth behind blends.
pub proof fn law_opaque_pipelines_write_depth(i: int)
    requires
        0 <= i < 23,
    ensures
        listed(i).blend == Blend::Replace ==> writes_depth(listed(i).depth),
        writes_depth(listed(i).depth) ==> tests_depth(listed(i).depth),
{
    assert(PIPELINES[0].7 == Blend::Replace);
}

/// Bytes of an attribute.
pub open spec fn format_bytes(format: Format) -> int {
    match format {
        Format::R32Sfloat => 4,
        Format::R32G32Sfloat => 8,
        Format::R32G32B32Sfloat => 12,
        Format::R32G32B32A32Sfloat => 16,
        Format::R8G8B8A8Unorm => 4,
        Format::R8G8B8A8Snorm => 4,
        _ => 0,
    }
}

/// The stride of a layout.
pub open spec fn stride_of(kind: VertexKind) -> int {
    match kind {
        VertexKind::Mesh => 0,
        VertexKind::Sign => STRIDES[0].1 as int,
        VertexKind::Menu => STRIDES[1].1 as int,
        VertexKind::Item => STRIDES[2].1 as int,
        VertexKind::Shadow => STRIDES[3].1 as int,
        VertexKind::MapQuad => STRIDES[4].1 as int,
        VertexKind::Hand => STRIDES[5].1 as int,
        VertexKind::Sky => STRIDES[6].1 as int,
        VertexKind::Weather => STRIDES[7].1 as int,
        VertexKind::Particle => STRIDES[8].1 as int,
    }
}

/// Bytes from one vertex to the next; the mesh layout is the mesher's own.
pub fn vertex_stride(kind: VertexKind) -> (stride: Option<u32>)
    ensures
        kind == VertexKind::Mesh ==> stride is None,
        kind != VertexKind::Mesh ==> stride is Some && stride->0 == stride_of(kind),
{
    let table = STRIDES;
    match kind {
        VertexKind::Mesh => None,
        VertexKind::Sign => Some(table[0].1),
        VertexKind::Menu => Some(table[1].1),
        VertexKind::Item => Some(table[2].1),
        VertexKind::Shadow => Some(table[3].1),
        VertexKind::MapQuad => Some(table[4].1),
        VertexKind::Hand => Some(table[5].1),
        VertexKind::Sky => Some(table[6].1),
        VertexKind::Weather => Some(table[7].1),
        VertexKind::Particle => Some(table[8].1),
    }
}

/// The attributes of a layout among the first `n` rows of the table.
pub open spec fn attributes_of(kind: VertexKind, n: int) -> Seq<Attribute>
    decreases n,
{
    if n <= 0 {
        Seq::empty()
    } else {
        let before = attributes_of(kind, n - 1);
        if ATTRIBUTES[n - 1].0 == kind {
            before.push(
                Attribute {
                    location: ATTRIBUTES[n - 1].1,
                    binding: 0,
                    format: ATTRIBUTES[n - 1].2,
                    offset: ATTRIBUTES[n - 1].3,
                },
            )
        } else {
            before
        }
    }
}

/// The attributes of a layout.
pub fn vertex_attributes(kind: VertexKind) -> (list: Vec<Attribute>)
    ensures
        list@ == attributes_of(kind, 30),
{
    let table = ATTRIBUTES;
    let mut list: Vec<Attribute> = Vec::new();
    let mut i: usize = 0;
    while i < 30
        invariant
            i <= 30,
            table == ATTRIBUTES,
            list@ == attributes_of(kind, i as int),
        decreases 30 - i,
    {
        let row = table[i];
        if row.0 == kind {
            list.push(Attribute { location: row.1, binding: 0, format: row.2, offset: row.3 });
        }
        i = i + 1;
    }
    list
}

/// The attributes of a layout follow each other without gap or overlap, in the
/// order of their locations, and end where the next vertex begins.
pub proof fn law_attributes_tile_the_vertex(i: int)
    requires
        0 <= i < 30,
    ensures
        i == 0 || ATTRIBUTES[i - 1].0 != ATTRIBUTES[i].0 ==> ATTRIBUTES[i].1 == 0
            && ATTRIBUTES[i].3 == 0,
        i + 1 < 30 && ATTRIBUTES[i + 1].0 == ATTRIBUTES[i].0 ==> ATTRIBUTES[i + 1].1
            == ATTRIBUTES[i].1 + 1 && ATTRIBUTES[i + 1].3 == ATTRIBUTES[i].3 + format_bytes(
            ATTRIBUTES[i].2,
        ),
        i + 1 == 30 || ATTRIBUTES[i + 1].0 != ATTRIBUTES[i].0 ==> ATTRIBUTES[i].3 + format_bytes(
            ATTRIBUTES[i].2,
        ) == stride_of(ATTRIBUTES[i].0),
{
    assert(ATTRIBUTES[0].0 == VertexKind::Sign);
    assert(STRIDES[0].0 == VertexKind::Sign);
}

/// Byte ranges of the constants pushed for an item draw: model matrix, light,
/// the lighting selector and the padded normal matrix.
pub const ITEM_PUSH: [(u32, u32); 4] = [(0, 64), (64, 4), (68, 4), (80, 48)];

/// Bytes of push constants the item pipelines reserve.
pub const ITEM_PUSH_SIZE: u32 = 128;

/// Bytes of push constants the inventory pipeline reserves.
pub const GUI_PUSH_SIZE: u32 = 72;

/// The pushed constants do not overlap, and all of them fit; the inventory
/// pipeline has room for the ones it uses.
pub proof fn law_push_constants_fit(i: int, j: int)
    requires
        0 <= i < j < 4,
    ensures
        ITEM_PUSH[i].0 + ITEM_PUSH[i].1 <= ITEM_PUSH[j].0,
        ITEM_PUSH[j].0 + ITEM_PUSH[j].1 <= ITEM_PUSH_SIZE,
        j < 3 ==> ITEM_PUSH[j].0 + ITEM_PUSH[j].1 <= GUI_PUSH_SIZE,
{
    assert(ITEM_PUSH[0].0 == 0);
}

/// The modes of an entity blend as they are named: opaque ones replace what is behind
/// them, translucent ones go over it, and additive ones are added to it. All but the plain
/// translucent one write depth, and one alone leaves out what faces away.
pub proof fn law_entity_modes_are_as_named(mode: BlendMode)
    ensures
        ({
            let state = listed(row_of(entity_kind(mode)));
            &&& state.fragment_shader == "entity.frag"
            &&& state.blend == (match mode {
                BlendMode::Opaque | BlendMode::OpaqueCulled => Blend::Replace,
                BlendMode::Translucent | BlendMode::TranslucentDepthWrite => Blend::Over,
                BlendMode::Additive => Blend::Additive,
            })
            &&& state.depth == DepthMode::InclusiveWrite <==> mode != BlendMode::Translucent
            &&& state.cull == CullMode::Back <==> mode == BlendMode::OpaqueCulled
        }),
{
    assert(PIPELINES[0].0 == PipelineKind::EntityOpaque);
}

/// Every pipeline takes its state from the row that bears its name.
pub proof fn law_states_are_those_of_their_row(kind: PipelineKind)
    ensures
        ({
            let i = row_of(kind);
            let state = listed(i);
            &&& 0 <= i < 23
            &&& PIPELINES[i] == (
                kind,
                state.vertex_shader,
                state.fragment_shader,
                state.vertices,
                state.cull,
                state.front_face,
                state.depth,
                state.blend,
                state.depth_bias,
            )
        }),
{
    law_pipelines_are_listed_once(kind, row_of(kind));
}

/// Depth that is off is neither tested nor written; the strict modes let only what is
/// nearer pass, the inclusive ones also what is as near.
pub proof fn law_depth_modes_are_as_named(depth: DepthMode)
    ensures
        !tests_depth(depth) <==> depth == DepthMode::Off,
        writes_depth(depth) ==> tests_depth(depth),
        depth == DepthMode::Strict || depth == DepthMode::StrictWrite ==> !passes_equal_depth(depth),
        depth == DepthMode::Inclusive || depth == DepthMode::InclusiveWrite ==> passes_equal_depth(
            depth,
        ),
        depth == DepthMode::Strict || depth == DepthMode::Inclusive ==> !writes_depth(depth),
        depth == DepthMode::StrictWrite || depth == DepthMode::InclusiveWrite ==> writes_depth(
            depth,
        ),
{
}

/// A layout lists the attributes of its rows, in their order, and none of another's.
pub proof fn law_layouts_list_their_rows(kind: VertexKind, n: int, i: int)
    requires
        0 <= n < 30,
    ensures
        attributes_of(kind, 0).len() == 0,
        ({
            let before = attributes_of(kind, n);
            let after = attributes_of(kind, n + 1);
            let row = ATTRIBUTES[n];
            &&& row.0 != kind ==> after == before
            &&& row.0 == kind ==> {
                &&& after.len() == before.len() + 1
                &&& 0 <= i < before.len() ==> after[i] == before[i]
                &&& after.last().binding == 0
                &&& (after.last().location, after.last().format, after.last().offset) == (
                    row.1,
                    row.2,
                    row.3,
                )
            }
        }),
{
}

} // verus!
