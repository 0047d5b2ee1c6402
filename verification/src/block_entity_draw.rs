//! Turning a frame's block entities into draw commands.
use vstd::prelude::*;

use crate::block_entity::BlockEntityKind;
use crate::block_entity::MAX_SIGN_VERTICES;

verus! {

/// A run of vertices that one model part draws.
#[derive(Clone, Copy, Debug, PartialEq, Eq, Structural)]
pub struct PartRange {
    pub start: u32,
    pub count: u32,
}

/// A baked model: how many vertices it has and which of them each part draws.
pub struct BakedModel {
    pub vertex_count: u32,
    pub parts: Vec<PartRange>,
}

/// The models of a kind, which share one vertex buffer, and its texture count.
pub struct KindEntry {
    pub models: Vec<BakedModel>,
    pub textures: usize,
}

impl KindEntry {
    /// There is something to draw and something to draw it with.
    pub open spec fn wf(self) -> bool {
        self.models@.len() > 0 && self.textures > 0
    }
}

/// Vertices of the first `n` models.
pub open spec fn vertices_before(models: Seq<BakedModel>, n: int) -> nat
    decreases n,
{
    if n <= 0 {
        0
    } else {
        vertices_before(models, n - 1) + models[n - 1].vertex_count as nat
    }
}

proof fn lemma_vertices_monotonic(models: Seq<BakedModel>, a: int, b: int)
    requires
        0 <= a <= b,
    ensures
        vertices_before(models, a) <= vertices_before(models, b),
    decreases b,
{
    if a < b {
        lemma_vertices_monotonic(models, a, b - 1);
    }
}

/// A part range moved to where its model begins in the shared buffer.
pub open spec fn rebased(part: PartRange, base: nat) -> PartRange {
    PartRange { start: (part.start + base) as u32, count: part.count }
}

/// Every part lies inside its own model.
pub open spec fn parts_inside(model: BakedModel) -> bool {
    forall|p: int|
        0 <= p < model.parts@.len() ==> (#[trigger] model.parts@[p]).start + model.parts@[p].count
            <= model.vertex_count
}

fn rebase_parts(parts: &mut Vec<PartRange>, base: u32)
    requires
        forall|p: int| 0 <= p < old(parts)@.len() ==> (#[trigger] old(parts)@[p]).start + base <= u32::MAX,
    ensures
        final(parts)@ == old(parts)@.map_values(|part: PartRange| rebased(part, base as nat)),
{
    let ghost before = parts@;
    let mut p: usize = 0;
    while p < parts.len()
        invariant
            p <= parts@.len(),
            parts@.len() == before.len(),
            forall|j: int| 0 <= j < before.len() ==> (#[trigger] before[j]).start + base <= u32::MAX,
            forall|j: int| 0 <= j < p ==> #[trigger] parts@[j] == rebased(before[j], base as nat),
            forall|j: int| p <= j < before.len() ==> #[trigger] parts@[j] == before[j],
        decreases parts@.len() - p,
    {
        let part = parts[p];
        assert(part == before[p as int]);
        parts[p] = PartRange { start: part.start + base, count: part.count };
        p = p + 1;
    }
    assert(parts@ =~= before.map_values(|part: PartRange| rebased(part, base as nat)));
}

/// Lays the models of a kind end to end: each part range becomes absolute in
/// the shared vertex buffer. Returns the buffer's vertex count.
pub fn rebase_models(models: &mut Vec<BakedModel>) -> (total: u32)
    requires
        vertices_before(old(models)@, old(models)@.len() as int) <= u32::MAX,
        forall|m: int| 0 <= m < old(models)@.len() ==> parts_inside(#[trigger] old(models)@[m]),
    ensures
        total == vertices_before(old(models)@, old(models)@.len() as int),
        final(models)@.len() == old(models)@.len(),
        forall|m: int|
            0 <= m < old(models)@.len() ==> {
                &&& (#[trigger] final(models)@[m]).vertex_count == old(models)@[m].vertex_count
                &&& final(models)@[m].parts@ == old(models)@[m].parts@.map_values(
                    |part: PartRange| rebased(part, vertices_before(old(models)@, m)),
                )
            },
{
    let ghost before = models@;
    let mut base: u32 = 0;
    let mut m: usize = 0;
    while m < models.len()
        invariant
            m <= models@.len(),
            models@.len() == before.len(),
            base == vertices_before(before, m as int),
            vertices_before(before, before.len() as int) <= u32::MAX,
            forall|j: int| 0 <= j < before.len() ==> parts_inside(#[trigger] before[j]),
            forall|j: int|
                0 <= j < m ==> {
                    &&& (#[trigger] models@[j]).vertex_count == before[j].vertex_count
                    &&& models@[j].parts@ == before[j].parts@.map_values(
                        |part: PartRange| rebased(part, vertices_before(before, j)),
                    )
                },
            forall|j: int| m <= j < before.len() ==> #[trigger] models@[j] == before[j],
        decreases models@.len() - m,
    {
        let count: u32 = models[m].vertex_count;
        assert(models@[m as int] == before[m as int]);
        proof {
            lemma_vertices_monotonic(before, m + 1, before.len() as int);
            assert(parts_inside(before[m as int]));
        }
        let model = &mut models[m];
        rebase_parts(&mut model.parts, base);
        base = base + count;
        m = m + 1;
    }
    base
}

/// After laying out, the parts of different models never share a vertex.
pub proof fn law_models_do_not_overlap(
    models: Seq<BakedModel>,
    a: int,
    p: int,
    b: int,
    q: int,
)
    requires
        0 <= a < b < models.len(),
        parts_inside(models[a]),
        parts_inside(models[b]),
        0 <= p < models[a].parts@.len(),
        0 <= q < models[b].parts@.len(),
    ensures
        vertices_before(models, a) + models[a].parts@[p].start + models[a].parts@[p].count
            <= vertices_before(models, b) + models[b].parts@[q].start,
{
    lemma_vertices_monotonic(models, a + 1, b);
}

/// One block entity to draw.
#[derive(Clone, Copy, Debug, PartialEq, Eq, Structural)]
pub struct DrawItem {
    pub kind: BlockEntityKind,
    pub variant: u32,
    pub statue_pose: Option<u8>,
}

/// One recorded command. Entries are numbered as [`entry_index`] says.
#[derive(Clone, Copy, Debug, PartialEq, Eq, Structural)]
pub enum DrawCommand {
    BindVertices { entry: usize },
    BindTexture { entry: usize, slot: usize },
    Draw { item: usize, model: usize, part: usize, start: u32, count: u32 },
}

/// Number of entries with geometry: four kinds and the statue.
pub const ENTRY_COUNT: usize = 5;

/// The entry a kind draws with. Signs have no geometry here.
pub open spec fn entry_of(kind: BlockEntityKind) -> Option<usize> {
    match kind {
        BlockEntityKind::Chest => Some(0),
        BlockEntityKind::TrappedChest => Some(1),
        BlockEntityKind::EnderChest => Some(2),
        BlockEntityKind::ShulkerBox => Some(3),
        BlockEntityKind::CopperGolemStatue => Some(4),
        _ => None,
    }
}

pub fn entry_index(kind: BlockEntityKind) -> (entry: Option<usize>)
    ensures
        entry == entry_of(kind),
{
    match kind {
        BlockEntityKind::Chest => Some(0),
        BlockEntityKind::TrappedChest => Some(1),
        BlockEntityKind::EnderChest => Some(2),
        BlockEntityKind::ShulkerBox => Some(3),
        BlockEntityKind::CopperGolemStatue => Some(4),
        _ => None,
    }
}

/// The texture an item uses: its variant, or the last one.
pub open spec fn slot_of(item: DrawItem, entry: KindEntry) -> usize {
    if item.variant < entry.textures {
        item.variant as usize
    } else {
        (entry.textures - 1) as usize
    }
}

/// The model an item uses: a statue's pose, or the variant folded to the models.
pub open spec fn model_of(item: DrawItem, entry: KindEntry) -> usize {
    let models = entry.models@.len();
    if item.kind == BlockEntityKind::CopperGolemStatue {
        let pose = match item.statue_pose {
            Some(p) => p as int,
            None => 0,
        };
        if pose < models {
            pose as usize
        } else {
            (models - 1) as usize
        }
    } else {
        (item.variant as int % models as int) as usize
    }
}

/// The draws of an item's first `n` parts; parts without vertices are skipped.
pub open spec fn part_draws(item: usize, model: usize, parts: Seq<PartRange>, n: int) -> Seq<
    DrawCommand,
>
    decreases n,
{
    if n <= 0 {
        Seq::empty()
    } else {
        let rest = part_draws(item, model, parts, n - 1);
        let part = parts[n - 1];
        if part.count == 0 {
            rest
        } else {
            rest.push(
                DrawCommand::Draw {
                    item,
                    model,
                    part: (n - 1) as usize,
                    start: part.start,
                    count: part.count,
                },
            )
        }
    }
}

/// What is bound while recording.
pub struct Bound {
    pub entry: Option<usize>,
    pub slot: Option<usize>,
}

/// The commands that make `entry` and `slot` current, none if they are.
pub open spec fn binds(bound: Bound, entry: usize, slot: usize) -> Seq<DrawCommand> {
    let first = if bound.entry == Some(entry) {
        Seq::empty()
    } else {
        seq![DrawCommand::BindVertices { entry }]
    };
    let current = if bound.entry == Some(entry) {
        bound.slot
    } else {
        None
    };
    if current == Some(slot) {
        first
    } else {
        first.push(DrawCommand::BindTexture { entry, slot })
    }
}

/// What is bound after the first `n` items.
pub open spec fn bound_after(entries: Seq<KindEntry>, items: Seq<DrawItem>, n: int) -> Bound
    decreases n,
{
    if n <= 0 {
        Bound { entry: None, slot: None }
    } else {
        let item = items[n - 1];
        match entry_of(item.kind) {
            Some(e) => Bound { entry: Some(e), slot: Some(slot_of(item, entries[e as int])) },
            None => bound_after(entries, items, n - 1),
        }
    }
}

/// The commands of the first `n` items.
pub open spec fn commands(entries: Seq<KindEntry>, items: Seq<DrawItem>, n: int) -> Seq<DrawCommand>
    decreases n,
{
    if n <= 0 {
        Seq::empty()
    } else {
        let rest = commands(entries, items, n - 1);
        let item = items[n - 1];
        match entry_of(item.kind) {
            Some(e) => {
                let entry = entries[e as int];
                let model = model_of(item, entry);
                let parts = entry.models@[model as int].parts@;
                rest + binds(bound_after(entries, items, n - 1), e, slot_of(item, entry))
                    + part_draws((n - 1) as usize, model, parts, parts.len() as int)
            },
            None => rest,
        }
    }
}

fn append_parts(
    out: &mut Vec<DrawCommand>,
    item: usize,
    model: usize,
    parts: &Vec<PartRange>,
)
    ensures
        final(out)@ == old(out)@ + part_draws(item, model, parts@, parts@.len() as int),
{
    let ghost before = out@;
    let mut p: usize = 0;
    assert(before + part_draws(item, model, parts@, 0) =~= before);
    while p < parts.len()
        invariant
            p <= parts@.len(),
            out@ == before + part_draws(item, model, parts@, p as int),
        decreases parts@.len() - p,
    {
        let part = parts[p];
        if part.count != 0 {
            out.push(
                DrawCommand::Draw { item, model, part: p, start: part.start, count: part.count },
            );
        }
        p = p + 1;
        assert(out@ =~= before + part_draws(item, model, parts@, p as int));
    }
}

/// Records the block entities in order, binding a vertex buffer or a texture
/// only where it changes.
pub fn plan_draws(entries: &Vec<KindEntry>, items: &[DrawItem]) -> (out: Vec<DrawCommand>)
    requires
        entries@.len() == ENTRY_COUNT,
        forall|e: int| 0 <= e < entries@.len() ==> (#[trigger] entries@[e]).wf(),
    ensures
        out@ == commands(entries@, items@, items@.len() as int),
{
    let mut out: Vec<DrawCommand> = Vec::new();
    let mut bound_entry: Option<usize> = None;
    let mut bound_slot: Option<usize> = None;
    let mut i: usize = 0;
    while i < items.len()
        invariant
            i <= items@.len(),
            entries@.len() == ENTRY_COUNT,
            forall|e: int| 0 <= e < entries@.len() ==> (#[trigger] entries@[e]).wf(),
            out@ == commands(entries@, items@, i as int),
            bound_after(entries@, items@, i as int) == (Bound {
                entry: bound_entry,
                slot: bound_slot,
            }),
        decreases items@.len() - i,
    {
        let item = items[i];
        if let Some(e) = entry_index(item.kind) {
            let entry = &entries[e];
            assert(entry.wf());
            let slot: usize = if (item.variant as usize) < entry.textures {
                item.variant as usize
            } else {
                entry.textures - 1
            };
            let ghost rest = out@;
            let ghost bound = Bound { entry: bound_entry, slot: bound_slot };
            let same_entry = match bound_entry {
                Some(b) => b == e,
                None => false,
            };
            if !same_entry {
                out.push(DrawCommand::BindVertices { entry: e });
                bound_entry = Some(e);
                bound_slot = None;
            }
            let same_slot = match bound_slot {
                Some(b) => b == slot,
                None => false,
            };
            if !same_slot {
                out.push(DrawCommand::BindTexture { entry: e, slot });
                bound_slot = Some(slot);
            }
            assert(out@ =~= rest + binds(bound, e, slot));
            let model: usize = if item.kind == BlockEntityKind::CopperGolemStatue {
                let pose: usize = match item.statue_pose {
                    Some(p) => p as usize,
                    None => 0,
                };
                if pose < entry.models.len() {
                    pose
                } else {
                    entry.models.len() - 1
                }
            } else {
                item.variant as usize % entry.models.len()
            };
            assert(model == model_of(item, *entry));
            assert(model < entry.models@.len());
            append_parts(&mut out, i, model, &entry.models[model].parts);
        }
        i = i + 1;
    }
    out
}

/// A draw together with what was bound when it was recorded.
pub struct Drawn {
    pub vertices: Option<usize>,
    pub texture: Option<(usize, usize)>,
    pub command: DrawCommand,
}

/// A command stream played back: what ends up bound, and every draw with the
/// bindings it saw.
pub struct Playback {
    pub vertices: Option<usize>,
    pub texture: Option<(usize, usize)>,
    pub drawn: Seq<Drawn>,
}

pub open spec fn play(stream: Seq<DrawCommand>) -> Playback
    decreases stream.len(),
{
    if stream.len() == 0 {
        Playback { vertices: None, texture: None, drawn: Seq::empty() }
    } else {
        let state = play(stream.drop_last());
        match stream.last() {
            DrawCommand::BindVertices { entry } => Playback { vertices: Some(entry), ..state },
            DrawCommand::BindTexture { entry, slot } => Playback {
                texture: Some((entry, slot)),
                ..state
            },
            draw => Playback {
                drawn: state.drawn.push(
                    Drawn { vertices: state.vertices, texture: state.texture, command: draw },
                ),
                ..state
            },
        }
    }
}

/// Draws with the given bindings.
pub open spec fn with_bindings(draws: Seq<DrawCommand>, entry: usize, slot: usize) -> Seq<Drawn> {
    draws.map_values(
        |command: DrawCommand|
            Drawn { vertices: Some(entry), texture: Some((entry, slot)), command },
    )
}

/// The draws of the first `n` items, each with its own buffer and texture.
pub open spec fn wanted(entries: Seq<KindEntry>, items: Seq<DrawItem>, n: int) -> Seq<Drawn>
    decreases n,
{
    if n <= 0 {
        Seq::empty()
    } else {
        let rest = wanted(entries, items, n - 1);
        let item = items[n - 1];
        match entry_of(item.kind) {
            Some(e) => {
                let entry = entries[e as int];
                let model = model_of(item, entry);
                let parts = entry.models@[model as int].parts@;
                rest + with_bindings(
                    part_draws((n - 1) as usize, model, parts, parts.len() as int),
                    e,
                    slot_of(item, entry),
                )
            },
            None => rest,
        }
    }
}

proof fn lemma_play_parts(
    stream: Seq<DrawCommand>,
    entry: usize,
    slot: usize,
    item: usize,
    model: usize,
    parts: Seq<PartRange>,
    n: int,
)
    requires
        0 <= n <= parts.len(),
        play(stream).vertices == Some(entry),
        play(stream).texture == Some((entry, slot)),
    ensures
        play(stream + part_draws(item, model, parts, n)) == (Playback {
            drawn: play(stream).drawn + with_bindings(
                part_draws(item, model, parts, n),
                entry,
                slot,
            ),
            ..play(stream)
        }),
    decreases n,
{
    let draws = part_draws(item, model, parts, n);
    if n == 0 {
        assert(stream + draws =~= stream);
        assert(play(stream).drawn + with_bindings(draws, entry, slot) =~= play(stream).drawn);
    } else {
        lemma_play_parts(stream, entry, slot, item, model, parts, n - 1);
        let before = part_draws(item, model, parts, n - 1);
        if parts[n - 1].count != 0 {
            assert((stream + draws).drop_last() =~= stream + before);
            assert((stream + draws).last() == draws.last());
            assert(with_bindings(draws, entry, slot) =~= with_bindings(before, entry, slot).push(
                Drawn { vertices: Some(entry), texture: Some((entry, slot)), command: draws.last() },
            ));
            assert(play(stream).drawn + with_bindings(draws, entry, slot) =~= (play(stream).drawn
                + with_bindings(before, entry, slot)).push(
                Drawn { vertices: Some(entry), texture: Some((entry, slot)), command: draws.last() },
            ));
        }
    }
}

/// Skipping redundant binds changes nothing: played back, the recorded commands
/// draw every part of every item with the buffer and texture of that item.
pub proof fn law_every_draw_sees_its_own_bindings(
    entries: Seq<KindEntry>,
    items: Seq<DrawItem>,
    n: int,
)
    requires
        0 <= n <= items.len(),
    ensures
        play(commands(entries, items, n)).drawn == wanted(entries, items, n),
        match bound_after(entries, items, n).entry {
            Some(e) => {
                &&& play(commands(entries, items, n)).vertices == Some(e)
                &&& bound_after(entries, items, n).slot is Some
                &&& play(commands(entries, items, n)).texture == Some(
                    (e, bound_after(entries, items, n).slot->0),
                )
            },
            None => bound_after(entries, items, n).slot is None,
        },
    decreases n,
{
    if n > 0 {
        law_every_draw_sees_its_own_bindings(entries, items, n - 1);
        let item = items[n - 1];
        match entry_of(item.kind) {
            Some(e) => {
                let entry = entries[e as int];
                let slot = slot_of(item, entry);
                let model = model_of(item, entry);
                let parts = entry.models@[model as int].parts@;
                let rest = commands(entries, items, n - 1);
                let bound = bound_after(entries, items, n - 1);
                let extra = binds(bound, e, slot);
                let vertices = DrawCommand::BindVertices { entry: e };
                let texture = DrawCommand::BindTexture { entry: e, slot };
                if bound.entry != Some(e) {
                    assert(extra =~= seq![vertices].push(texture));
                    assert((rest + extra).drop_last() =~= rest.push(vertices));
                    assert(rest.push(vertices).drop_last() =~= rest);
                    assert((rest + extra).last() == texture);
                    assert(play(rest.push(vertices)).vertices == Some(e));
                    assert(play(rest.push(vertices)).drawn == play(rest).drawn);
                } else if bound.slot != Some(slot) {
                    assert(extra =~= seq![texture]);
                    assert((rest + extra).drop_last() =~= rest);
                    assert((rest + extra).last() == texture);
                } else {
                    assert(extra =~= Seq::empty());
                    assert(rest + extra =~= rest);
                }
                assert(play(rest + extra).drawn == play(rest).drawn);
                lemma_play_parts(
                    rest + extra,
                    e,
                    slot,
                    (n - 1) as usize,
                    model,
                    parts,
                    parts.len() as int,
                );
            },
            None => {},
        }
    }
}

/// One glyph quad of a sign line. Offsets are in half pixels.
#[derive(Clone, Copy, Debug, PartialEq, Eq, Structural)]
pub struct SignQuad {
    pub glyph: usize,
    pub dx: i8,
    pub dy: i8,
}

/// Pixel size of a glyph in the atlas.
#[derive(Clone, Copy, Debug, PartialEq, Eq, Structural)]
pub struct GlyphSize {
    pub width: u32,
    pub height: u32,
}

pub const OUTLINE_DX: [i8; 8] = [-1, 0, 1, -1, 1, -1, 0, 1];

pub const OUTLINE_DY: [i8; 8] = [-1, -1, -1, 0, 0, 1, 1, 1];

/// Glyphs without pixels draw nothing.
pub open spec fn visible(size: GlyphSize) -> bool {
    size.width != 0 && size.height != 0
}

/// The first `k` outline copies of one glyph.
pub open spec fn outline_copies(glyph: usize, k: nat) -> Seq<SignQuad> {
    Seq::new(k, |i: int| SignQuad { glyph, dx: OUTLINE_DX[i], dy: OUTLINE_DY[i] })
}

/// The outline quads of the first `n` glyphs: eight shifted copies each.
pub open spec fn outline_quads(glyphs: Seq<GlyphSize>, n: int) -> Seq<SignQuad>
    decreases n,
{
    if n <= 0 {
        Seq::empty()
    } else {
        outline_quads(glyphs, n - 1) + (if visible(glyphs[n - 1]) {
            outline_copies((n - 1) as usize, 8)
        } else {
            Seq::empty()
        })
    }
}

/// The quads of the first `n` glyphs themselves.
pub open spec fn face_quads(glyphs: Seq<GlyphSize>, n: int) -> Seq<SignQuad>
    decreases n,
{
    if n <= 0 {
        Seq::empty()
    } else {
        face_quads(glyphs, n - 1) + (if visible(glyphs[n - 1]) {
            seq![SignQuad { glyph: (n - 1) as usize, dx: 0, dy: 0 }]
        } else {
            Seq::empty()
        })
    }
}

/// The quads of a line: its outline, if any, below its glyphs.
pub open spec fn line_quads(glyphs: Seq<GlyphSize>, outline: bool) -> Seq<SignQuad> {
    (if outline {
        outline_quads(glyphs, glyphs.len() as int)
    } else {
        Seq::empty()
    }) + face_quads(glyphs, glyphs.len() as int)
}

/// As much of `quads` as there is room for.
pub open spec fn cut(quads: Seq<SignQuad>, room: int) -> Seq<SignQuad> {
    if quads.len() <= room {
        quads
    } else {
        quads.take(room)
    }
}

fn push_sign_quad(quads: &mut Vec<SignQuad>, room: usize, quad: SignQuad, Ghost(all): Ghost<Seq<SignQuad>>)
    requires
        old(quads)@ == cut(all, room as int),
    ensures
        final(quads)@ == cut(all.push(quad), room as int),
{
    if quads.len() < room {
        quads.push(quad);
    }
    assert(quads@ =~= cut(all.push(quad), room as int));
}

/// Quads of one sign line, given that `used` vertices are taken: the line's
/// quads as far as they fit the vertex buffer.
pub fn plan_sign_line(glyphs: &[GlyphSize], outline: bool, used: usize) -> (quads: Vec<SignQuad>)
    requires
        used <= MAX_SIGN_VERTICES,
    ensures
        quads@ == cut(line_quads(glyphs@, outline), (MAX_SIGN_VERTICES - used) / 6),
{
    let room: usize = (MAX_SIGN_VERTICES - used) / 6;
    let dxs = OUTLINE_DX;
    let dys = OUTLINE_DY;
    let mut quads: Vec<SignQuad> = Vec::new();
    let ghost mut all: Seq<SignQuad> = Seq::empty();
    let mut g: usize = 0;
    if outline {
        while g < glyphs.len()
            invariant
                g <= glyphs@.len(),
                dxs == OUTLINE_DX,
                dys == OUTLINE_DY,
                all == outline_quads(glyphs@, g as int),
                quads@ == cut(all, room as int),
            decreases glyphs@.len() - g,
        {
            if glyphs[g].width != 0 && glyphs[g].height != 0 {
                let mut k: usize = 0;
                let ghost start = all;
                assert(start + outline_copies(g, 0) =~= start);
                while k < 8
                    invariant
                        k <= 8,
                        dxs == OUTLINE_DX,
                        dys == OUTLINE_DY,
                        all == start + outline_copies(g, k as nat),
                        quads@ == cut(all, room as int),
                    decreases 8 - k,
                {
                    let quad = SignQuad { glyph: g, dx: dxs[k], dy: dys[k] };
                    push_sign_quad(&mut quads, room, quad, Ghost(all));
                    proof {
                        all = all.push(quad);
                        assert(all =~= start + outline_copies(g, (k + 1) as nat));
                    }
                    k = k + 1;
                }
            } else {
                assert(all + Seq::<SignQuad>::empty() =~= all);
            }
            g = g + 1;
        }
    }
    let ghost below = all;
    assert(below + face_quads(glyphs@, 0) =~= below);
    g = 0;
    while g < glyphs.len()
        invariant
            g <= glyphs@.len(),
            all == below + face_quads(glyphs@, g as int),
            quads@ == cut(all, room as int),
        decreases glyphs@.len() - g,
    {
        if glyphs[g].width != 0 && glyphs[g].height != 0 {
            let quad = SignQuad { glyph: g, dx: 0, dy: 0 };
            push_sign_quad(&mut quads, room, quad, Ghost(all));
            proof {
                all = all.push(quad);
            }
        }
        g = g + 1;
        assert(all =~= below + face_quads(glyphs@, g as int));
    }
    quads
}

/// A line never runs past the vertex buffer.
pub proof fn law_sign_line_fits(glyphs: Seq<GlyphSize>, outline: bool, used: int)
    requires
        0 <= used <= MAX_SIGN_VERTICES,
    ensures
        used + 6 * cut(line_quads(glyphs, outline), (MAX_SIGN_VERTICES - used) / 6).len()
            <= MAX_SIGN_VERTICES,
{
}

/// Vertices drawn out of `len`: whole quads that fit the buffer.
pub fn sign_draw_len(len: usize) -> (drawn: usize)
    ensures
        drawn <= len,
        drawn <= MAX_SIGN_VERTICES,
        drawn % 6 == 0,
        len <= MAX_SIGN_VERTICES ==> len - drawn < 6,
        len > MAX_SIGN_VERTICES ==> drawn == 65532,
{
    let len: usize = if len < MAX_SIGN_VERTICES {
        len
    } else {
        MAX_SIGN_VERTICES
    };
    len - len % 6
}

/// Total advance of the first `n` glyphs.
pub open spec fn width_of(advances: Seq<i64>, n: int) -> int
    decreases n,
{
    if n <= 0 {
        0
    } else {
        width_of(advances, n - 1) + advances[n - 1]
    }
}

/// Characters of a sign line that are looked at.
pub const MAX_SIGN_CHARS: usize = 256;

/// An advance of no more than 2^40 either way.
pub open spec fn small_advance(advance: i64) -> bool {
    -0x100_0000_0000 <= advance <= 0x100_0000_0000
}

/// How many glyphs fit a line of width `limit`, and how wide they are together. The line
/// ends before the first glyph that would reach past the limit.
pub fn fit_line(advances: &[i64], limit: i64) -> (fit: (usize, i64))
    requires
        0 <= limit,
        forall|i: int| 0 <= i < advances@.len() ==> small_advance(#[trigger] advances@[i]),
    ensures
        fit.0 <= advances@.len(),
        fit.0 <= MAX_SIGN_CHARS,
        fit.1 == width_of(advances@, fit.0 as int),
        forall|k: int| 0 <= k <= fit.0 ==> #[trigger] width_of(advances@, k) <= limit,
        fit.0 < advances@.len() && fit.0 < MAX_SIGN_CHARS ==> width_of(advances@, fit.0 + 1) > limit,
        -0x1_0000_0000_0000 <= fit.1 <= 0x1_0000_0000_0000,
{
    let mut n: usize = 0;
    let mut width: i64 = 0;
    while n < advances.len() && n < MAX_SIGN_CHARS
        invariant
            n <= advances@.len(),
            n <= MAX_SIGN_CHARS,
            0 <= limit,
            forall|i: int| 0 <= i < advances@.len() ==> small_advance(#[trigger] advances@[i]),
            width == width_of(advances@, n as int),
            -0x100_0000_0000 * n <= width <= 0x100_0000_0000 * n,
            forall|k: int| 0 <= k <= n ==> #[trigger] width_of(advances@, k) <= limit,
        decreases advances@.len() - n,
    {
        assert(small_advance(advances@[n as int]));
        assert(width_of(advances@, n + 1) == width + advances@[n as int]);
        let next: i64 = width + advances[n];
        if next > limit {
            return (n, width);
        }
        width = next;
        n = n + 1;
    }
    (n, width)
}

/// Ink of a sign face.
#[derive(Clone, Copy, Debug, PartialEq, Eq, Structural)]
pub struct SignInk {
    /// The dark colour is the pale one used on glowing black text.
    pub pale_dark: bool,
    /// Glyphs take the dye colour itself, unlit.
    pub full_bright: bool,
    pub outline: bool,
}

/// Glowing text ignores light; it is outlined up close, and black at any range.
pub fn sign_ink(black: bool, glowing: bool, near: bool) -> (ink: SignInk)
    ensures
        ink.pale_dark == (black && glowing),
        ink.full_bright == glowing,
        ink.outline == (glowing && (black || near)),
{
    SignInk {
        pale_dark: black && glowing,
        full_bright: glowing,
        outline: glowing && (black || near),
    }
}

/// The first asset that loaded, in order of preference.
pub fn first_loaded(loaded: &[bool]) -> (index: Option<usize>)
    ensures
        match index {
            Some(i) => i < loaded@.len() && loaded@[i as int] && forall|j: int|
                0 <= j < i ==> !loaded@[j],
            None => forall|j: int| 0 <= j < loaded@.len() ==> !loaded@[j],
        },
{
    let mut i: usize = 0;
    while i < loaded.len()
        invariant
            i <= loaded@.len(),
            forall|j: int| 0 <= j < i ==> !loaded@[j],
        decreases loaded@.len() - i,
    {
        if loaded[i] {
            return Some(i);
        }
        i = i + 1;
    }
    None
}

/// The models of a kind lie end to end in its buffer: the first at its beginning, each
/// next where the one before it ends, and a part where its model puts it.
pub proof fn law_models_lie_end_to_end(models: Seq<BakedModel>, m: int, part: PartRange)
    requires
        0 <= m < models.len(),
        part.start + vertices_before(models, m) <= u32::MAX,
    ensures
        vertices_before(models, 0) == 0,
        vertices_before(models, m + 1) - vertices_before(models, m) == models[m].vertex_count,
        rebased(part, vertices_before(models, m)).start - part.start == vertices_before(models, m),
        rebased(part, vertices_before(models, m)).count == part.count,
{
}

/// A draw, with what was bound for it, shows a part of the item it names: from the
/// vertices of the item's kind, in the texture of its variant or the last there is, and
/// the part of the model that its variant chooses, or its pose if it is a statue.
pub open spec fn shows_its_item(entries: Seq<KindEntry>, items: Seq<DrawItem>, d: Drawn) -> bool {
    let item = items[d.command->item as int];
    let e: int = match item.kind {
        BlockEntityKind::Chest => 0,
        BlockEntityKind::TrappedChest => 1,
        BlockEntityKind::EnderChest => 2,
        BlockEntityKind::ShulkerBox => 3,
        BlockEntityKind::CopperGolemStatue => 4,
        _ => -1,
    };
    let entry = entries[e];
    let models = entry.models@.len() as int;
    let pose: int = match item.statue_pose {
        Some(p) => p as int,
        None => 0,
    };
    let model = d.command->model as int;
    let parts = entry.models@[model].parts@;
    &&& d.command is Draw
    &&& 0 <= d.command->item < items.len()
    &&& 0 <= e
    &&& d.vertices == Some(e as usize)
    &&& d.texture matches Some((from, slot)) && from == e && (if item.variant < entry.textures {
        slot == item.variant
    } else {
        slot == entry.textures - 1
    })
    &&& 0 <= model < models
    &&& e < 4 ==> model == item.variant as int % models
    &&& e == 4 ==> model == pose || (pose >= models && model == models - 1)
    &&& d.command->part < parts.len()
    &&& d.command->start == parts[d.command->part as int].start
    &&& d.command->count == parts[d.command->part as int].count
    &&& d.command->count > 0
}

/// There are entries for all kinds, each with something to draw.
pub open spec fn entries_ready(entries: Seq<KindEntry>) -> bool {
    &&& entries.len() == 5
    &&& forall|e: int| 0 <= e < entries.len() ==> (#[trigger] entries[e]).wf()
}

proof fn lemma_parts_of(item: usize, model: usize, parts: Seq<PartRange>, n: int)
    requires
        0 <= n <= parts.len() <= usize::MAX,
    ensures
        ({
            let draws = part_draws(item, model, parts, n);
            &&& forall|k: int|
                0 <= k < draws.len() ==> {
                    let d = #[trigger] draws[k];
                    &&& d is Draw
                    &&& d->item == item
                    &&& d->model == model
                    &&& d->part < n
                    &&& d->start == parts[d->part as int].start
                    &&& d->count == parts[d->part as int].count
                    &&& d->count > 0
                }
            &&& forall|j: int, k: int|
                0 <= j < k < draws.len() ==> (#[trigger] draws[j])->part < (
                #[trigger] draws[k])->part
            &&& forall|p: int|
                0 <= p < n && (#[trigger] parts[p]).count > 0 ==> exists|k: int|
                    0 <= k < draws.len() && (#[trigger] draws[k])->part == p
        }),
    decreases n,
{
    if n > 0 {
        lemma_parts_of(item, model, parts, n - 1);
        let before = part_draws(item, model, parts, n - 1);
        let draws = part_draws(item, model, parts, n);
        assert forall|p: int| 0 <= p < n && (#[trigger] parts[p]).count > 0 implies exists|k: int|
            0 <= k < draws.len() && (#[trigger] draws[k])->part == p by {
            if p == n - 1 {
                assert(draws[before.len() as int]->part == p);
            } else {
                let k = choose|k: int| 0 <= k < before.len() && (#[trigger] before[k])->part == p;
                assert(draws[k] == before[k]);
            }
        }
    }
}

proof fn lemma_wanted_shows(entries: Seq<KindEntry>, items: Seq<DrawItem>, n: int)
    requires
        entries_ready(entries),
        0 <= n <= items.len() <= usize::MAX,
    ensures
        ({
            let all = wanted(entries, items, n);
            &&& forall|k: int|
                0 <= k < all.len() ==> shows_its_item(entries, items, #[trigger] all[k])
                    && all[k].command->item < n
            &&& forall|j: int, k: int|
                0 <= j < k < all.len() ==> {
                    let a = (#[trigger] all[j]).command;
                    let b = (#[trigger] all[k]).command;
                    a->item < b->item || (a->item == b->item && a->part < b->part)
                }
        }),
    decreases n,
{
    if n > 0 {
        lemma_wanted_shows(entries, items, n - 1);
        let before = wanted(entries, items, n - 1);
        let all = wanted(entries, items, n);
        let item = items[n - 1];
        if let Some(e) = entry_of(item.kind) {
            let entry = entries[e as int];
            assert(entry.wf());
            let model = model_of(item, entry);
            let parts = entry.models@[model as int].parts@;
            assert(entry.models@.len() == entry.models.len());
            assert(parts.len() == entry.models@[model as int].parts.len());
            let draws = part_draws((n - 1) as usize, model, parts, parts.len() as int);
            lemma_parts_of((n - 1) as usize, model, parts, parts.len() as int);
            assert forall|k: int| before.len() <= k < all.len() implies shows_its_item(
                entries,
                items,
                #[trigger] all[k],
            ) && all[k].command == draws[k - before.len()] by {
                assert(all[k].command == draws[k - before.len()]);
            }
            assert forall|k: int| 0 <= k < before.len() implies all[k] == #[trigger] before[k] by {}
            assert forall|k: int| 0 <= k < all.len() implies shows_its_item(
                entries,
                items,
                #[trigger] all[k],
            ) && all[k].command->item < n by {
                if k < before.len() {
                    assert(all[k] == before[k]);
                }
            }
            assert forall|j: int, k: int| 0 <= j < k < all.len() implies ({
                let a = (#[trigger] all[j]).command;
                let b = (#[trigger] all[k]).command;
                a->item < b->item || (a->item == b->item && a->part < b->part)
            }) by {
                if k < before.len() {
                    assert(all[j] == before[j] && all[k] == before[k]);
                } else if j < before.len() {
                    assert(all[j] == before[j]);
                    assert(all[k].command == draws[k - before.len()]);
                } else {
                    assert(all[j].command == draws[j - before.len()]);
                    assert(all[k].command == draws[k - before.len()]);
                }
            }
        }
    }
}

/// Every draw shows a part of one of the items, and the draws come item by item and
/// part by part, none of them twice.
pub proof fn law_block_entities_look_as_asked(
    entries: Seq<KindEntry>,
    items: Seq<DrawItem>,
    j: int,
    k: int,
)
    requires
        entries_ready(entries),
        items.len() <= usize::MAX,
        0 <= j < k < play(commands(entries, items, items.len() as int)).drawn.len(),
    ensures
        ({
            let all = play(commands(entries, items, items.len() as int)).drawn;
            let a = all[j].command;
            let b = all[k].command;
            &&& shows_its_item(entries, items, all[j])
            &&& shows_its_item(entries, items, all[k])
            &&& a->item < b->item || (a->item == b->item && a->part < b->part)
        }),
{
    law_every_draw_sees_its_own_bindings(entries, items, items.len() as int);
    lemma_wanted_shows(entries, items, items.len() as int);
}

/// Every part with vertices of every item that has a model is drawn.
pub proof fn law_every_part_is_drawn(
    entries: Seq<KindEntry>,
    items: Seq<DrawItem>,
    n: int,
    i: int,
    model: int,
    part: int,
)
    requires
        entries_ready(entries),
        0 <= i < n <= items.len() <= usize::MAX,
        items[i].kind != BlockEntityKind::Sign,
        items[i].kind != BlockEntityKind::Other,
        ({
            let item = items[i];
            let e: int = match item.kind {
                BlockEntityKind::Chest => 0,
                BlockEntityKind::TrappedChest => 1,
                BlockEntityKind::EnderChest => 2,
                BlockEntityKind::ShulkerBox => 3,
                _ => 4,
            };
            let models = entries[e].models@.len() as int;
            let pose: int = match item.statue_pose {
                Some(p) => p as int,
                None => 0,
            };
            &&& 0 <= model < models
            &&& e < 4 ==> model == item.variant as int % models
            &&& e == 4 ==> model == pose || (pose >= models && model == models - 1)
            &&& 0 <= part < entries[e].models@[model].parts@.len()
            &&& entries[e].models@[model].parts@[part].count > 0
        }),
    ensures
        exists|k: int|
            0 <= k < play(commands(entries, items, n)).drawn.len() && ({
                let d = (#[trigger] play(commands(entries, items, n)).drawn[k]).command;
                d->item == i && d->model == model && d->part == part
            }),
    decreases n,
{
    law_every_draw_sees_its_own_bindings(entries, items, n);
    let all = wanted(entries, items, n);
    let before = wanted(entries, items, n - 1);
    let item = items[n - 1];
    if i < n - 1 {
        law_every_part_is_drawn(entries, items, n - 1, i, model, part);
        law_every_draw_sees_its_own_bindings(entries, items, n - 1);
        let k = choose|k: int|
            0 <= k < before.len() && ({
                let d = (#[trigger] before[k]).command;
                d->item == i && d->model == model && d->part == part
            });
        assert(all[k] == before[k]);
    } else {
        let e = entry_of(item.kind)->0;
        let entry = entries[e as int];
        assert(entry.wf());
        assert(entry.models@.len() == entry.models.len());
        let parts = entry.models@[model].parts@;
        assert(parts.len() == entry.models@[model].parts.len());
        let draws = part_draws((n - 1) as usize, model as usize, parts, parts.len() as int);
        lemma_parts_of((n - 1) as usize, model as usize, parts, parts.len() as int);
        assert(parts[part].count > 0);
        let k = choose|k: int| 0 <= k < draws.len() && (#[trigger] draws[k])->part == part;
        assert(all[before.len() + k].command == draws[k]);
    }
}

} // verus!
