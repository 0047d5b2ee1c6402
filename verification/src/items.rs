//! Item meshes by name, and the order items are drawn in.
use vstd::prelude::*;
use vstd::string::*;

use crate::pipeline_state::PipelineKind;
use crate::text::same_text;
use crate::text_map::TextMap;

verus! {

/// A buffer on the device, by its number.
pub type BufferId = u64;

/// The box around a mesh: low and high corner, as the bits of their coordinates.
#[derive(Clone, Copy, Debug, PartialEq, Eq)]
pub struct MeshBounds {
    pub low: [u32; 3],
    pub high: [u32; 3],
}

/// A mesh that was uploaded.
pub struct MeshEntry {
    pub buffer: BufferId,
    /// The same mesh in inventory order, where the order matters.
    pub gui_buffer: Option<BufferId>,
    pub vertex_count: u32,
    pub is_3d_model: bool,
    pub translucent: bool,
    pub bounds: MeshBounds,
    pub tint_rgbs: Vec<(u8, u8, u8)>,
}

/// What placing an item needs to know of its mesh.
#[derive(Clone, Copy, Debug, PartialEq, Eq)]
pub struct ItemMeshInfo {
    pub is_block_model: bool,
    pub bounds: MeshBounds,
}

/// What is to be built for an item.
#[derive(Clone, Copy, Debug, PartialEq, Eq, Structural)]
pub enum MeshPlan {
    /// There is a mesh, or there would be nothing in it.
    Keep,
    /// A mesh, and one in inventory order beside it if `gui_order`.
    Build { gui_order: bool },
}

/// How a mesh is drawn.
pub struct MeshReport {
    pub vertex_count: u32,
    pub packed_rgb: Vec<(u8, u8, u8)>,
    pub translucent: bool,
    pub render_path: &'static str,
    pub blend: &'static str,
    pub gui_depth_write: bool,
    pub gui_alpha_blend: &'static str,
}

/// The uploaded meshes.
pub struct ItemMeshes {
    meshes: TextMap<MeshEntry>,
}

impl View for ItemMeshes {
    type V = Map<Seq<char>, MeshEntry>;

    closed spec fn view(&self) -> Map<Seq<char>, MeshEntry> {
        self.meshes@
    }
}

impl ItemMeshes {
    /// The map of meshes is sound.
    pub closed spec fn wf(self) -> bool {
        self.meshes.wf()
    }

    pub fn new() -> (meshes: Self)
        ensures
            meshes.wf(),
            meshes@ == Map::<Seq<char>, MeshEntry>::empty(),
    {
        ItemMeshes { meshes: TextMap::new() }
    }

    /// Whether an item has a mesh.
    pub fn contains(&self, name: &str) -> (known: bool)
        requires
            self.wf(),
        ensures
            known == self@.dom().contains(name@),
    {
        self.meshes.get(name).is_some()
    }

    /// What is to be built for an item made of quads: nothing twice, nothing empty,
    /// and the inventory order only where quads can be seen through.
    pub fn plan_mesh(&self, name: &str, vertex_count: usize, translucent: bool) -> (plan: MeshPlan)
        requires
            self.wf(),
        ensures
            plan == (if self@.dom().contains(name@) || vertex_count == 0 {
                MeshPlan::Keep
            } else {
                MeshPlan::Build { gui_order: translucent }
            }),
    {
        if self.contains(name) || vertex_count == 0 {
            MeshPlan::Keep
        } else {
            MeshPlan::Build { gui_order: translucent }
        }
    }

    /// What is to be built for an item made from a sprite; one whose sprite is not
    /// on the atlas gets nothing.
    pub fn plan_flat_mesh(&self, name: &str, has_region: bool, vertex_count: usize) -> (plan:
        MeshPlan)
        requires
            self.wf(),
        ensures
            plan == (if self@.dom().contains(name@) || !has_region || vertex_count == 0 {
                MeshPlan::Keep
            } else {
                MeshPlan::Build { gui_order: false }
            }),
    {
        if self.contains(name) || !has_region || vertex_count == 0 {
            MeshPlan::Keep
        } else {
            MeshPlan::Build { gui_order: false }
        }
    }

    /// Records an uploaded mesh.
    pub fn insert_mesh(&mut self, name: &str, entry: MeshEntry)
        requires
            old(self).wf(),
        ensures
            final(self).wf(),
            final(self)@ == old(self)@.insert(name@, entry),
    {
        self.meshes.insert(name.to_owned(), entry);
    }

    /// What placing an item needs to know, if it has a mesh.
    pub fn mesh_info(&self, name: &str) -> (info: Option<ItemMeshInfo>)
        requires
            self.wf(),
        ensures
            info == (if self@.dom().contains(name@) {
                Some(
                    ItemMeshInfo {
                        is_block_model: self@[name@].is_3d_model,
                        bounds: self@[name@].bounds,
                    },
                )
            } else {
                None
            }),
    {
        match self.meshes.get(name) {
            Some(m) => Some(ItemMeshInfo { is_block_model: m.is_3d_model, bounds: m.bounds }),
            None => None,
        }
    }

    /// The buffer of an item's mesh and the vertices in it.
    pub fn mesh_handle(&self, name: &str) -> (handle: Option<(BufferId, u32)>)
        requires
            self.wf(),
        ensures
            handle == (if self@.dom().contains(name@) {
                Some((self@[name@].buffer, self@[name@].vertex_count))
            } else {
                None
            }),
    {
        match self.meshes.get(name) {
            Some(m) => Some((m.buffer, m.vertex_count)),
            None => None,
        }
    }

    /// The same for the inventory: the buffer in inventory order where there is one.
    pub fn gui_mesh_handle(&self, name: &str) -> (handle: Option<(BufferId, u32)>)
        requires
            self.wf(),
        ensures
            handle == (if self@.dom().contains(name@) {
                Some(
                    (
                        match self@[name@].gui_buffer {
                            Some(b) => b,
                            None => self@[name@].buffer,
                        },
                        self@[name@].vertex_count,
                    ),
                )
            } else {
                None
            }),
    {
        match self.meshes.get(name) {
            Some(m) => {
                let buffer = match m.gui_buffer {
                    Some(b) => b,
                    None => m.buffer,
                };
                Some((buffer, m.vertex_count))
            },
            None => None,
        }
    }

    /// Whether an item has a mesh that can be seen through.
    pub fn mesh_is_translucent(&self, name: &str) -> (translucent: bool)
        requires
            self.wf(),
        ensures
            translucent == (self@.dom().contains(name@) && self@[name@].translucent),
    {
        match self.meshes.get(name) {
            Some(m) => m.translucent,
            None => false,
        }
    }

    /// How an item's mesh is drawn.
    pub fn debug_mesh(&self, name: &str) -> (report: Option<MeshReport>)
        requires
            self.wf(),
        ensures
            report is Some <==> self@.dom().contains(name@),
            report matches Some(r) ==> {
                let m = self@[name@];
                &&& r.vertex_count == m.vertex_count
                &&& r.packed_rgb@ == m.tint_rgbs@
                &&& r.translucent == m.translucent
                &&& r.gui_depth_write == !m.translucent
                &&& r.render_path == (if m.translucent {
                    "ItemEntityPipeline::translucent"
                } else {
                    "ItemEntityPipeline::cutout"
                })
                &&& r.blend == (if m.translucent {
                    "src-alpha,one-minus-src-alpha"
                } else {
                    "disabled"
                })
                &&& r.gui_alpha_blend == (if m.translucent {
                    "one,one-minus-src-alpha"
                } else {
                    "one,zero"
                })
            },
    {
        match self.meshes.get(name) {
            Some(m) => {
                let mut packed_rgb: Vec<(u8, u8, u8)> = Vec::new();
                let mut i: usize = 0;
                while i < m.tint_rgbs.len()
                    invariant
                        i <= m.tint_rgbs@.len(),
                        packed_rgb@ == m.tint_rgbs@.take(i as int),
                    decreases m.tint_rgbs@.len() - i,
                {
                    packed_rgb.push(m.tint_rgbs[i]);
                    i = i + 1;
                    assert(packed_rgb@ =~= m.tint_rgbs@.take(i as int));
                }
                assert(packed_rgb@ =~= m.tint_rgbs@);
                let (render_path, blend, gui_alpha_blend) = if m.translucent {
                    (
                        "ItemEntityPipeline::translucent",
                        "src-alpha,one-minus-src-alpha",
                        "one,one-minus-src-alpha",
                    )
                } else {
                    ("ItemEntityPipeline::cutout", "disabled", "one,zero")
                };
                Some(
                    MeshReport {
                        vertex_count: m.vertex_count,
                        packed_rgb,
                        translucent: m.translucent,
                        render_path,
                        blend,
                        gui_depth_write: !m.translucent,
                        gui_alpha_blend,
                    },
                )
            },
            None => None,
        }
    }

    /// Forgets all meshes and hands out their buffers to be freed.
    pub fn clear_meshes(&mut self) -> (list: Vec<(String, MeshEntry)>)
        requires
            old(self).wf(),
        ensures
            final(self).wf(),
            final(self)@ == Map::<Seq<char>, MeshEntry>::empty(),
            crate::text_map::lists(list@, old(self)@),
    {
        self.meshes.drain()
    }

    /// The draws of a frame's items: first those that hide what is behind them,
    /// then those that can be seen through, each pass bound when it first draws.
    pub fn plan_draws(&self, items: &Vec<String>) -> (list: Vec<ItemCommand>)
        requires
            self.wf(),
        ensures
            list@ == pass_commands(self@, items@, false, items@.len() as int) + pass_commands(
                self@,
                items@,
                true,
                items@.len() as int,
            ),
    {
        let mut list: Vec<ItemCommand> = Vec::new();
        self.record_pass(items, false, &mut list);
        self.record_pass(items, true, &mut list);
        assert(list@ =~= pass_commands(self@, items@, false, items@.len() as int) + pass_commands(
            self@,
            items@,
            true,
            items@.len() as int,
        ));
        list
    }

    fn record_pass(&self, items: &Vec<String>, translucent: bool, list: &mut Vec<ItemCommand>)
        requires
            self.wf(),
        ensures
            final(list)@ == old(list)@ + pass_commands(
                self@,
                items@,
                translucent,
                items@.len() as int,
            ),
    {
        let ghost before = list@;
        let mut bound = false;
        let mut i: usize = 0;
        assert(list@ =~= before + pass_commands(self@, items@, translucent, 0));
        while i < items.len()
            invariant
                self.wf(),
                i <= items@.len(),
                bound == (pass_commands(self@, items@, translucent, i as int).len() > 0),
                list@ == before + pass_commands(self@, items@, translucent, i as int),
            decreases items@.len() - i,
        {
            if let Some(mesh) = self.meshes.get(items[i].as_str()) {
                if mesh.translucent == translucent {
                    if !bound {
                        list.push(ItemCommand::Bind { translucent });
                        bound = true;
                    }
                    list.push(
                        ItemCommand::Draw {
                            item: i,
                            buffer: mesh.buffer,
                            vertex_count: mesh.vertex_count,
                        },
                    );
                }
            }
            i = i + 1;
            assert(list@ =~= before + pass_commands(self@, items@, translucent, i as int));
        }
    }
}

/// A step of drawing a frame's items.
#[derive(Clone, Copy, Debug, PartialEq, Eq, Structural)]
pub enum ItemCommand {
    Bind { translucent: bool },
    Draw { item: usize, buffer: BufferId, vertex_count: u32 },
}

/// An item is drawn in a pass.
pub open spec fn in_pass(
    meshes: Map<Seq<char>, MeshEntry>,
    items: Seq<String>,
    translucent: bool,
    i: int,
) -> bool {
    meshes.dom().contains(items[i]@) && meshes[items[i]@].translucent == translucent
}

/// The steps of one pass over the first `n` items.
pub open spec fn pass_commands(
    meshes: Map<Seq<char>, MeshEntry>,
    items: Seq<String>,
    translucent: bool,
    n: int,
) -> Seq<ItemCommand>
    decreases n,
{
    if n <= 0 {
        Seq::empty()
    } else {
        let before = pass_commands(meshes, items, translucent, n - 1);
        if in_pass(meshes, items, translucent, n - 1) {
            let mesh = meshes[items[n - 1]@];
            let bound = if before.len() == 0 {
                seq![ItemCommand::Bind { translucent }]
            } else {
                before
            };
            bound.push(
                ItemCommand::Draw {
                    item: (n - 1) as usize,
                    buffer: mesh.buffer,
                    vertex_count: mesh.vertex_count,
                },
            )
        } else {
            before
        }
    }
}

/// How often an item is drawn.
pub open spec fn draws_of(list: Seq<ItemCommand>, item: int, n: int) -> int
    decreases n,
{
    if n <= 0 {
        0
    } else {
        draws_of(list, item, n - 1) + (if list[n - 1] matches ItemCommand::Draw { item: i, .. }
            && i == item {
            1int
        } else {
            0
        })
    }
}

proof fn lemma_draws_append(a: Seq<ItemCommand>, b: Seq<ItemCommand>, item: int, n: int)
    requires
        0 <= n <= b.len(),
    ensures
        draws_of(a + b, item, a.len() + n) == draws_of(a, item, a.len() as int) + draws_of(
            b,
            item,
            n,
        ),
    decreases n,
{
    if n > 0 {
        lemma_draws_append(a, b, item, n - 1);
        assert((a + b)[a.len() + n - 1] == b[n - 1]);
    } else {
        lemma_draws_prefix(a + b, a, item, a.len() as int);
    }
}

proof fn lemma_draws_prefix(a: Seq<ItemCommand>, b: Seq<ItemCommand>, item: int, n: int)
    requires
        forall|i: int| 0 <= i < n ==> a[i] == b[i],
    ensures
        draws_of(a, item, n) == draws_of(b, item, n),
    decreases n,
{
    if n > 0 {
        lemma_draws_prefix(a, b, item, n - 1);
        assert(a[n - 1] == b[n - 1]);
    }
}

proof fn lemma_pass_draws(
    meshes: Map<Seq<char>, MeshEntry>,
    items: Seq<String>,
    translucent: bool,
    n: int,
    item: int,
)
    requires
        0 <= n <= items.len(),
        items.len() <= usize::MAX,
        0 <= item < items.len(),
    ensures
        ({
            let list = pass_commands(meshes, items, translucent, n);
            &&& draws_of(list, item, list.len() as int) == (if item < n && in_pass(
                meshes,
                items,
                translucent,
                item,
            ) {
                1int
            } else {
                0
            })
            &&& list.len() > 0 ==> list[0] == (ItemCommand::Bind { translucent })
            &&& forall|k: int|
                0 < k < list.len() ==> (#[trigger] list[k]) is Draw
        }),
    decreases n,
{
    if n > 0 {
        lemma_pass_draws(meshes, items, translucent, n - 1, item);
        let before = pass_commands(meshes, items, translucent, n - 1);
        let list = pass_commands(meshes, items, translucent, n);
        if in_pass(meshes, items, translucent, n - 1) {
            let bound = if before.len() == 0 {
                seq![ItemCommand::Bind { translucent }]
            } else {
                before
            };
            assert(list.len() == bound.len() + 1);
            lemma_draws_prefix(list, bound, item, bound.len() as int);
            assert(draws_of(bound, item, bound.len() as int) == draws_of(
                before,
                item,
                before.len() as int,
            )) by {
                if before.len() == 0 {
                    reveal_with_fuel(draws_of, 2);
                }
            }
        }
    }
}

/// Every item with a mesh is drawn once, every other never.
pub proof fn law_every_item_is_drawn_once(
    meshes: Map<Seq<char>, MeshEntry>,
    items: Seq<String>,
    item: int,
)
    requires
        items.len() <= usize::MAX,
        0 <= item < items.len(),
    ensures
        ({
            let n = items.len() as int;
            let list = pass_commands(meshes, items, false, n) + pass_commands(
                meshes,
                items,
                true,
                n,
            );
            draws_of(list, item, list.len() as int) == (if meshes.dom().contains(items[item]@) {
                1int
            } else {
                0
            })
        }),
{
    let n = items.len() as int;
    let a = pass_commands(meshes, items, false, n);
    let b = pass_commands(meshes, items, true, n);
    lemma_pass_draws(meshes, items, false, n, item);
    lemma_pass_draws(meshes, items, true, n, item);
    lemma_draws_append(a, b, item, b.len() as int);
}

/// Each pass is bound before its first draw and not again.
pub proof fn law_passes_are_bound_once(
    meshes: Map<Seq<char>, MeshEntry>,
    items: Seq<String>,
    translucent: bool,
    k: int,
)
    requires
        0 < items.len() <= usize::MAX,
        0 <= k < pass_commands(meshes, items, translucent, items.len() as int).len(),
    ensures
        pass_commands(meshes, items, translucent, items.len() as int)[k] is Bind <==> k == 0,
{
    lemma_pass_draws(meshes, items, translucent, items.len() as int, 0);
}

/// The pipeline of an item, in the world or on the inventory atlas.
pub open spec fn pipeline_for(translucent: bool, gui: bool) -> PipelineKind {
    if gui {
        if translucent {
            PipelineKind::GuiItemTranslucent
        } else {
            PipelineKind::GuiItem
        }
    } else if translucent {
        PipelineKind::ItemTranslucent
    } else {
        PipelineKind::ItemCutout
    }
}

/// The pipeline that draws a dropped item.
pub fn world_pipeline(translucent: bool) -> (kind: PipelineKind)
    ensures
        kind == pipeline_for(translucent, false),
        kind == (if translucent {
            PipelineKind::ItemTranslucent
        } else {
            PipelineKind::ItemCutout
        }),
{
    if translucent {
        PipelineKind::ItemTranslucent
    } else {
        PipelineKind::ItemCutout
    }
}

/// A draw of an item into its slot of the inventory atlas.
#[derive(Clone, Copy, Debug, PartialEq, Eq, Structural)]
pub struct BakeDraw {
    pub buffer: BufferId,
    pub vertex_count: u32,
    pub pipeline: PipelineKind,
}

/// The draw that bakes an item, if it has a mesh.
pub fn bake_to_slot(meshes: &ItemMeshes, name: &str) -> (draw: Option<BakeDraw>)
    requires
        meshes.wf(),
    ensures
        draw is Some <==> meshes@.dom().contains(name@),
        draw matches Some(d) ==> d.pipeline == pipeline_for(meshes@[name@].translucent, true),
        draw matches Some(d) ==> {
            let m = meshes@[name@];
            &&& d.buffer == (match m.gui_buffer {
                Some(b) => b,
                None => m.buffer,
            })
            &&& d.vertex_count == m.vertex_count
            &&& d.pipeline == (if m.translucent {
                PipelineKind::GuiItemTranslucent
            } else {
                PipelineKind::GuiItem
            })
        },
{
    match meshes.gui_mesh_handle(name) {
        Some((buffer, vertex_count)) => {
            let pipeline = if meshes.mesh_is_translucent(name) {
                PipelineKind::GuiItemTranslucent
            } else {
                PipelineKind::GuiItem
            };
            Some(BakeDraw { buffer, vertex_count, pipeline })
        },
        None => None,
    }
}

/// Quads of shadow drawn in a frame at most.
pub const MAX_SHADOW_QUADS: usize = 16;

/// Vertices of a shadow quad.
pub const VERTICES_PER_QUAD: usize = 6;

/// The corners of a shadow's two triangles.
pub const SHADOW_CORNERS: [usize; 6] = [0, 1, 2, 0, 2, 3];

/// Vertices of shadow drawn when `quads` quads are cast.
pub open spec fn shadow_count(quads: int) -> int {
    if quads <= 16 {
        quads * 6
    } else {
        96
    }
}

/// Vertices of shadow drawn when `quads` quads are cast; the ones beyond the limit
/// are left out, and without any nothing is drawn.
pub fn shadow_vertices(quads: usize) -> (count: Option<u32>)
    ensures
        count is Some <==> shadow_count(quads as int) > 0,
        count matches Some(c) ==> c == shadow_count(quads as int),
        count == (if quads == 0 {
            None::<u32>
        } else if quads <= 16 {
            Some((quads * 6) as u32)
        } else {
            Some(96u32)
        }),
{
    if quads == 0 {
        None
    } else if quads <= MAX_SHADOW_QUADS {
        Some((quads * VERTICES_PER_QUAD) as u32)
    } else {
        Some((MAX_SHADOW_QUADS * VERTICES_PER_QUAD) as u32)
    }
}

/// The light everywhere in a dimension as shadows see it, in tenths.
pub fn shadow_ambient(dimension: &str) -> (tenths: u32)
    ensures
        tenths == (if dimension@ == "minecraft:the_nether"@ {
            1int
        } else {
            0
        }),
{
    if same_text(dimension, "minecraft:the_nether") {
        1
    } else {
        0
    }
}

/// The item in a hand, or the one being activated over the screen.
#[derive(Clone, Copy, Debug, PartialEq, Eq, Structural)]
pub enum HeldKind {
    FirstPerson,
    Activation,
}

impl HeldKind {
    /// The display transform used.
    pub fn display_key(self) -> (key: &'static str)
        ensures
            key == (match self {
                HeldKind::FirstPerson => "firstperson_righthand",
                HeldKind::Activation => "fixed",
            }),
    {
        match self {
            HeldKind::FirstPerson => "firstperson_righthand",
            HeldKind::Activation => "fixed",
        }
    }

    /// The name its device objects go by.
    pub fn label(self) -> (label: &'static str)
        ensures
            label == (match self {
                HeldKind::FirstPerson => "held_item",
                HeldKind::Activation => "totem_activation",
            }),
    {
        match self {
            HeldKind::FirstPerson => "held_item",
            HeldKind::Activation => "totem_activation",
        }
    }

    /// Whether its display transforms follow a reload of resources.
    pub fn follows_resources(self) -> (follows: bool)
        ensures
            follows == (self == HeldKind::Activation),
    {
        match self {
            HeldKind::FirstPerson => false,
            HeldKind::Activation => true,
        }
    }
}

proof fn lemma_pass_shows(
    meshes: Map<Seq<char>, MeshEntry>,
    items: Seq<String>,
    translucent: bool,
    n: int,
)
    requires
        0 <= n <= items.len() <= usize::MAX,
    ensures
        ({
            let list = pass_commands(meshes, items, translucent, n);
            &&& list.len() > 0 ==> list[0] == (ItemCommand::Bind { translucent })
            &&& forall|k: int|
                0 < k < list.len() ==> (#[trigger] list[k]) is Draw && list[k]->item < n && in_pass(
                    meshes,
                    items,
                    translucent,
                    list[k]->item as int,
                ) && list[k]->buffer == meshes[items[list[k]->item as int]@].buffer
                    && list[k]->vertex_count == meshes[items[list[k]->item as int]@].vertex_count
            &&& forall|j: int, k: int|
                0 < j < k < list.len() ==> (#[trigger] list[j])->item < (#[trigger] list[k])->item
        }),
    decreases n,
{
    if n > 0 {
        lemma_pass_shows(meshes, items, translucent, n - 1);
    }
}

/// A draw shows its own item: the buffer and the vertices are those of the mesh the
/// item is named after, and the pipeline bound last before it is the one for meshes
/// like it.
pub proof fn law_items_are_drawn_with_their_mesh(
    meshes: Map<Seq<char>, MeshEntry>,
    items: Seq<String>,
    list: Seq<ItemCommand>,
    k: int,
)
    requires
        items.len() <= usize::MAX,
        list == pass_commands(meshes, items, false, items.len() as int) + pass_commands(
            meshes,
            items,
            true,
            items.len() as int,
        ),
        0 <= k < list.len(),
        list[k] is Draw,
    ensures
        list[k]->item < items.len(),
        meshes.dom().contains(items[list[k]->item as int]@),
        list[k]->buffer == meshes[items[list[k]->item as int]@].buffer,
        list[k]->vertex_count == meshes[items[list[k]->item as int]@].vertex_count,
        exists|b: int|
            0 <= b < k && (#[trigger] list[b]) == (ItemCommand::Bind {
                translucent: meshes[items[list[k]->item as int]@].translucent,
            }) && forall|c: int| b < c < k ==> (#[trigger] list[c]) is Draw,
{
    let n = items.len() as int;
    let a = pass_commands(meshes, items, false, n);
    let b = pass_commands(meshes, items, true, n);
    lemma_pass_shows(meshes, items, false, n);
    lemma_pass_shows(meshes, items, true, n);
    if k < a.len() {
        assert(list[k] == a[k]);
        assert(list[0] == a[0]);
        assert forall|c: int| 0 < c < k implies (#[trigger] list[c]) is Draw by {
            assert(list[c] == a[c]);
        }
    } else {
        assert(list[k] == b[k - a.len()]);
        assert(list[a.len() as int] == b[0]);
        assert forall|c: int| a.len() < c < k implies (#[trigger] list[c]) is Draw by {
            assert(list[c] == b[c - a.len()]);
        }
    }
}

/// Items that can be seen through are drawn after all that cannot, and among their
/// like items keep the order they were given in.
pub proof fn law_items_keep_their_order(
    meshes: Map<Seq<char>, MeshEntry>,
    items: Seq<String>,
    list: Seq<ItemCommand>,
    j: int,
    k: int,
)
    requires
        items.len() <= usize::MAX,
        list == pass_commands(meshes, items, false, items.len() as int) + pass_commands(
            meshes,
            items,
            true,
            items.len() as int,
        ),
        0 <= j < k < list.len(),
        list[j] is Draw,
        list[k] is Draw,
    ensures
        ({
            let first = meshes[items[list[j]->item as int]@].translucent;
            let second = meshes[items[list[k]->item as int]@].translucent;
            &&& first ==> second
            &&& first == second ==> list[j]->item < list[k]->item
        }),
{
    let n = items.len() as int;
    let a = pass_commands(meshes, items, false, n);
    let b = pass_commands(meshes, items, true, n);
    lemma_pass_shows(meshes, items, false, n);
    lemma_pass_shows(meshes, items, true, n);
    if j < a.len() {
        assert(list[j] == a[j]);
    } else {
        assert(list[j] == b[j - a.len()]);
    }
    if k < a.len() {
        assert(list[k] == a[k]);
    } else {
        assert(list[k] == b[k - a.len()]);
    }
}

/// Every quad of shadow up to the sixteenth adds six vertices, and none after it any.
pub proof fn law_shadows_have_six_vertices_a_quad(quads: int)
    requires
        0 <= quads,
    ensures
        shadow_count(0) == 0,
        shadow_count(quads + 1) - shadow_count(quads) == (if quads < 16 {
            6int
        } else {
            0
        }),
{
}

/// An item that can be seen through is drawn with a pipeline that blends and a solid one
/// in the world with one that does not. In the world items are lit by it and wind the
/// other way round than on the inventory atlas, where only solid ones leave their depth.
pub proof fn law_items_are_drawn_by_their_kind(translucent: bool, gui: bool)
    ensures
        ({
            let kind = pipeline_for(translucent, gui);
            let state = crate::pipeline_state::listed(crate::pipeline_state::row_of(kind));
            &&& state.fragment_shader == "item_entity.frag"
            &&& state.vertex_shader == (if gui {
                "item_entity.vert"
            } else {
                "item_entity_world.vert"
            })
            &&& state.front_face == (if gui {
                crate::pipeline_state::FrontFace::Clockwise
            } else {
                crate::pipeline_state::FrontFace::CounterClockwise
            })
            &&& state.blend == crate::pipeline_state::Blend::Replace <==> !gui && !translucent
            &&& crate::pipeline_state::writes_depth(state.depth) <==> !gui || !translucent
        }),
{
    crate::pipeline_state::law_named_pipelines_follow_their_switches();
}

} // verus!
