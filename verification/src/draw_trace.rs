//! What is remembered of a frame's item draws, for whoever probes the renderer.
use vstd::prelude::*;
use vstd::string::*;

use crate::items::shadow_vertices;
use crate::items::BufferId;
use crate::items::HeldKind;
use crate::items::ItemCommand;
use crate::items::ItemMeshes;
use crate::items::VERTICES_PER_QUAD;
use crate::text::same_text;

verus! {

/// A digit of a number in base sixteen.
pub open spec fn hex_digit(d: int) -> char {
    if d < 10 {
        (48 + d) as char
    } else {
        (87 + d) as char
    }
}

/// The hyphens before a character of an entity's id.
pub open spec fn hyphens_before(k: int) -> int {
    if k < 8 {
        0
    } else if k < 13 {
        1
    } else if k < 18 {
        2
    } else if k < 23 {
        3
    } else {
        4
    }
}

/// An entity's id as text: its thirty-two digits in base sixteen, the highest first,
/// in groups of eight, four, four, four and twelve.
pub open spec fn hyphenated(id: u128) -> Seq<char> {
    Seq::new(
        36,
        |k: int|
            if k == 8 || k == 13 || k == 18 || k == 23 {
                '-'
            } else {
                hex_digit(
                    id as int / (vstd::arithmetic::power::pow(
                        16,
                        (31 - (k - hyphens_before(k))) as nat,
                    )) % 16,
                )
            },
    )
}

/// `uuid::Uuid::from_u128` and its `to_string`: the text is the id's thirty-two
/// lower-case hexadecimal digits with hyphens after the eighth, twelfth, sixteenth and
/// twentieth.
#[verifier::external_body]
fn uuid_text(id: u128) -> (text: String)
    ensures
        text@ == hyphenated(id),
{
    uuid::Uuid::from_u128(id).to_string()
}

proof fn lemma_hex_digit(a: int, b: int)
    requires
        0 <= a < 16,
        0 <= b < 16,
        hex_digit(a) == hex_digit(b),
    ensures
        a == b,
{
    assert(hex_digit(a) as int == if a < 10 {
        48 + a
    } else {
        87 + a
    });
    assert(hex_digit(b) as int == if b < 10 {
        48 + b
    } else {
        87 + b
    });
}

proof fn lemma_high_digits(a: u128, b: u128, k: nat)
    requires
        hyphenated(a) == hyphenated(b),
        k <= 32,
    ensures
        a as int / vstd::arithmetic::power::pow(16, k) == b as int / vstd::arithmetic::power::pow(
            16,
            k,
        ),
    decreases 32 - k,
{
    let p = vstd::arithmetic::power::pow(16, k);
    vstd::arithmetic::power::lemma_pow_positive(16, k);
    if k == 32 {
        assert(p == 0x1_0000_0000_0000_0000_0000_0000_0000_0000) by {
            reveal_with_fuel(vstd::arithmetic::power::pow, 33);
        }
        vstd::arithmetic::div_mod::lemma_basic_div(a as int, p);
        vstd::arithmetic::div_mod::lemma_basic_div(b as int, p);
    } else {
        lemma_high_digits(a, b, k + 1);
        let n = 31 - k;
        let at = if n < 8 {
            n
        } else if n < 12 {
            n + 1
        } else if n < 16 {
            n + 2
        } else if n < 20 {
            n + 3
        } else {
            n + 4
        };
        assert(at - hyphens_before(at) == n);
        assert((31 - (at - hyphens_before(at))) as nat == k);
        assert(hyphenated(a)[at] == hyphenated(b)[at]);
        assert(hyphenated(a)[at] == hex_digit(a as int / p % 16));
        assert(hyphenated(b)[at] == hex_digit(b as int / p % 16));
        lemma_hex_digit(a as int / p % 16, b as int / p % 16);
        vstd::arithmetic::power::lemma_pow_adds(16, k, 1);
        vstd::arithmetic::power::lemma_pow1(16);
        vstd::arithmetic::div_mod::lemma_div_denominator(a as int, p, 16);
        vstd::arithmetic::div_mod::lemma_div_denominator(b as int, p, 16);
        vstd::arithmetic::div_mod::lemma_fundamental_div_mod(a as int / p, 16);
        vstd::arithmetic::div_mod::lemma_fundamental_div_mod(b as int / p, 16);
    }
}

/// Entities with different ids have different texts.
pub proof fn law_ids_have_their_own_text(a: u128, b: u128)
    requires
        hyphenated(a) == hyphenated(b),
    ensures
        a == b,
{
    lemma_high_digits(a, b, 0);
    vstd::arithmetic::power::lemma_pow0(16);
    vstd::arithmetic::div_mod::lemma_div_basics_2(a as int);
    vstd::arithmetic::div_mod::lemma_div_basics_2(b as int);
}

/// Which entity is watched.
pub struct TraceSettings {
    pub tracing: bool,
    /// The watched entity's id as text.
    pub target: Option<String>,
    /// Whether the watched entity casts no shadow.
    pub shadows_disabled: bool,
}

/// An entity is watched.
pub open spec fn watched(s: TraceSettings, id: Option<u128>) -> bool {
    s.tracing && match (id, s.target) {
        (Some(id), Some(target)) => target@ == hyphenated(id),
        _ => false,
    }
}

/// Whether an entity is watched.
pub fn is_watched(s: &TraceSettings, id: Option<u128>) -> (yes: bool)
    ensures
        yes == watched(*s, id),
{
    if !s.tracing {
        return false;
    }
    match (id, &s.target) {
        (Some(id), Some(target)) => {
            let text = uuid_text(id);
            same_text(target.as_str(), text.as_str())
        },
        _ => false,
    }
}

/// No two entities are watched at once.
pub proof fn law_one_entity_is_watched(s: TraceSettings, a: u128, b: u128)
    requires
        watched(s, Some(a)),
        watched(s, Some(b)),
    ensures
        a == b,
{
    law_ids_have_their_own_text(a, b);
}

/// The last of the first `n` entities that is watched.
pub open spec fn last_watched(s: TraceSettings, ids: Seq<Option<u128>>, n: int) -> Option<int>
    decreases n,
{
    if n <= 0 {
        None
    } else if watched(s, ids[n - 1]) {
        Some(n - 1)
    } else {
        last_watched(s, ids, n - 1)
    }
}

/// The pieces of shadow an entity keeps of those it would cast.
pub open spec fn kept(
    s: TraceSettings,
    ids: Seq<Option<u128>>,
    pieces: Seq<usize>,
    i: int,
) -> usize {
    if watched(s, ids[i]) && s.shadows_disabled {
        0
    } else {
        pieces[i]
    }
}

/// The pieces of shadow of the first `n` entities.
pub open spec fn all_kept(
    s: TraceSettings,
    ids: Seq<Option<u128>>,
    pieces: Seq<usize>,
    n: int,
) -> int
    decreases n,
{
    if n <= 0 {
        0
    } else {
        all_kept(s, ids, pieces, n - 1) + kept(s, ids, pieces, n - 1)
    }
}

/// The pieces the first `n` entities would cast.
pub open spec fn all_pieces(pieces: Seq<usize>, n: int) -> int
    decreases n,
{
    if n <= 0 {
        0
    } else {
        all_pieces(pieces, n - 1) + pieces[n - 1]
    }
}

/// What became of the watched entity's shadow.
#[derive(Clone, Copy, Debug, PartialEq, Eq, Structural)]
pub struct ShadowTrace {
    pub item: usize,
    pub disabled: bool,
    pub pieces: usize,
    /// Vertices of the shadows up to the watched one's.
    pub emitted: usize,
    /// Whether any shadow was drawn.
    pub submitted: bool,
}

/// The shadows of a frame: the pieces kept of each item's, the vertices drawn, and what
/// is remembered of the watched item.
pub struct ShadowPlan {
    pub kept: Vec<usize>,
    pub vertices: Option<u32>,
    pub trace: Option<ShadowTrace>,
}

proof fn lemma_kept(s: TraceSettings, ids: Seq<Option<u128>>, pieces: Seq<usize>, m: int, n: int)
    requires
        0 <= m <= n,
    ensures
        0 <= all_kept(s, ids, pieces, m) <= all_pieces(pieces, m) <= all_pieces(pieces, n),
    decreases n,
{
    if m < n {
        lemma_kept(s, ids, pieces, m, n - 1);
    } else if n > 0 {
        lemma_kept(s, ids, pieces, n - 1, n - 1);
    }
}

/// Plans the shadows of items that would cast `pieces` pieces each.
pub fn plan_shadows(s: &TraceSettings, ids: &Vec<Option<u128>>, pieces: &Vec<usize>) -> (plan:
    ShadowPlan)
    requires
        ids@.len() == pieces@.len(),
        6 * all_pieces(pieces@, pieces@.len() as int) <= usize::MAX,
    ensures
        plan.kept@ == Seq::new(ids@.len(), |i: int| kept(*s, ids@, pieces@, i)),
        ({
            let total = all_kept(*s, ids@, pieces@, ids@.len() as int);
            &&& plan.vertices == (if total == 0 {
                None::<u32>
            } else if total <= 16 {
                Some((total * 6) as u32)
            } else {
                Some(96u32)
            })
            &&& plan.trace == match last_watched(*s, ids@, ids@.len() as int) {
                Some(i) => Some(
                    ShadowTrace {
                        item: i as usize,
                        disabled: s.shadows_disabled,
                        pieces: kept(*s, ids@, pieces@, i),
                        emitted: (6 * all_kept(*s, ids@, pieces@, i + 1)) as usize,
                        submitted: total > 0,
                    },
                ),
                None => None,
            }
        }),
{
    let mut list: Vec<usize> = Vec::new();
    let mut trace: Option<ShadowTrace> = None;
    let mut total: usize = 0;
    let mut i: usize = 0;
    while i < ids.len()
        invariant
            i <= ids@.len() == pieces@.len(),
            6 * all_pieces(pieces@, pieces@.len() as int) <= usize::MAX,
            total == all_kept(*s, ids@, pieces@, i as int),
            list@ == Seq::new(i as nat, |k: int| kept(*s, ids@, pieces@, k)),
            trace == match last_watched(*s, ids@, i as int) {
                Some(w) => Some(
                    ShadowTrace {
                        item: w as usize,
                        disabled: s.shadows_disabled,
                        pieces: kept(*s, ids@, pieces@, w),
                        emitted: (6 * all_kept(*s, ids@, pieces@, w + 1)) as usize,
                        submitted: false,
                    },
                ),
                None => None,
            },
        decreases ids@.len() - i,
    {
        proof {
            lemma_kept(*s, ids@, pieces@, i + 1, pieces@.len() as int);
        }
        let traced = is_watched(s, ids[i]);
        let disabled = traced && s.shadows_disabled;
        let count: usize = if disabled {
            0
        } else {
            pieces[i]
        };
        total = total + count;
        if traced {
            trace = Some(
                ShadowTrace {
                    item: i,
                    disabled,
                    pieces: count,
                    emitted: total * VERTICES_PER_QUAD,
                    submitted: false,
                },
            );
        }
        list.push(count);
        i = i + 1;
        assert(list@ =~= Seq::new(i as nat, |k: int| kept(*s, ids@, pieces@, k)));
    }
    let trace = match trace {
        Some(t) => Some(ShadowTrace { submitted: total > 0, ..t }),
        None => None,
    };
    ShadowPlan { kept: list, vertices: shadow_vertices(total), trace }
}

/// A step draws a watched item.
pub open spec fn draws_watched(s: TraceSettings, ids: Seq<Option<u128>>, c: ItemCommand) -> bool {
    match c {
        ItemCommand::Draw { item, .. } => watched(s, ids[item as int]),
        ItemCommand::Bind { .. } => false,
    }
}

/// The last of the first `n` steps that draws a watched item.
pub open spec fn last_draw(
    s: TraceSettings,
    ids: Seq<Option<u128>>,
    list: Seq<ItemCommand>,
    n: int,
) -> Option<int>
    decreases n,
{
    if n <= 0 {
        None
    } else if draws_watched(s, ids, list[n - 1]) {
        Some(n - 1)
    } else {
        last_draw(s, ids, list, n - 1)
    }
}

/// The step of a frame that is remembered: the last draw of a watched item.
pub fn traced_draw(s: &TraceSettings, ids: &Vec<Option<u128>>, list: &Vec<ItemCommand>) -> (step:
    Option<usize>)
    requires
        forall|k: int|
            0 <= k < list@.len() ==> (#[trigger] list@[k] matches ItemCommand::Draw { item, .. }
                ==> item < ids@.len()),
    ensures
        match step {
            Some(k) => last_draw(*s, ids@, list@, list@.len() as int) == Some(k as int),
            None => last_draw(*s, ids@, list@, list@.len() as int) is None,
        },
{
    let mut n: usize = list.len();
    while n > 0
        invariant
            n <= list@.len(),
            forall|k: int|
                0 <= k < list@.len() ==> (#[trigger] list@[k] matches ItemCommand::Draw { item, .. }
                    ==> item < ids@.len()),
            last_draw(*s, ids@, list@, list@.len() as int) == last_draw(*s, ids@, list@, n as int),
        decreases n,
    {
        let found = match list[n - 1] {
            ItemCommand::Draw { item, .. } => is_watched(s, ids[item]),
            ItemCommand::Bind { .. } => false,
        };
        if found {
            return Some(n - 1);
        }
        n = n - 1;
    }
    None
}

proof fn lemma_last_draw(
    s: TraceSettings,
    ids: Seq<Option<u128>>,
    list: Seq<ItemCommand>,
    n: int,
    k: int,
)
    requires
        0 <= k < n <= list.len(),
        draws_watched(s, ids, list[k]),
    ensures
        last_draw(s, ids, list, n) is Some,
        k <= last_draw(s, ids, list, n)->0 < n,
    decreases n,
{
    if !draws_watched(s, ids, list[n - 1]) {
        lemma_last_draw(s, ids, list, n - 1, k);
    }
}

/// A frame is remembered exactly when it draws a watched item, and nothing watched is
/// drawn after what is remembered.
pub proof fn law_the_last_watched_draw_is_kept(
    s: TraceSettings,
    ids: Seq<Option<u128>>,
    list: Seq<ItemCommand>,
)
    ensures
        last_draw(s, ids, list, list.len() as int) is None <==> (forall|k: int|
            0 <= k < list.len() ==> !draws_watched(s, ids, #[trigger] list[k])),
        last_draw(s, ids, list, list.len() as int) matches Some(d) ==> 0 <= d < list.len()
            && draws_watched(s, ids, list[d]) && forall|k: int|
            d < k < list.len() ==> !draws_watched(s, ids, #[trigger] list[k]),
{
    lemma_found(s, ids, list, list.len() as int);
    assert forall|k: int|
        0 <= k < list.len() && draws_watched(s, ids, #[trigger] list[k]) implies last_draw(
        s,
        ids,
        list,
        list.len() as int,
    ) is Some && k <= last_draw(s, ids, list, list.len() as int)->0 by {
        lemma_last_draw(s, ids, list, list.len() as int, k);
    }
}

proof fn lemma_found(s: TraceSettings, ids: Seq<Option<u128>>, list: Seq<ItemCommand>, n: int)
    requires
        0 <= n <= list.len(),
    ensures
        last_draw(s, ids, list, n) matches Some(d) ==> 0 <= d < n && draws_watched(
            s,
            ids,
            list[d],
        ),
    decreases n,
{
    if n > 0 {
        lemma_found(s, ids, list, n - 1);
    }
}

/// What is remembered of a held item's draw.
pub struct HeldTrace {
    pub item: String,
    pub frame: usize,
    /// The vertices drawn; nothing is drawn of an item without mesh.
    pub vertices: Option<u32>,
}

/// What a [`HeldTrace`] holds.
#[verifier::ext_equal]
pub struct HeldTraceView {
    pub item: Seq<char>,
    pub frame: usize,
    pub vertices: Option<u32>,
}

impl View for HeldTrace {
    type V = HeldTraceView;

    open spec fn view(&self) -> HeldTraceView {
        HeldTraceView { item: self.item@, frame: self.frame, vertices: self.vertices }
    }
}

/// What a probe finds.
pub open spec fn found(trace: Option<HeldTrace>) -> Option<HeldTraceView> {
    match trace {
        Some(t) => Some(t@),
        None => None,
    }
}

/// The last draw of the item in the hand, or of the one being activated.
pub struct HeldDraws {
    pub kind: HeldKind,
    pub last_draw_trace: Option<HeldTrace>,
}

impl HeldDraws {
    pub fn new(kind: HeldKind) -> (draws: Self)
        ensures
            draws.kind == kind,
            draws.last_draw_trace is None,
    {
        HeldDraws { kind, last_draw_trace: None }
    }

    /// The buffer and vertices to draw of an item, and remembers them.
    fn draw(&mut self, frame: usize, item: &str, meshes: &ItemMeshes) -> (handle: Option<
        (BufferId, u32),
    >)
        requires
            meshes.wf(),
        ensures
            final(self).kind == old(self).kind,
            handle == (if meshes@.dom().contains(item@) {
                Some((meshes@[item@].buffer, meshes@[item@].vertex_count))
            } else {
                None
            }),
            found(final(self).last_draw_trace) == Some(
                HeldTraceView {
                    item: item@,
                    frame,
                    vertices: if meshes@.dom().contains(item@) {
                        Some(meshes@[item@].vertex_count)
                    } else {
                        None
                    },
                },
            ),
    {
        let handle = meshes.mesh_handle(item);
        let vertices = match handle {
            Some((_, count)) => Some(count),
            None => None,
        };
        self.last_draw_trace = Some(HeldTrace { item: item.to_owned(), frame, vertices });
        handle
    }

    /// The buffer and vertices to draw of the item in the hand.
    pub fn update_and_draw(&mut self, frame: usize, item: &str, meshes: &ItemMeshes) -> (handle:
        Option<(BufferId, u32)>)
        requires
            meshes.wf(),
        ensures
            final(self).kind == old(self).kind,
            handle == (if meshes@.dom().contains(item@) {
                Some((meshes@[item@].buffer, meshes@[item@].vertex_count))
            } else {
                None
            }),
            found(final(self).last_draw_trace) == Some(
                HeldTraceView {
                    item: item@,
                    frame,
                    vertices: if meshes@.dom().contains(item@) {
                        Some(meshes@[item@].vertex_count)
                    } else {
                        None
                    },
                },
            ),
    {
        self.draw(frame, item, meshes)
    }

    /// The buffer and vertices to draw of the item being activated.
    pub fn update_activation_and_draw(&mut self, frame: usize, item: &str, meshes: &ItemMeshes) -> (handle:
        Option<(BufferId, u32)>)
        requires
            old(self).kind == HeldKind::Activation,
            meshes.wf(),
        ensures
            final(self).kind == old(self).kind,
            handle == (if meshes@.dom().contains(item@) {
                Some((meshes@[item@].buffer, meshes@[item@].vertex_count))
            } else {
                None
            }),
            found(final(self).last_draw_trace) == Some(
                HeldTraceView {
                    item: item@,
                    frame,
                    vertices: if meshes@.dom().contains(item@) {
                        Some(meshes@[item@].vertex_count)
                    } else {
                        None
                    },
                },
            ),
    {
        self.draw(frame, item, meshes)
    }

    /// What is remembered of the last draw.
    pub fn probe_draw_trace(&self) -> (trace: Option<HeldTrace>)
        ensures
            found(trace) == found(self.last_draw_trace),
    {
        match &self.last_draw_trace {
            Some(t) => Some(
                HeldTrace {
                    item: t.item.as_str().to_owned(),
                    frame: t.frame,
                    vertices: t.vertices,
                },
            ),
            None => None,
        }
    }

    /// Forgets the last draw.
    pub fn clear_probe_trace(&mut self)
        ensures
            final(self).kind == old(self).kind,
            final(self).last_draw_trace is None,
    {
        self.last_draw_trace = None;
    }
}

/// The watched item that is remembered is the last there is.
pub proof fn law_the_last_watched_item_is_kept(s: TraceSettings, ids: Seq<Option<u128>>, n: int)
    requires
        0 <= n <= ids.len(),
    ensures
        match last_watched(s, ids, n) {
            Some(i) => 0 <= i < n && watched(s, ids[i]) && forall|k: int|
                i < k < n ==> !watched(s, #[trigger] ids[k]),
            None => forall|k: int| 0 <= k < n ==> !watched(s, #[trigger] ids[k]),
        },
    decreases n,
{
    if n > 0 {
        law_the_last_watched_item_is_kept(s, ids, n - 1);
    }
}

/// Nothing is watched without tracing or without a target, and what is watched has the
/// target's text for its id.
pub proof fn law_only_the_target_is_watched(s: TraceSettings, id: Option<u128>)
    ensures
        watched(s, id) ==> s.tracing && s.target is Some && id is Some,
        s.tracing && s.target is Some && id is Some ==> (watched(s, id) <==> s.target->0@
            == hyphenated(id->0)),
{
}

/// Every item keeps its shadow but a watched one whose shadow is switched off, and the
/// pieces of all items add up.
pub proof fn law_shadows_are_kept(
    s: TraceSettings,
    ids: Seq<Option<u128>>,
    pieces: Seq<usize>,
    i: int,
)
    requires
        0 <= i < ids.len(),
        pieces.len() == ids.len(),
    ensures
        ({
            let added = all_kept(s, ids, pieces, i + 1) - all_kept(s, ids, pieces, i);
            &&& all_kept(s, ids, pieces, 0) == 0
            &&& added == kept(s, ids, pieces, i)
            &&& !s.shadows_disabled || !watched(s, ids[i]) ==> added == pieces[i]
            &&& s.shadows_disabled && watched(s, ids[i]) ==> added == 0
        }),
{
}

/// A step is remembered only if it draws an item, and that item is watched.
pub proof fn law_only_draws_are_remembered(
    s: TraceSettings,
    ids: Seq<Option<u128>>,
    c: ItemCommand,
)
    ensures
        c is Bind ==> !draws_watched(s, ids, c),
        c is Draw ==> (draws_watched(s, ids, c) <==> watched(s, ids[c->item as int])),
{
}

} // verus!
