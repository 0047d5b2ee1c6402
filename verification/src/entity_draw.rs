//! Batching visible entities into instanced draws.
use vstd::prelude::*;

use crate::block_entity_draw::PartRange;
use crate::entity::MobEntry;
use crate::entity::MAX_OVERLAYS;
use crate::mobs::EntityKind;
use crate::mobs::MobDef;
use crate::mobs::OverlayKind;
use crate::mobs::VariantDef;
use crate::skins::SkinCache;

verus! {

/// Capacity of a frame's instance buffer.
pub const MAX_INSTANCES: usize = 16384;

/// One entity in one layer: its base model, or an overlay slot.
#[derive(Clone, Copy, Debug, PartialEq, Eq, Structural)]
pub struct Member {
    pub entity: usize,
    pub slot: Option<usize>,
    /// Whether the layer flashes red.
    pub red: bool,
    /// Whether the layer's texture scrolls.
    pub scrolls: bool,
}

/// Whether a layer flashes red and whether its texture scrolls: the base model for
/// `None`, else an overlay. Layers that glow do not flash with a hurt entity, and only
/// the swirl scrolls.
pub fn layer_look(kind: Option<OverlayKind>, red: bool) -> (look: (bool, bool))
    ensures
        look.0 == (red && kind != Some(OverlayKind::EyesTranslucent) && kind != Some(
            OverlayKind::SwirlAdditive,
        )),
        look.1 == (kind == Some(OverlayKind::SwirlAdditive)),
{
    match kind {
        Some(OverlayKind::EyesTranslucent) => (false, false),
        Some(OverlayKind::SwirlAdditive) => (false, true),
        _ => (red, false),
    }
}

/// A member with the variant and descriptor set it is drawn with.
#[derive(Clone, Copy, Debug, PartialEq, Eq, Structural)]
pub struct Addition {
    pub variant: usize,
    pub set: u64,
    pub member: Member,
}

/// Members that share geometry and texture.
pub struct VariantGroup {
    pub variant: usize,
    pub set: u64,
    pub members: Vec<Member>,
}

/// What a [`VariantGroup`] holds.
#[verifier::ext_equal]
pub struct GroupView {
    pub variant: usize,
    pub set: u64,
    pub members: Seq<Member>,
}

impl View for VariantGroup {
    type V = GroupView;

    open spec fn view(&self) -> GroupView {
        GroupView { variant: self.variant, set: self.set, members: self.members@ }
    }
}

/// Groups in order of first appearance.
pub struct VariantGroups {
    pub groups: Vec<VariantGroup>,
}

impl View for VariantGroups {
    type V = Seq<GroupView>;

    open spec fn view(&self) -> Seq<GroupView> {
        Seq::new(self.groups@.len(), |i: int| self.groups@[i]@)
    }
}

/// The first of the first `n` groups with a variant and set, or -1.
pub open spec fn find_group(groups: Seq<GroupView>, variant: usize, set: u64, n: int) -> int
    decreases n,
{
    if n <= 0 {
        -1
    } else if find_group(groups, variant, set, n - 1) >= 0 {
        find_group(groups, variant, set, n - 1)
    } else if groups[n - 1].variant == variant && groups[n - 1].set == set {
        n - 1
    } else {
        -1
    }
}

/// The place of an addition's group.
pub open spec fn place(groups: Seq<GroupView>, a: Addition) -> int {
    find_group(groups, a.variant, a.set, groups.len() as int)
}

/// Groups with one more member: in its group if there is one, else in a new one.
pub open spec fn add_to(groups: Seq<GroupView>, a: Addition) -> Seq<GroupView> {
    let g = place(groups, a);
    if g >= 0 {
        groups.update(
            g,
            GroupView { members: groups[g].members.push(a.member), ..groups[g] },
        )
    } else {
        groups.push(GroupView { variant: a.variant, set: a.set, members: seq![a.member] })
    }
}

/// The groups of a sequence of additions.
pub open spec fn group_all(adds: Seq<Addition>) -> Seq<GroupView>
    decreases adds.len(),
{
    if adds.len() == 0 {
        Seq::empty()
    } else {
        add_to(group_all(adds.drop_last()), adds.last())
    }
}

proof fn lemma_group_step(adds: Seq<Addition>, a: Addition)
    ensures
        group_all(adds.push(a)) == add_to(group_all(adds), a),
{
    assert(adds.push(a).drop_last() =~= adds);
}

impl VariantGroups {
    pub fn new() -> (groups: Self)
        ensures
            groups@ == Seq::<GroupView>::empty(),
    {
        let groups = VariantGroups { groups: Vec::new() };
        assert(groups@ =~= Seq::<GroupView>::empty());
        groups
    }

    /// Puts a member in the group of its variant and set.
    pub fn add(&mut self, variant: usize, set: u64, member: Member)
        ensures
            final(self)@ == add_to(old(self)@, (Addition { variant, set, member })),
    {
        let ghost before = self@;
        let ghost a = Addition { variant, set, member };
        let mut found: usize = 0;
        while found < self.groups.len() && !(self.groups[found].variant == variant
            && self.groups[found].set == set)
            invariant
                self@ == before,
                found <= self.groups@.len(),
                find_group(before, variant, set, found as int) == -1,
            decreases self.groups@.len() - found,
        {
            assert(before[found as int] == self.groups@[found as int]@);
            found = found + 1;
        }
        assert(before.len() == self.groups@.len());
        if found < self.groups.len() {
            proof {
                assert(before[found as int] == self.groups@[found as int]@);
                assert(find_group(before, variant, set, found + 1) == found);
                lemma_find_extends(before, variant, set, found + 1);
            }
            let group = &mut self.groups[found];
            group.members.push(member);
            assert(self@ =~= add_to(before, a));
        } else {
            let mut members: Vec<Member> = Vec::new();
            members.push(member);
            assert(members@ =~= seq![member]);
            self.groups.push(VariantGroup { variant, set, members });
            assert(self@ =~= add_to(before, a));
        }
    }
}

proof fn lemma_find_extends(groups: Seq<GroupView>, variant: usize, set: u64, n: int)
    requires
        0 <= n <= groups.len(),
        find_group(groups, variant, set, n) >= 0,
    ensures
        find_group(groups, variant, set, groups.len() as int) == find_group(groups, variant, set, n),
    decreases groups.len() - n,
{
    if n < groups.len() {
        lemma_find_extends(groups, variant, set, n + 1);
    }
}

proof fn lemma_find_range(groups: Seq<GroupView>, variant: usize, set: u64, n: int)
    requires
        0 <= n <= groups.len(),
    ensures
        -1 <= find_group(groups, variant, set, n),
        find_group(groups, variant, set, n) >= 0 ==> {
            let g = find_group(groups, variant, set, n);
            g < n && groups[g].variant == variant && groups[g].set == set
        },
    decreases n,
{
    if n > 0 {
        lemma_find_range(groups, variant, set, n - 1);
    }
}

/// Lookups see only the keys of groups.
proof fn lemma_find_same_keys(a: Seq<GroupView>, b: Seq<GroupView>, variant: usize, set: u64, n: int)
    requires
        0 <= n <= a.len(),
        n <= b.len(),
        forall|i: int| 0 <= i < n ==> (#[trigger] a[i]).variant == b[i].variant && a[i].set == b[i].set,
    ensures
        find_group(a, variant, set, n) == find_group(b, variant, set, n),
    decreases n,
{
    if n > 0 {
        lemma_find_same_keys(a, b, variant, set, n - 1);
        assert(a[n - 1].variant == b[n - 1].variant);
    }
}

/// Adding a member moves no group.
proof fn lemma_add_keeps_places(groups: Seq<GroupView>, a: Addition, other: Addition)
    requires
        place(groups, other) >= 0,
    ensures
        place(add_to(groups, a), other) == place(groups, other),
{
    let after = add_to(groups, a);
    let n = groups.len() as int;
    lemma_find_range(groups, a.variant, a.set, n);
    lemma_find_same_keys(groups, after, other.variant, other.set, n);
    lemma_find_extends(after, other.variant, other.set, n);
}

/// After adding a member, its group is found, at the end if it is new.
proof fn lemma_add_is_found(groups: Seq<GroupView>, a: Addition)
    ensures
        place(add_to(groups, a), a) == (if place(groups, a) >= 0 {
            place(groups, a)
        } else {
            groups.len() as int
        }),
{
    if place(groups, a) >= 0 {
        lemma_add_keeps_places(groups, a, a);
    } else {
        let after = add_to(groups, a);
        let n = groups.len() as int;
        lemma_find_range(groups, a.variant, a.set, n);
        lemma_find_same_keys(groups, after, a.variant, a.set, n);
    }
}

/// A group that is found has been added.
proof fn lemma_found_was_added(adds: Seq<Addition>, a: Addition) -> (i: int)
    requires
        place(group_all(adds), a) >= 0,
    ensures
        0 <= i < adds.len(),
        adds[i].variant == a.variant,
        adds[i].set == a.set,
    decreases adds.len(),
{
    if adds.len() == 0 {
        0
    } else {
        let before = group_all(adds.drop_last());
        if place(before, a) >= 0 {
            lemma_found_was_added(adds.drop_last(), a)
        } else {
            let last = adds.last();
            if last.variant == a.variant && last.set == a.set {
                adds.len() - 1
            } else {
                let n = before.len() as int;
                let after = add_to(before, last);
                lemma_find_range(before, last.variant, last.set, n);
                lemma_find_same_keys(before, after, a.variant, a.set, n);
                lemma_find_range(before, a.variant, a.set, n);
                assert(false);
                0
            }
        }
    }
}

/// Every addition's group is there.
proof fn lemma_added_is_found(adds: Seq<Addition>, i: int)
    requires
        0 <= i < adds.len(),
    ensures
        0 <= place(group_all(adds), adds[i]) < group_all(adds).len(),
    decreases adds.len(),
{
    let before = group_all(adds.drop_last());
    if i < adds.len() - 1 {
        assert(adds.drop_last()[i] == adds[i]);
        lemma_added_is_found(adds.drop_last(), i);
        lemma_add_keeps_places(before, adds.last(), adds[i]);
    } else {
        assert(adds[i] == adds.last());
        lemma_add_is_found(before, adds.last());
        lemma_find_range(before, adds[i].variant, adds[i].set, before.len() as int);
    }
    assert(group_all(adds) == add_to(before, adds.last()));
    let after = group_all(adds);
    lemma_find_range(after, adds[i].variant, adds[i].set, after.len() as int);
}

/// The drawing phase of a member: base models, then overlay slots.
pub open spec fn phase(m: Member) -> int {
    match m.slot {
        None => 0,
        Some(s) => s + 1,
    }
}

/// Additions come phase by phase.
pub open spec fn phases_in_order(adds: Seq<Addition>) -> bool {
    forall|i: int, j: int|
        0 <= i < j < adds.len() ==> phase(#[trigger] adds[i].member) <= phase(
            #[trigger] adds[j].member,
        )
}

/// Members of one group belong to one phase: no variant serves two layers.
pub open spec fn one_phase_per_group(adds: Seq<Addition>) -> bool {
    forall|i: int, j: int|
        #![trigger adds[i], adds[j]]
        0 <= i < adds.len() && 0 <= j < adds.len() && adds[i].variant == adds[j].variant
            && adds[i].set == adds[j].set ==> phase(adds[i].member) == phase(adds[j].member)
}

/// Coplanar layers rely on draw order: a lower layer's group always comes before
/// an upper layer's, whichever entity opened the group.
pub proof fn law_lower_layers_draw_first(adds: Seq<Addition>, i: int, j: int)
    requires
        0 <= i < adds.len(),
        0 <= j < adds.len(),
        phases_in_order(adds),
        one_phase_per_group(adds),
        phase(adds[i].member) < phase(adds[j].member),
    ensures
        0 <= place(group_all(adds), adds[i]) < place(group_all(adds), adds[j]),
    decreases adds.len(),
{
    let n = adds.len() - 1;
    let rest = adds.drop_last();
    let before = group_all(rest);
    assert(i < j) by {
        if j < i {
            assert(phase(adds[j].member) <= phase(adds[i].member));
        }
    }
    assert forall|x: int, y: int| 0 <= x < y < rest.len() implies phase(#[trigger] rest[x].member)
        <= phase(#[trigger] rest[y].member) by {
        assert(rest[x] == adds[x] && rest[y] == adds[y]);
        assert(phase(adds[x].member) <= phase(adds[y].member));
    }
    assert(one_phase_per_group(rest)) by {
        assert forall|x: int, y: int|
            #![trigger rest[x], rest[y]]
            0 <= x < rest.len() && 0 <= y < rest.len() && rest[x].variant == rest[y].variant
                && rest[x].set == rest[y].set implies phase(rest[x].member) == phase(rest[y].member) by {
            assert(rest[x] == adds[x] && rest[y] == adds[y]);
        }
    }
    if j < n {
        law_lower_layers_draw_first(rest, i, j);
        lemma_add_keeps_places(before, adds[n], adds[i]);
        lemma_add_keeps_places(before, adds[n], adds[j]);
    } else {
        lemma_added_is_found(rest, i);
        lemma_add_keeps_places(before, adds[n], adds[i]);
        lemma_add_is_found(before, adds[n]);
        if place(before, adds[n]) >= 0 {
            let k = lemma_found_was_added(rest, adds[n]);
            assert(rest[k] == adds[k]);
            assert(phase(adds[k].member) == phase(adds[n].member));
            law_lower_layers_draw_first(rest, i, k);
            assert(place(before, rest[k]) == place(before, adds[n]));
        }
    }
}

/// One overlay slot of a visible entity. `tinted` says whether it is shown.
#[derive(Clone, Copy, Debug, PartialEq, Eq, Structural)]
pub struct OverlayUse {
    pub variant: usize,
    pub set: u64,
    pub kind: OverlayKind,
    pub tinted: bool,
}

/// An entity that survived culling, with the variants it is drawn with.
pub struct VisEntity {
    pub base_variant: usize,
    pub base_set: u64,
    pub base_kind: OverlayKind,
    /// Whether the entity is hurt or dying.
    pub red: bool,
    pub overlays: Vec<OverlayUse>,
}

/// What decides how an entity is drawn. A slot that is not `tinted` is not shown.
#[derive(Clone, Copy, Debug, PartialEq, Eq)]
pub struct EntityLook {
    pub kind: EntityKind,
    pub player: Option<u128>,
    pub is_baby: bool,
    pub variant_index: u32,
    /// Whether the entity is hurt or dying.
    pub red: bool,
    /// Drawn even out of sight.
    pub skip_cull: bool,
    pub overlay_variants: [u32; MAX_OVERLAYS],
    pub tinted: [bool; MAX_OVERLAYS],
}

/// What an overlay slot of an entity shows.
pub open spec fn slot_use(look: EntityLook, entry: MobEntry, slot: int) -> OverlayUse {
    let shown = entry.shown_overlay(look.is_baby, slot, look.overlay_variants@[slot]);
    OverlayUse {
        variant: shown.mesh,
        set: shown.set,
        kind: shown.kind,
        tinted: look.tinted@[slot],
    }
}

/// The variants an entity is drawn with: a player's base model and texture are those of
/// the skin, if it is known.
pub open spec fn looks_like(v: VisEntity, look: EntityLook, entry: MobEntry, skins: SkinCache) -> bool {
    let skin = skins.skin_of(look.kind, look.player);
    let pool = entry.base_pool(look.is_baby);
    let index = match skin {
        Some(s) => if s.slim {
            1int
        } else {
            0
        },
        None => look.variant_index as int,
    };
    let base = pool[crate::entity::pooled(index, pool.len() as int)];
    &&& v.base_variant == base.mesh
    &&& v.base_kind == base.kind
    &&& v.base_set == match skin {
        Some(s) => s.set,
        None => base.set,
    }
    &&& v.red == look.red
    &&& v.overlays@.len() == entry.overlay_pools(look.is_baby).len()
    &&& forall|slot: int|
        0 <= slot < v.overlays@.len() ==> #[trigger] v.overlays@[slot] == slot_use(look, entry, slot)
}

/// The variants an entity is drawn with.
pub fn vis_entity(look: &EntityLook, entry: &MobEntry, skins: &SkinCache) -> (v: VisEntity)
    requires
        entry.wf(),
    ensures
        looks_like(v, *look, *entry, *skins),
{
    let index = skins.effective_variant_index(look.kind, look.player, look.variant_index);
    let base = entry.base_variant(look.is_baby, index);
    let slots: usize = entry.overlays(look.is_baby).len();
    let mut overlays: Vec<OverlayUse> = Vec::new();
    let mut slot: usize = 0;
    while slot < slots
        invariant
            entry.wf(),
            slot <= slots == entry.overlay_pools(look.is_baby).len() <= MAX_OVERLAYS,
            overlays@.len() == slot,
            forall|i: int|
                0 <= i < slot ==> #[trigger] overlays@[i] == slot_use(*look, *entry, i),
        decreases slots - slot,
    {
        let shown = entry.overlay_variant(look.is_baby, slot, look.overlay_variants[slot]);
        overlays.push(
            OverlayUse {
                variant: shown.mesh,
                set: shown.set,
                kind: shown.kind,
                tinted: look.tinted[slot],
            },
        );
        slot = slot + 1;
    }
    VisEntity {
        base_variant: base.mesh,
        base_set: skins.player_texture_set(look.kind, look.player, base.set),
        base_kind: base.kind,
        red: look.red,
        overlays,
    }
}

/// An entity that is drawn, and the mob it is drawn as.
#[derive(Clone, Copy, Debug, PartialEq, Eq, Structural)]
pub struct Shown {
    pub entity: usize,
    pub mob: usize,
}

/// The first of the first `n` mobs of a kind.
pub open spec fn mob_of(mobs: Seq<MobEntry>, kind: EntityKind, n: int) -> Option<int>
    decreases n,
{
    if n <= 0 {
        None
    } else if mob_of(mobs, kind, n - 1) is Some {
        mob_of(mobs, kind, n - 1)
    } else if mobs[n - 1].kind == kind {
        Some(n - 1)
    } else {
        None
    }
}

/// The drawn ones among the first `n` entities, in order: those of a known mob that are
/// in sight or drawn in any case.
pub open spec fn shown_of(
    looks: Seq<EntityLook>,
    mobs: Seq<MobEntry>,
    visible: Seq<bool>,
    n: int,
) -> Seq<Shown>
    decreases n,
{
    if n <= 0 {
        Seq::empty()
    } else {
        let before = shown_of(looks, mobs, visible, n - 1);
        let look = looks[n - 1];
        match mob_of(mobs, look.kind, mobs.len() as int) {
            Some(mob) if look.skip_cull || visible[n - 1] => before.push(
                Shown { entity: (n - 1) as usize, mob: mob as usize },
            ),
            _ => before,
        }
    }
}

proof fn lemma_mob_of(mobs: Seq<MobEntry>, kind: EntityKind, n: int)
    requires
        0 <= n <= mobs.len(),
    ensures
        mob_of(mobs, kind, n) matches Some(m) ==> 0 <= m < n && mobs[m].kind == kind
            && mob_of(mobs, kind, mobs.len() as int) == Some(m),
    decreases mobs.len() - n, n,
{
    if n < mobs.len() {
        lemma_mob_of(mobs, kind, n + 1);
    }
    lemma_mob_within(mobs, kind, n);
}

proof fn lemma_mob_within(mobs: Seq<MobEntry>, kind: EntityKind, n: int)
    requires
        0 <= n <= mobs.len(),
    ensures
        mob_of(mobs, kind, n) matches Some(m) ==> 0 <= m < n && mobs[m].kind == kind,
    decreases n,
{
    if n > 0 {
        lemma_mob_within(mobs, kind, n - 1);
    }
}

fn find_mob(mobs: &Vec<MobEntry>, kind: EntityKind) -> (mob: Option<usize>)
    ensures
        match mob {
            Some(m) => mob_of(mobs@, kind, mobs@.len() as int) == Some(m as int) && m < mobs@.len(),
            None => mob_of(mobs@, kind, mobs@.len() as int) is None,
        },
{
    let mut m: usize = 0;
    while m < mobs.len()
        invariant
            m <= mobs@.len(),
            mob_of(mobs@, kind, m as int) is None,
        decreases mobs@.len() - m,
    {
        if mobs[m].kind == kind {
            proof {
                lemma_mob_of(mobs@, kind, m + 1);
            }
            return Some(m);
        }
        m = m + 1;
    }
    None
}

/// Which entities are drawn, given which are in sight.
pub fn shown_entities(looks: &Vec<EntityLook>, mobs: &Vec<MobEntry>, visible: &Vec<bool>) -> (shown:
    Vec<Shown>)
    requires
        visible@.len() == looks@.len(),
    ensures
        shown@ == shown_of(looks@, mobs@, visible@, looks@.len() as int),
        forall|k: int|
            0 <= k < shown@.len() ==> (#[trigger] shown@[k]).entity < looks@.len() && shown@[k].mob
                < mobs@.len() && mobs@[shown@[k].mob as int].kind
                == looks@[shown@[k].entity as int].kind,
{
    let mut shown: Vec<Shown> = Vec::new();
    let mut n: usize = 0;
    while n < looks.len()
        invariant
            n <= looks@.len() == visible@.len(),
            shown@ == shown_of(looks@, mobs@, visible@, n as int),
            forall|k: int|
                0 <= k < shown@.len() ==> (#[trigger] shown@[k]).entity < looks@.len()
                    && shown@[k].mob < mobs@.len() && mobs@[shown@[k].mob as int].kind
                    == looks@[shown@[k].entity as int].kind,
        decreases looks@.len() - n,
    {
        proof {
            lemma_mob_within(mobs@, looks@[n as int].kind, mobs@.len() as int);
        }
        if let Some(mob) = find_mob(mobs, looks[n].kind) {
            if looks[n].skip_cull || visible[n] {
                shown.push(Shown { entity: n, mob });
            }
        }
        n = n + 1;
    }
    shown
}

/// The variants the drawn entities are drawn with.
pub fn vis_entities(
    looks: &Vec<EntityLook>,
    mobs: &Vec<MobEntry>,
    skins: &SkinCache,
    shown: &Vec<Shown>,
) -> (vis: Vec<VisEntity>)
    requires
        forall|m: int| 0 <= m < mobs@.len() ==> (#[trigger] mobs@[m]).wf(),
        forall|k: int|
            0 <= k < shown@.len() ==> (#[trigger] shown@[k]).entity < looks@.len() && shown@[k].mob
                < mobs@.len(),
    ensures
        vis@.len() == shown@.len(),
        forall|k: int|
            0 <= k < vis@.len() ==> looks_like(
                #[trigger] vis@[k],
                looks@[shown@[k].entity as int],
                mobs@[shown@[k].mob as int],
                *skins,
            ),
{
    let mut vis: Vec<VisEntity> = Vec::new();
    let mut k: usize = 0;
    while k < shown.len()
        invariant
            k <= shown@.len(),
            forall|m: int| 0 <= m < mobs@.len() ==> (#[trigger] mobs@[m]).wf(),
            forall|k: int|
                0 <= k < shown@.len() ==> (#[trigger] shown@[k]).entity < looks@.len()
                    && shown@[k].mob < mobs@.len(),
            vis@.len() == k,
            forall|k: int|
                0 <= k < vis@.len() ==> looks_like(
                    #[trigger] vis@[k],
                    looks@[shown@[k].entity as int],
                    mobs@[shown@[k].mob as int],
                    *skins,
                ),
        decreases shown@.len() - k,
    {
        let at = shown[k];
        vis.push(vis_entity(&looks[at.entity], &mobs[at.mob], skins));
        k = k + 1;
    }
    vis
}

/// The base models among the first `n` entities that are culled, or not.
pub open spec fn base_adds(vis: Seq<VisEntity>, culled: bool, n: int) -> Seq<Addition>
    decreases n,
{
    if n <= 0 {
        Seq::empty()
    } else {
        let rest = base_adds(vis, culled, n - 1);
        let v = vis[n - 1];
        if (v.base_kind == OverlayKind::OpaqueCulled) == culled {
            rest.push(
                Addition {
                    variant: v.base_variant,
                    set: v.base_set,
                    member: Member {
                        entity: (n - 1) as usize,
                        slot: None,
                        red: v.red,
                        scrolls: false,
                    },
                },
            )
        } else {
            rest
        }
    }
}

/// Whether an overlay slot is drawn in the pass of `kind`.
pub open spec fn shows(v: VisEntity, slot: int, kind: OverlayKind) -> bool {
    slot < v.overlays@.len() && v.overlays@[slot].kind == kind && v.overlays@[slot].tinted
}

/// Overlays of a kind flash red with their entity; those that glow do not.
pub open spec fn flashes(kind: OverlayKind) -> bool {
    kind != OverlayKind::EyesTranslucent && kind != OverlayKind::SwirlAdditive
}

/// An overlay slot as an addition.
pub open spec fn slot_add(v: VisEntity, entity: int, slot: int) -> Addition {
    Addition {
        variant: v.overlays@[slot].variant,
        set: v.overlays@[slot].set,
        member: Member {
            entity: entity as usize,
            slot: Some(slot as usize),
            red: v.red && flashes(v.overlays@[slot].kind),
            scrolls: v.overlays@[slot].kind == OverlayKind::SwirlAdditive,
        },
    }
}

/// One slot across the first `n` entities.
pub open spec fn slot_adds(vis: Seq<VisEntity>, kind: OverlayKind, slot: int, n: int) -> Seq<Addition>
    decreases n,
{
    if n <= 0 {
        Seq::empty()
    } else if shows(vis[n - 1], slot, kind) {
        slot_adds(vis, kind, slot, n - 1).push(slot_add(vis[n - 1], n - 1, slot))
    } else {
        slot_adds(vis, kind, slot, n - 1)
    }
}

/// The first `slots` slots, each across all entities.
pub open spec fn phase_adds(vis: Seq<VisEntity>, kind: OverlayKind, slots: int) -> Seq<Addition>
    decreases slots,
{
    if slots <= 0 {
        Seq::empty()
    } else {
        phase_adds(vis, kind, slots - 1) + slot_adds(vis, kind, slots - 1, vis.len() as int)
    }
}

/// The additions of an opaque pass, in layer phases.
pub open spec fn opaque_adds(vis: Seq<VisEntity>, culled: bool) -> Seq<Addition> {
    base_adds(vis, culled, vis.len() as int) + phase_adds(
        vis,
        if culled {
            OverlayKind::OpaqueCulled
        } else {
            OverlayKind::Opaque
        },
        MAX_OVERLAYS as int,
    )
}

/// The first `slots` slots of one entity.
pub open spec fn entity_adds(v: VisEntity, entity: int, kind: OverlayKind, slots: int) -> Seq<Addition>
    decreases slots,
{
    if slots <= 0 {
        Seq::empty()
    } else if shows(v, slots - 1, kind) {
        entity_adds(v, entity, kind, slots - 1).push(slot_add(v, entity, slots - 1))
    } else {
        entity_adds(v, entity, kind, slots - 1)
    }
}

/// The additions of an overlay pass, entity by entity.
pub open spec fn overlay_adds(vis: Seq<VisEntity>, kind: OverlayKind, n: int) -> Seq<Addition>
    decreases n,
{
    if n <= 0 {
        Seq::empty()
    } else {
        overlay_adds(vis, kind, n - 1) + entity_adds(
            vis[n - 1],
            n - 1,
            kind,
            vis[n - 1].overlays@.len() as int,
        )
    }
}

proof fn lemma_base_phase(vis: Seq<VisEntity>, culled: bool, n: int, i: int)
    requires
        0 <= n <= vis.len(),
        0 <= i < base_adds(vis, culled, n).len(),
    ensures
        phase(base_adds(vis, culled, n)[i].member) == 0,
    decreases n,
{
    if i < base_adds(vis, culled, n - 1).len() {
        lemma_base_phase(vis, culled, n - 1, i);
    }
}

proof fn lemma_slot_phase(vis: Seq<VisEntity>, kind: OverlayKind, slot: int, n: int, i: int)
    requires
        0 <= n <= vis.len(),
        0 <= slot < MAX_OVERLAYS,
        0 <= i < slot_adds(vis, kind, slot, n).len(),
    ensures
        phase(slot_adds(vis, kind, slot, n)[i].member) == slot + 1,
    decreases n,
{
    if i < slot_adds(vis, kind, slot, n - 1).len() {
        lemma_slot_phase(vis, kind, slot, n - 1, i);
    }
}

proof fn lemma_phases_sorted(vis: Seq<VisEntity>, kind: OverlayKind, slots: int)
    requires
        0 <= slots <= MAX_OVERLAYS,
    ensures
        phases_in_order(phase_adds(vis, kind, slots)),
        forall|i: int|
            0 <= i < phase_adds(vis, kind, slots).len() ==> 1 <= phase(
                (#[trigger] phase_adds(vis, kind, slots)[i]).member,
            ) <= slots,
    decreases slots,
{
    if slots > 0 {
        lemma_phases_sorted(vis, kind, slots - 1);
        let head = phase_adds(vis, kind, slots - 1);
        let tail = slot_adds(vis, kind, slots - 1, vis.len() as int);
        let all = phase_adds(vis, kind, slots);
        assert forall|i: int| 0 <= i < all.len() implies 1 <= phase((#[trigger] all[i]).member)
            <= slots && (i < head.len() ==> all[i] == head[i]) && (i >= head.len() ==> phase(
            all[i].member,
        ) == slots) by {
            if i >= head.len() {
                assert(all[i] == tail[i - head.len()]);
                lemma_slot_phase(vis, kind, slots - 1, vis.len() as int, i - head.len());
            } else {
                assert(all[i] == head[i]);
            }
        }
        assert forall|i: int, j: int| 0 <= i < j < all.len() implies phase(
            #[trigger] all[i].member,
        ) <= phase(#[trigger] all[j].member) by {
            assert(all[i] == all[i] && all[j] == all[j]);
            if j < head.len() {
                assert(phase(head[i].member) <= phase(head[j].member));
            }
        }
    }
}

/// An opaque pass adds its layers in order.
pub proof fn law_opaque_pass_is_phased(vis: Seq<VisEntity>, culled: bool)
    ensures
        phases_in_order(opaque_adds(vis, culled)),
{
    let kind = if culled {
        OverlayKind::OpaqueCulled
    } else {
        OverlayKind::Opaque
    };
    let head = base_adds(vis, culled, vis.len() as int);
    let tail = phase_adds(vis, kind, MAX_OVERLAYS as int);
    lemma_phases_sorted(vis, kind, MAX_OVERLAYS as int);
    let all = opaque_adds(vis, culled);
    assert forall|i: int, j: int| 0 <= i < j < all.len() implies phase(#[trigger] all[i].member)
        <= phase(#[trigger] all[j].member) by {
        if i < head.len() {
            lemma_base_phase(vis, culled, vis.len() as int, i);
            assert(all[i] == head[i]);
            if j >= head.len() {
                assert(all[j] == tail[j - head.len()]);
            } else {
                lemma_base_phase(vis, culled, vis.len() as int, j);
                assert(all[j] == head[j]);
            }
        } else {
            assert(all[i] == tail[i - head.len()]);
            assert(all[j] == tail[j - head.len()]);
            assert(phase(tail[i - head.len()].member) <= phase(tail[j - head.len()].member));
        }
    }
}

/// Groups the base models and opaque overlays of a pass.
pub fn collect_layers(vis: &Vec<VisEntity>, culled: bool) -> (groups: VariantGroups)
    ensures
        groups@ == group_all(opaque_adds(vis@, culled)),
{
    let kind = if culled {
        OverlayKind::OpaqueCulled
    } else {
        OverlayKind::Opaque
    };
    let mut groups = VariantGroups::new();
    let ghost mut adds: Seq<Addition> = Seq::empty();
    let mut i: usize = 0;
    while i < vis.len()
        invariant
            i <= vis@.len(),
            adds == base_adds(vis@, culled, i as int),
            groups@ == group_all(adds),
        decreases vis@.len() - i,
    {
        let v = &vis[i];
        let is_culled = v.base_kind == OverlayKind::OpaqueCulled;
        if is_culled == culled {
            let (red, scrolls) = layer_look(None, v.red);
            let member = Member { entity: i, slot: None, red, scrolls };
            groups.add(v.base_variant, v.base_set, member);
            proof {
                let a = Addition { variant: v.base_variant, set: v.base_set, member };
                lemma_group_step(adds, a);
                adds = adds.push(a);
            }
        }
        i = i + 1;
    }
    let ghost bases = adds;
    let mut slot: usize = 0;
    assert(bases + phase_adds(vis@, kind, 0) =~= bases);
    while slot < MAX_OVERLAYS
        invariant
            slot <= MAX_OVERLAYS,
            adds == bases + phase_adds(vis@, kind, slot as int),
            groups@ == group_all(adds),
        decreases MAX_OVERLAYS - slot,
    {
        let ghost below = adds;
        assert(below + slot_adds(vis@, kind, slot as int, 0) =~= below);
        let mut e: usize = 0;
        while e < vis.len()
            invariant
                e <= vis@.len(),
                slot < MAX_OVERLAYS,
                adds == below + slot_adds(vis@, kind, slot as int, e as int),
                groups@ == group_all(adds),
            decreases vis@.len() - e,
        {
            let v = &vis[e];
            if slot < v.overlays.len() && v.overlays[slot].kind == kind && v.overlays[slot].tinted {
                let overlay = v.overlays[slot];
                let (red, scrolls) = layer_look(Some(overlay.kind), v.red);
                let member = Member { entity: e, slot: Some(slot), red, scrolls };
                groups.add(overlay.variant, overlay.set, member);
                proof {
                    let a = Addition { variant: overlay.variant, set: overlay.set, member };
                    lemma_group_step(adds, a);
                    adds = adds.push(a);
                }
            }
            e = e + 1;
            assert(adds =~= below + slot_adds(vis@, kind, slot as int, e as int));
        }
        slot = slot + 1;
        assert(adds =~= bases + phase_adds(vis@, kind, slot as int));
    }
    groups
}

/// Groups the overlays of one non-opaque kind.
pub fn collect_overlays(vis: &Vec<VisEntity>, kind: OverlayKind) -> (groups: VariantGroups)
    ensures
        groups@ == group_all(overlay_adds(vis@, kind, vis@.len() as int)),
{
    let mut groups = VariantGroups::new();
    let ghost mut adds: Seq<Addition> = Seq::empty();
    let mut e: usize = 0;
    while e < vis.len()
        invariant
            e <= vis@.len(),
            adds == overlay_adds(vis@, kind, e as int),
            groups@ == group_all(adds),
        decreases vis@.len() - e,
    {
        let ghost before = adds;
        let v = &vis[e];
        let mut slot: usize = 0;
        assert(before + entity_adds(*v, e as int, kind, 0) =~= before);
        while slot < v.overlays.len()
            invariant
                e < vis@.len(),
                v == vis@[e as int],
                slot <= v.overlays@.len(),
                adds == before + entity_adds(*v, e as int, kind, slot as int),
                groups@ == group_all(adds),
            decreases v.overlays@.len() - slot,
        {
            let overlay = v.overlays[slot];
            if overlay.kind == kind && overlay.tinted {
                let (red, scrolls) = layer_look(Some(overlay.kind), v.red);
                let member = Member { entity: e, slot: Some(slot), red, scrolls };
                groups.add(overlay.variant, overlay.set, member);
                proof {
                    let a = Addition { variant: overlay.variant, set: overlay.set, member };
                    lemma_group_step(adds, a);
                    adds = adds.push(a);
                }
            }
            slot = slot + 1;
            assert(adds =~= before + entity_adds(*v, e as int, kind, slot as int));
        }
        e = e + 1;
    }
    groups
}

/// One entry of the instance buffer: a member's part.
#[derive(Clone, Copy, Debug, PartialEq, Eq, Structural)]
pub struct Instance {
    pub member: Member,
    pub variant: usize,
    pub part: usize,
}

/// One instanced draw of a variant's part.
#[derive(Clone, Copy, Debug, PartialEq, Eq, Structural)]
pub struct DrawRecord {
    pub variant: usize,
    pub set: u64,
    pub part_start: u32,
    pub part_count: u32,
    pub first_instance: u32,
    pub instance_count: u32,
}

/// One part of every member.
pub open spec fn part_instances(group: GroupView, part: int) -> Seq<Instance> {
    group.members.map_values(
        |member: Member| Instance { member, variant: group.variant, part: part as usize },
    )
}

/// The instances of a group's first `n` parts; empty parts have none.
pub open spec fn group_instances(group: GroupView, parts: Seq<PartRange>, n: int) -> Seq<Instance>
    decreases n,
{
    if n <= 0 {
        Seq::empty()
    } else {
        group_instances(group, parts, n - 1) + (if parts[n - 1].count == 0 {
            Seq::empty()
        } else {
            part_instances(group, n - 1)
        })
    }
}

/// The draws of a group's first `n` parts, whose instances begin at `base`.
pub open spec fn group_records(group: GroupView, parts: Seq<PartRange>, n: int, base: int) -> Seq<
    DrawRecord,
>
    decreases n,
{
    if n <= 0 {
        Seq::empty()
    } else {
        let rest = group_records(group, parts, n - 1, base);
        if parts[n - 1].count == 0 {
            rest
        } else {
            rest.push(
                DrawRecord {
                    variant: group.variant,
                    set: group.set,
                    part_start: parts[n - 1].start,
                    part_count: parts[n - 1].count,
                    first_instance: (base + group_instances(group, parts, n - 1).len()) as u32,
                    instance_count: group.members.len() as u32,
                },
            )
        }
    }
}

/// The part ranges of a group's variant.
pub open spec fn parts_of(meshes: Seq<Vec<PartRange>>, group: GroupView) -> Seq<PartRange> {
    meshes[group.variant as int]@
}

/// The instances of the first `n` groups.
pub open spec fn all_instances(groups: Seq<GroupView>, meshes: Seq<Vec<PartRange>>, n: int) -> Seq<
    Instance,
>
    decreases n,
{
    if n <= 0 {
        Seq::empty()
    } else {
        let parts = parts_of(meshes, groups[n - 1]);
        all_instances(groups, meshes, n - 1) + group_instances(
            groups[n - 1],
            parts,
            parts.len() as int,
        )
    }
}

/// The draws of the first `n` groups.
pub open spec fn all_records(
    groups: Seq<GroupView>,
    meshes: Seq<Vec<PartRange>>,
    n: int,
    base: int,
) -> Seq<DrawRecord>
    decreases n,
{
    if n <= 0 {
        Seq::empty()
    } else {
        let parts = parts_of(meshes, groups[n - 1]);
        all_records(groups, meshes, n - 1, base) + group_records(
            groups[n - 1],
            parts,
            parts.len() as int,
            base + all_instances(groups, meshes, n - 1).len(),
        )
    }
}

/// Every group's variant has a mesh.
pub open spec fn meshes_known(groups: Seq<GroupView>, meshes: Seq<Vec<PartRange>>) -> bool {
    forall|g: int| 0 <= g < groups.len() ==> (#[trigger] groups[g]).variant < meshes.len()
}

proof fn lemma_instances_monotonic(groups: Seq<GroupView>, meshes: Seq<Vec<PartRange>>, a: int, b: int)
    requires
        0 <= a <= b,
    ensures
        all_instances(groups, meshes, a).len() <= all_instances(groups, meshes, b).len(),
    decreases b,
{
    if a < b {
        lemma_instances_monotonic(groups, meshes, a, b - 1);
    }
}

proof fn lemma_group_monotonic(group: GroupView, parts: Seq<PartRange>, a: int, b: int)
    requires
        0 <= a <= b,
    ensures
        group_instances(group, parts, a).len() <= group_instances(group, parts, b).len(),
    decreases b,
{
    if a < b {
        lemma_group_monotonic(group, parts, a, b - 1);
    }
}

fn emit_group(
    group: &VariantGroup,
    parts: &Vec<PartRange>,
    instances: &mut Vec<Instance>,
    records: &mut Vec<DrawRecord>,
)
    requires
        old(instances)@.len() + group_instances(group@, parts@, parts@.len() as int).len()
            <= u32::MAX,
    ensures
        final(instances)@ == old(instances)@ + group_instances(
            group@,
            parts@,
            parts@.len() as int,
        ),
        final(records)@ == old(records)@ + group_records(
            group@,
            parts@,
            parts@.len() as int,
            old(instances)@.len() as int,
        ),
{
    let ghost base = instances@;
    let ghost earlier = records@;
    let ghost view = group@;
    let mut p: usize = 0;
    assert(base + group_instances(view, parts@, 0) =~= base);
    assert(earlier + group_records(view, parts@, 0, base.len() as int) =~= earlier);
    while p < parts.len()
        invariant
            p <= parts@.len(),
            view == group@,
            base.len() + group_instances(view, parts@, parts@.len() as int).len() <= u32::MAX,
            instances@ == base + group_instances(view, parts@, p as int),
            records@ == earlier + group_records(view, parts@, p as int, base.len() as int),
        decreases parts@.len() - p,
    {
        let part = parts[p];
        proof {
            lemma_group_monotonic(view, parts@, p as int, parts@.len() as int);
            lemma_group_monotonic(view, parts@, p + 1, parts@.len() as int);
        }
        if part.count != 0 {
            let first_instance: u32 = instances.len() as u32;
            let ghost before = instances@;
            let ghost wanted = part_instances(view, p as int);
            assert(group_instances(view, parts@, p + 1).len() == group_instances(
                view,
                parts@,
                p as int,
            ).len() + wanted.len());
            let mut k: usize = 0;
            assert(before + wanted.take(0) =~= before);
            while k < group.members.len()
                invariant
                    k <= group.members@.len(),
                    view == group@,
                    wanted == part_instances(view, p as int),
                    instances@ == before + wanted.take(k as int),
                decreases group.members@.len() - k,
            {
                instances.push(
                    Instance { member: group.members[k], variant: group.variant, part: p },
                );
                k = k + 1;
                assert(instances@ =~= before + wanted.take(k as int));
            }
            assert(wanted.take(wanted.len() as int) =~= wanted);
            records.push(
                DrawRecord {
                    variant: group.variant,
                    set: group.set,
                    part_start: part.start,
                    part_count: part.count,
                    first_instance,
                    instance_count: group.members.len() as u32,
                },
            );
        }
        p = p + 1;
        assert(instances@ =~= base + group_instances(view, parts@, p as int));
        assert(records@ =~= earlier + group_records(view, parts@, p as int, base.len() as int));
    }
}

impl VariantGroups {
    /// Writes the groups' instances behind those already there and returns one
    /// draw per group and non-empty part.
    pub fn emit(&self, meshes: &Vec<Vec<PartRange>>, instances: &mut Vec<Instance>) -> (records: Vec<
        DrawRecord,
    >)
        requires
            meshes_known(self@, meshes@),
            old(instances)@.len() + all_instances(self@, meshes@, self@.len() as int).len()
                <= u32::MAX,
        ensures
            final(instances)@ == old(instances)@ + all_instances(
                self@,
                meshes@,
                self@.len() as int,
            ),
            records@ == all_records(
                self@,
                meshes@,
                self@.len() as int,
                old(instances)@.len() as int,
            ),
    {
        let ghost base = instances@;
        let ghost groups = self@;
        let mut records: Vec<DrawRecord> = Vec::new();
        let mut g: usize = 0;
        assert(base + all_instances(groups, meshes@, 0) =~= base);
        while g < self.groups.len()
            invariant
                groups == self@,
                g <= self.groups@.len(),
                meshes_known(groups, meshes@),
                base.len() + all_instances(groups, meshes@, groups.len() as int).len() <= u32::MAX,
                instances@ == base + all_instances(groups, meshes@, g as int),
                records@ == all_records(groups, meshes@, g as int, base.len() as int),
            decreases self.groups@.len() - g,
        {
            let group = &self.groups[g];
            assert(groups[g as int] == group@);
            proof {
                lemma_instances_monotonic(groups, meshes@, g + 1, groups.len() as int);
            }
            emit_group(group, &meshes[group.variant], instances, &mut records);
            g = g + 1;
            assert(instances@ =~= base + all_instances(groups, meshes@, g as int));
        }
        records
    }
}

proof fn lemma_group_records_tile(group: GroupView, parts: Seq<PartRange>, n: int, base: int)
    requires
        0 <= n <= parts.len(),
        0 <= base,
        base + group_instances(group, parts, n).len() <= u32::MAX,
    ensures
        tiles(
            group_records(group, parts, n, base),
            base,
            base + group_instances(group, parts, n).len(),
        ),
    decreases n,
{
    if n > 0 {
        lemma_group_monotonic(group, parts, n - 1, n);
        lemma_group_records_tile(group, parts, n - 1, base);
        let rest = group_records(group, parts, n - 1, base);
        let mid = base + group_instances(group, parts, n - 1).len();
        if parts[n - 1].count != 0 {
            let last = group_records(group, parts, n, base).last();
            lemma_tiles_push(rest, base, mid, last);
        }
    }
}

/// `records` cover the instances from `from` to `to` without gap or overlap.
pub open spec fn tiles(records: Seq<DrawRecord>, from: int, to: int) -> bool
    decreases records.len(),
{
    if records.len() == 0 {
        from == to
    } else {
        let last = records.last();
        &&& last.first_instance + last.instance_count == to
        &&& tiles(records.drop_last(), from, last.first_instance as int)
    }
}

proof fn lemma_tiles_push(records: Seq<DrawRecord>, from: int, mid: int, last: DrawRecord)
    requires
        tiles(records, from, mid),
        last.first_instance == mid,
    ensures
        tiles(records.push(last), from, mid + last.instance_count),
{
    assert(records.push(last).drop_last() =~= records);
}

proof fn lemma_tiles_concat(a: Seq<DrawRecord>, b: Seq<DrawRecord>, from: int, mid: int, to: int)
    requires
        tiles(a, from, mid),
        tiles(b, mid, to),
    ensures
        tiles(a + b, from, to),
    decreases b.len(),
{
    if b.len() == 0 {
        assert(a + b =~= a);
    } else {
        assert((a + b).drop_last() =~= a + b.drop_last());
        lemma_tiles_concat(a, b.drop_last(), from, mid, b.last().first_instance as int);
    }
}

/// The draws of a pass cover exactly the instances it wrote, in order.
pub proof fn law_draws_tile_the_instances(
    groups: Seq<GroupView>,
    meshes: Seq<Vec<PartRange>>,
    n: int,
    base: int,
)
    requires
        0 <= n <= groups.len(),
        0 <= base,
        base + all_instances(groups, meshes, n).len() <= u32::MAX,
    ensures
        tiles(
            all_records(groups, meshes, n, base),
            base,
            base + all_instances(groups, meshes, n).len(),
        ),
    decreases n,
{
    if n > 0 {
        lemma_instances_monotonic(groups, meshes, n - 1, n);
        law_draws_tile_the_instances(groups, meshes, n - 1, base);
        let parts = parts_of(meshes, groups[n - 1]);
        let mid = base + all_instances(groups, meshes, n - 1).len();
        lemma_group_records_tile(groups[n - 1], parts, parts.len() as int, mid);
        lemma_tiles_concat(
            all_records(groups, meshes, n - 1, base),
            group_records(groups[n - 1], parts, parts.len() as int, mid),
            base,
            mid,
            base + all_instances(groups, meshes, n).len(),
        );
    }
}

/// The five passes of a frame and the instances they share.
pub struct FramePlan {
    pub opaque: Vec<DrawRecord>,
    pub culled: Vec<DrawRecord>,
    pub body: Vec<DrawRecord>,
    pub eyes: Vec<DrawRecord>,
    pub swirl: Vec<DrawRecord>,
    pub instances: Vec<Instance>,
}

/// The groups of a pass.
pub open spec fn pass_groups(vis: Seq<VisEntity>, kind: OverlayKind) -> Seq<GroupView> {
    match kind {
        OverlayKind::Opaque => group_all(opaque_adds(vis, false)),
        OverlayKind::OpaqueCulled => group_all(opaque_adds(vis, true)),
        _ => group_all(overlay_adds(vis, kind, vis.len() as int)),
    }
}

/// The instances of a pass.
pub open spec fn pass_instances(
    vis: Seq<VisEntity>,
    meshes: Seq<Vec<PartRange>>,
    kind: OverlayKind,
) -> Seq<Instance> {
    all_instances(pass_groups(vis, kind), meshes, pass_groups(vis, kind).len() as int)
}

/// Where the instances of a pass begin: behind those of the passes before it.
pub open spec fn pass_start(
    vis: Seq<VisEntity>,
    meshes: Seq<Vec<PartRange>>,
    kind: OverlayKind,
) -> int {
    let opaque = pass_instances(vis, meshes, OverlayKind::Opaque).len() as int;
    let culled = pass_instances(vis, meshes, OverlayKind::OpaqueCulled).len() as int;
    let body = pass_instances(vis, meshes, OverlayKind::BodyTranslucent).len() as int;
    let eyes = pass_instances(vis, meshes, OverlayKind::EyesTranslucent).len() as int;
    match kind {
        OverlayKind::Opaque => 0,
        OverlayKind::OpaqueCulled => opaque,
        OverlayKind::BodyTranslucent => opaque + culled,
        OverlayKind::EyesTranslucent => opaque + culled + body,
        OverlayKind::SwirlAdditive => opaque + culled + body + eyes,
    }
}

/// The draws of a pass.
pub open spec fn pass_records(
    vis: Seq<VisEntity>,
    meshes: Seq<Vec<PartRange>>,
    kind: OverlayKind,
) -> Seq<DrawRecord> {
    let groups = pass_groups(vis, kind);
    all_records(groups, meshes, groups.len() as int, pass_start(vis, meshes, kind))
}

/// Every entity's variants have meshes.
pub open spec fn variants_known(vis: Seq<VisEntity>, meshes: Seq<Vec<PartRange>>) -> bool {
    forall|e: int|
        #![trigger vis[e]]
        0 <= e < vis.len() ==> vis[e].base_variant < meshes.len() && forall|s: int|
            0 <= s < vis[e].overlays@.len() ==> (#[trigger] vis[e].overlays@[s]).variant
                < meshes.len()
}

/// Additions refer to known variants.
pub open spec fn adds_known(adds: Seq<Addition>, meshes: Seq<Vec<PartRange>>) -> bool {
    forall|i: int| 0 <= i < adds.len() ==> (#[trigger] adds[i]).variant < meshes.len()
}

proof fn lemma_group_variants_known(adds: Seq<Addition>, meshes: Seq<Vec<PartRange>>)
    requires
        adds_known(adds, meshes),
    ensures
        meshes_known(group_all(adds), meshes),
    decreases adds.len(),
{
    if adds.len() > 0 {
        let rest = adds.drop_last();
        assert forall|i: int| 0 <= i < rest.len() implies (#[trigger] rest[i]).variant < meshes.len() by {
            assert(rest[i] == adds[i]);
        }
        lemma_group_variants_known(rest, meshes);
        assert(adds[adds.len() - 1].variant < meshes.len());
        let before = group_all(rest);
        lemma_find_range(before, adds.last().variant, adds.last().set, before.len() as int);
    }
}

proof fn lemma_base_known(vis: Seq<VisEntity>, meshes: Seq<Vec<PartRange>>, culled: bool, n: int)
    requires
        variants_known(vis, meshes),
        0 <= n <= vis.len(),
    ensures
        adds_known(base_adds(vis, culled, n), meshes),
    decreases n,
{
    if n > 0 {
        lemma_base_known(vis, meshes, culled, n - 1);
        assert(vis[n - 1].base_variant < meshes.len());
    }
}

proof fn lemma_slot_known(
    vis: Seq<VisEntity>,
    meshes: Seq<Vec<PartRange>>,
    kind: OverlayKind,
    slot: int,
    n: int,
)
    requires
        variants_known(vis, meshes),
        0 <= n <= vis.len(),
        0 <= slot,
    ensures
        adds_known(slot_adds(vis, kind, slot, n), meshes),
    decreases n,
{
    if n > 0 {
        lemma_slot_known(vis, meshes, kind, slot, n - 1);
        if shows(vis[n - 1], slot, kind) {
            assert(vis[n - 1].overlays@[slot].variant < meshes.len());
        }
    }
}

proof fn lemma_phase_known(vis: Seq<VisEntity>, meshes: Seq<Vec<PartRange>>, kind: OverlayKind, slots: int)
    requires
        variants_known(vis, meshes),
    ensures
        adds_known(phase_adds(vis, kind, slots), meshes),
    decreases slots,
{
    if slots > 0 {
        lemma_phase_known(vis, meshes, kind, slots - 1);
        lemma_slot_known(vis, meshes, kind, slots - 1, vis.len() as int);
        let head = phase_adds(vis, kind, slots - 1);
        let tail = slot_adds(vis, kind, slots - 1, vis.len() as int);
        assert forall|i: int| 0 <= i < (head + tail).len() implies (#[trigger] (head + tail)[i]).variant
            < meshes.len() by {
            if i < head.len() {
                assert((head + tail)[i] == head[i]);
            } else {
                assert((head + tail)[i] == tail[i - head.len()]);
            }
        }
    }
}

proof fn lemma_entity_known(
    vis: Seq<VisEntity>,
    meshes: Seq<Vec<PartRange>>,
    e: int,
    kind: OverlayKind,
    slots: int,
)
    requires
        variants_known(vis, meshes),
        0 <= e < vis.len(),
        slots <= vis[e].overlays@.len(),
    ensures
        adds_known(entity_adds(vis[e], e, kind, slots), meshes),
    decreases slots,
{
    if slots > 0 {
        lemma_entity_known(vis, meshes, e, kind, slots - 1);
        assert(vis[e].overlays@[slots - 1].variant < meshes.len());
    }
}

proof fn lemma_overlay_known(vis: Seq<VisEntity>, meshes: Seq<Vec<PartRange>>, kind: OverlayKind, n: int)
    requires
        variants_known(vis, meshes),
        0 <= n <= vis.len(),
    ensures
        adds_known(overlay_adds(vis, kind, n), meshes),
    decreases n,
{
    if n > 0 {
        lemma_overlay_known(vis, meshes, kind, n - 1);
        lemma_entity_known(vis, meshes, n - 1, kind, vis[n - 1].overlays@.len() as int);
        let head = overlay_adds(vis, kind, n - 1);
        let tail = entity_adds(vis[n - 1], n - 1, kind, vis[n - 1].overlays@.len() as int);
        assert forall|i: int| 0 <= i < (head + tail).len() implies (#[trigger] (head + tail)[i]).variant
            < meshes.len() by {
            if i < head.len() {
                assert((head + tail)[i] == head[i]);
            } else {
                assert((head + tail)[i] == tail[i - head.len()]);
            }
        }
    }
}

proof fn lemma_pass_known(vis: Seq<VisEntity>, meshes: Seq<Vec<PartRange>>, kind: OverlayKind)
    requires
        variants_known(vis, meshes),
    ensures
        meshes_known(pass_groups(vis, kind), meshes),
{
    if kind == OverlayKind::Opaque || kind == OverlayKind::OpaqueCulled {
        let culled = kind == OverlayKind::OpaqueCulled;
        lemma_base_known(vis, meshes, culled, vis.len() as int);
        lemma_phase_known(vis, meshes, kind, MAX_OVERLAYS as int);
        let head = base_adds(vis, culled, vis.len() as int);
        let tail = phase_adds(vis, kind, MAX_OVERLAYS as int);
        assert forall|i: int| 0 <= i < (head + tail).len() implies (#[trigger] (head + tail)[i]).variant
            < meshes.len() by {
            if i < head.len() {
                assert((head + tail)[i] == head[i]);
            } else {
                assert((head + tail)[i] == tail[i - head.len()]);
            }
        }
        lemma_group_variants_known(opaque_adds(vis, culled), meshes);
    } else {
        lemma_overlay_known(vis, meshes, kind, vis.len() as int);
        lemma_group_variants_known(overlay_adds(vis, kind, vis.len() as int), meshes);
    }
}

/// All instances of a frame, pass after pass.
pub open spec fn frame_instances(vis: Seq<VisEntity>, meshes: Seq<Vec<PartRange>>) -> Seq<Instance> {
    pass_instances(vis, meshes, OverlayKind::Opaque) + pass_instances(
        vis,
        meshes,
        OverlayKind::OpaqueCulled,
    ) + pass_instances(vis, meshes, OverlayKind::BodyTranslucent) + pass_instances(
        vis,
        meshes,
        OverlayKind::EyesTranslucent,
    ) + pass_instances(vis, meshes, OverlayKind::SwirlAdditive)
}

/// Plans the draws of the visible entities. `meshes` holds the part ranges of
/// each variant.
pub fn plan_frame(vis: &Vec<VisEntity>, meshes: &Vec<Vec<PartRange>>) -> (plan: FramePlan)
    requires
        variants_known(vis@, meshes@),
        frame_instances(vis@, meshes@).len() <= u32::MAX,
    ensures
        plan.instances@ == frame_instances(vis@, meshes@),
        plan.opaque@ == pass_records(vis@, meshes@, OverlayKind::Opaque),
        plan.culled@ == pass_records(vis@, meshes@, OverlayKind::OpaqueCulled),
        plan.body@ == pass_records(vis@, meshes@, OverlayKind::BodyTranslucent),
        plan.eyes@ == pass_records(vis@, meshes@, OverlayKind::EyesTranslucent),
        plan.swirl@ == pass_records(vis@, meshes@, OverlayKind::SwirlAdditive),
{
    let mut instances: Vec<Instance> = Vec::new();
    proof {
        lemma_pass_known(vis@, meshes@, OverlayKind::Opaque);
        lemma_pass_known(vis@, meshes@, OverlayKind::OpaqueCulled);
        lemma_pass_known(vis@, meshes@, OverlayKind::BodyTranslucent);
        lemma_pass_known(vis@, meshes@, OverlayKind::EyesTranslucent);
        lemma_pass_known(vis@, meshes@, OverlayKind::SwirlAdditive);
    }
    let opaque_groups = collect_layers(vis, false);
    let culled_groups = collect_layers(vis, true);
    let body_groups = collect_overlays(vis, OverlayKind::BodyTranslucent);
    let eyes_groups = collect_overlays(vis, OverlayKind::EyesTranslucent);
    let swirl_groups = collect_overlays(vis, OverlayKind::SwirlAdditive);
    let opaque = opaque_groups.emit(meshes, &mut instances);
    let culled = culled_groups.emit(meshes, &mut instances);
    let body = body_groups.emit(meshes, &mut instances);
    let eyes = eyes_groups.emit(meshes, &mut instances);
    let swirl = swirl_groups.emit(meshes, &mut instances);
    assert(instances@ =~= frame_instances(vis@, meshes@));
    FramePlan { opaque, culled, body, eyes, swirl, instances }
}

/// The looks a pass gives its members.
pub open spec fn looks_right(vis: Seq<VisEntity>, kind: OverlayKind, m: Member) -> bool {
    &&& m.entity < vis.len()
    &&& m.red == (vis[m.entity as int].red && flashes(kind))
    &&& m.scrolls == (kind == OverlayKind::SwirlAdditive)
}

/// Every addition of a pass has its looks.
spec fn adds_look_right(vis: Seq<VisEntity>, kind: OverlayKind, adds: Seq<Addition>) -> bool {
    forall|i: int| 0 <= i < adds.len() ==> looks_right(vis, kind, (#[trigger] adds[i]).member)
}

/// Every member of a pass has its looks.
spec fn groups_look_right(vis: Seq<VisEntity>, kind: OverlayKind, groups: Seq<GroupView>) -> bool {
    forall|g: int, k: int|
        0 <= g < groups.len() && 0 <= k < groups[g].members.len() ==> looks_right(
            vis,
            kind,
            #[trigger] groups[g].members[k],
        )
}

proof fn lemma_groups_look(vis: Seq<VisEntity>, kind: OverlayKind, adds: Seq<Addition>)
    requires
        adds_look_right(vis, kind, adds),
    ensures
        groups_look_right(vis, kind, group_all(adds)),
    decreases adds.len(),
{
    if adds.len() > 0 {
        let rest = adds.drop_last();
        assert forall|i: int| 0 <= i < rest.len() implies looks_right(
            vis,
            kind,
            (#[trigger] rest[i]).member,
        ) by {
            assert(rest[i] == adds[i]);
        }
        lemma_groups_look(vis, kind, rest);
        let before = group_all(rest);
        let a = adds.last();
        lemma_find_range(before, a.variant, a.set, before.len() as int);
        assert(looks_right(vis, kind, adds[adds.len() - 1].member));
        let after = add_to(before, a);
        let at = place(before, a);
        assert forall|g: int, k: int|
            0 <= g < after.len() && 0 <= k < after[g].members.len() implies looks_right(
            vis,
            kind,
            #[trigger] after[g].members[k],
        ) by {
            if g < before.len() && k < before[g].members.len() {
                assert(after[g].members[k] == before[g].members[k]);
            }
        }
    }
}

proof fn lemma_base_looks(vis: Seq<VisEntity>, culled: bool, kind: OverlayKind, n: int)
    requires
        0 <= n <= vis.len() <= usize::MAX,
        flashes(kind),
    ensures
        adds_look_right(vis, kind, base_adds(vis, culled, n)),
    decreases n,
{
    if n > 0 {
        lemma_base_looks(vis, culled, kind, n - 1);
    }
}

proof fn lemma_slot_looks(vis: Seq<VisEntity>, kind: OverlayKind, slot: int, n: int)
    requires
        0 <= n <= vis.len() <= usize::MAX,
        0 <= slot,
    ensures
        adds_look_right(vis, kind, slot_adds(vis, kind, slot, n)),
    decreases n,
{
    if n > 0 {
        lemma_slot_looks(vis, kind, slot, n - 1);
    }
}

proof fn lemma_looks_concat(
    vis: Seq<VisEntity>,
    kind: OverlayKind,
    head: Seq<Addition>,
    tail: Seq<Addition>,
)
    requires
        adds_look_right(vis, kind, head),
        adds_look_right(vis, kind, tail),
    ensures
        adds_look_right(vis, kind, head + tail),
{
    assert forall|i: int| 0 <= i < (head + tail).len() implies looks_right(
        vis,
        kind,
        (#[trigger] (head + tail)[i]).member,
    ) by {
        if i < head.len() {
            assert((head + tail)[i] == head[i]);
        } else {
            assert((head + tail)[i] == tail[i - head.len()]);
        }
    }
}

proof fn lemma_phase_looks(vis: Seq<VisEntity>, kind: OverlayKind, slots: int)
    requires
        vis.len() <= usize::MAX,
    ensures
        adds_look_right(vis, kind, phase_adds(vis, kind, slots)),
    decreases slots,
{
    if slots > 0 {
        lemma_phase_looks(vis, kind, slots - 1);
        lemma_slot_looks(vis, kind, slots - 1, vis.len() as int);
        lemma_looks_concat(
            vis,
            kind,
            phase_adds(vis, kind, slots - 1),
            slot_adds(vis, kind, slots - 1, vis.len() as int),
        );
    }
}

proof fn lemma_entity_looks(vis: Seq<VisEntity>, e: int, kind: OverlayKind, slots: int)
    requires
        0 <= e < vis.len() <= usize::MAX,
    ensures
        adds_look_right(vis, kind, entity_adds(vis[e], e, kind, slots)),
    decreases slots,
{
    if slots > 0 {
        lemma_entity_looks(vis, e, kind, slots - 1);
    }
}

proof fn lemma_overlay_looks(vis: Seq<VisEntity>, kind: OverlayKind, n: int)
    requires
        0 <= n <= vis.len() <= usize::MAX,
    ensures
        adds_look_right(vis, kind, overlay_adds(vis, kind, n)),
    decreases n,
{
    if n > 0 {
        let slots = vis[n - 1].overlays@.len() as int;
        lemma_overlay_looks(vis, kind, n - 1);
        lemma_entity_looks(vis, n - 1, kind, slots);
        lemma_looks_concat(
            vis,
            kind,
            overlay_adds(vis, kind, n - 1),
            entity_adds(vis[n - 1], n - 1, kind, slots),
        );
    }
}

proof fn lemma_group_instances_look(
    vis: Seq<VisEntity>,
    kind: OverlayKind,
    group: GroupView,
    parts: Seq<PartRange>,
    n: int,
)
    requires
        forall|k: int|
            0 <= k < group.members.len() ==> looks_right(vis, kind, #[trigger] group.members[k]),
    ensures
        forall|i: int|
            0 <= i < group_instances(group, parts, n).len() ==> looks_right(
                vis,
                kind,
                (#[trigger] group_instances(group, parts, n)[i]).member,
            ),
    decreases n,
{
    if n > 0 {
        lemma_group_instances_look(vis, kind, group, parts, n - 1);
        let before = group_instances(group, parts, n - 1).len() as int;
        assert forall|i: int| 0 <= i < group_instances(group, parts, n).len() implies looks_right(
            vis,
            kind,
            (#[trigger] group_instances(group, parts, n)[i]).member,
        ) by {
            if i < before {
                assert(group_instances(group, parts, n)[i] == group_instances(
                    group,
                    parts,
                    n - 1,
                )[i]);
            } else {
                assert(group_instances(group, parts, n)[i] == part_instances(
                    group,
                    n - 1,
                )[i - before]);
                assert(looks_right(vis, kind, group.members[i - before]));
            }
        }
    }
}

proof fn lemma_instances_look(
    vis: Seq<VisEntity>,
    kind: OverlayKind,
    groups: Seq<GroupView>,
    meshes: Seq<Vec<PartRange>>,
    n: int,
)
    requires
        groups_look_right(vis, kind, groups),
        0 <= n <= groups.len(),
    ensures
        forall|i: int|
            0 <= i < all_instances(groups, meshes, n).len() ==> looks_right(
                vis,
                kind,
                (#[trigger] all_instances(groups, meshes, n)[i]).member,
            ),
    decreases n,
{
    if n > 0 {
        lemma_instances_look(vis, kind, groups, meshes, n - 1);
        let parts = parts_of(meshes, groups[n - 1]);
        let here = group_instances(groups[n - 1], parts, parts.len() as int);
        let before = all_instances(groups, meshes, n - 1);
        lemma_group_instances_look(vis, kind, groups[n - 1], parts, parts.len() as int);
        assert forall|i: int| 0 <= i < (before + here).len() implies looks_right(
            vis,
            kind,
            (#[trigger] (before + here)[i]).member,
        ) by {
            if i < before.len() {
                assert((before + here)[i] == before[i]);
            } else {
                assert((before + here)[i] == here[i - before.len()]);
            }
        }
    }
}

/// Every instance of a pass flashes red exactly if its entity does and the layer does
/// not glow, and scrolls exactly if the pass is the swirl's.
pub proof fn law_glowing_layers_never_flash(
    vis: Seq<VisEntity>,
    meshes: Seq<Vec<PartRange>>,
    kind: OverlayKind,
    i: int,
)
    requires
        vis.len() <= usize::MAX,
        0 <= i < pass_instances(vis, meshes, kind).len(),
    ensures
        looks_right(vis, kind, pass_instances(vis, meshes, kind)[i].member),
{
    if kind == OverlayKind::Opaque || kind == OverlayKind::OpaqueCulled {
        let culled = kind == OverlayKind::OpaqueCulled;
        lemma_base_looks(vis, culled, kind, vis.len() as int);
        lemma_phase_looks(vis, kind, MAX_OVERLAYS as int);
        lemma_looks_concat(
            vis,
            kind,
            base_adds(vis, culled, vis.len() as int),
            phase_adds(vis, kind, MAX_OVERLAYS as int),
        );
        lemma_groups_look(vis, kind, opaque_adds(vis, culled));
    } else {
        lemma_overlay_looks(vis, kind, vis.len() as int);
        lemma_groups_look(vis, kind, overlay_adds(vis, kind, vis.len() as int));
    }
    let groups = pass_groups(vis, kind);
    lemma_instances_look(vis, kind, groups, meshes, groups.len() as int);
}

/// Instances that fit the buffer.
pub fn instance_count(len: usize) -> (count: usize)
    ensures
        count == (if len < MAX_INSTANCES {
            len
        } else {
            MAX_INSTANCES
        }),
{
    if len < MAX_INSTANCES {
        len
    } else {
        MAX_INSTANCES
    }
}

/// One command of a pass.
#[derive(Clone, Copy, Debug, PartialEq, Eq, Structural)]
pub enum PassCommand {
    Bind { variant: usize, set: u64 },
    Draw(DrawRecord),
}

/// Whether a record's instances were all kept.
pub open spec fn kept(record: DrawRecord, count: int) -> bool {
    record.first_instance + record.instance_count <= count
}

/// What is bound after the first `n` records.
pub open spec fn last_bound(records: Seq<DrawRecord>, count: int, n: int) -> Option<(usize, u64)>
    decreases n,
{
    if n <= 0 {
        None
    } else if kept(records[n - 1], count) {
        Some((records[n - 1].variant, records[n - 1].set))
    } else {
        last_bound(records, count, n - 1)
    }
}

/// The commands of the first `n` records.
pub open spec fn pass_commands(records: Seq<DrawRecord>, count: int, n: int) -> Seq<PassCommand>
    decreases n,
{
    if n <= 0 {
        Seq::empty()
    } else {
        let rest = pass_commands(records, count, n - 1);
        let r = records[n - 1];
        if !kept(r, count) {
            rest
        } else if last_bound(records, count, n - 1) == Some((r.variant, r.set)) {
            rest.push(PassCommand::Draw(r))
        } else {
            rest.push(PassCommand::Bind { variant: r.variant, set: r.set }).push(
                PassCommand::Draw(r),
            )
        }
    }
}

/// Records a pass: draws past the buffer's capacity are dropped, and geometry
/// and texture are bound only where they change.
pub fn record_pass(records: &Vec<DrawRecord>, count: usize) -> (out: Vec<PassCommand>)
    ensures
        out@ == pass_commands(records@, count as int, records@.len() as int),
{
    let mut out: Vec<PassCommand> = Vec::new();
    let mut bound = false;
    let mut last_variant: usize = 0;
    let mut last_set: u64 = 0;
    let mut i: usize = 0;
    while i < records.len()
        invariant
            i <= records@.len(),
            out@ == pass_commands(records@, count as int, i as int),
            last_bound(records@, count as int, i as int) == (if bound {
                Some((last_variant, last_set))
            } else {
                None
            }),
        decreases records@.len() - i,
    {
        let r = records[i];
        let end: u64 = r.first_instance as u64 + r.instance_count as u64;
        if end <= count as u64 {
            if !bound || r.variant != last_variant || r.set != last_set {
                out.push(PassCommand::Bind { variant: r.variant, set: r.set });
                bound = true;
                last_variant = r.variant;
                last_set = r.set;
            }
            out.push(PassCommand::Draw(r));
        }
        i = i + 1;
    }
    out
}

/// A pass played back: what is bound at the end, and whether every draw so far
/// saw its own variant and set.
pub open spec fn replay(stream: Seq<PassCommand>) -> (Option<(usize, u64)>, bool)
    decreases stream.len(),
{
    if stream.len() == 0 {
        (None, true)
    } else {
        let state = replay(stream.drop_last());
        match stream.last() {
            PassCommand::Bind { variant, set } => (Some((variant, set)), state.1),
            PassCommand::Draw(r) => (state.0, state.1 && state.0 == Some((r.variant, r.set))),
        }
    }
}

/// Every draw of a pass sees its own geometry and texture.
pub proof fn law_pass_draws_are_bound(records: Seq<DrawRecord>, count: int, n: int)
    requires
        0 <= n <= records.len(),
    ensures
        replay(pass_commands(records, count, n)) == (last_bound(records, count, n), true),
    decreases n,
{
    if n > 0 {
        law_pass_draws_are_bound(records, count, n - 1);
        let rest = pass_commands(records, count, n - 1);
        let r = records[n - 1];
        if kept(r, count) {
            if last_bound(records, count, n - 1) == Some((r.variant, r.set)) {
                assert(rest.push(PassCommand::Draw(r)).drop_last() =~= rest);
            } else {
                let bind = PassCommand::Bind { variant: r.variant, set: r.set };
                assert(rest.push(bind).drop_last() =~= rest);
                assert(replay(rest.push(bind)) == (Some((r.variant, r.set)), true));
                assert(rest.push(bind).push(PassCommand::Draw(r)).drop_last() =~= rest.push(bind));
            }
        }
    }
}

/// Texture variants of a mob: all layers.
pub open spec fn mob_textures(def: MobDef) -> nat {
    crate::mobs::texture_total(def.adult@) + (match def.baby {
        Some(baby) => crate::mobs::table_of(baby.textures).len(),
        None => 0,
    }) + crate::mobs::texture_total(def.adult_overlays@) + crate::mobs::texture_total(
        def.baby_overlays@,
    )
}

/// Texture variants of the first `n` mobs.
pub open spec fn all_textures(defs: Seq<MobDef>, n: int) -> nat
    decreases n,
{
    if n <= 0 {
        0
    } else {
        all_textures(defs, n - 1) + mob_textures(defs[n - 1])
    }
}

proof fn lemma_table_small(table: crate::mobs::TexTable)
    ensures
        crate::mobs::table_of(table).len() <= 27,
{
}

proof fn lemma_total_step(defs: Seq<VariantDef>, n: int)
    requires
        0 <= n < defs.len(),
    ensures
        crate::mobs::texture_total(defs.take(n + 1)) == crate::mobs::texture_total(defs.take(n))
            + crate::mobs::table_of(defs[n].textures).len(),
{
    assert(defs.take(n + 1).drop_last() =~= defs.take(n));
}

fn count_textures(defs: &Vec<VariantDef>) -> (count: u32)
    requires
        defs@.len() <= 100,
    ensures
        count == crate::mobs::texture_total(defs@),
        count <= 2700,
{
    let mut count: u32 = 0;
    let mut i: usize = 0;
    while i < defs.len()
        invariant
            i <= defs@.len() <= 100,
            count == crate::mobs::texture_total(defs@.take(i as int)),
            count <= 27 * i,
        decreases defs@.len() - i,
    {
        proof {
            lemma_total_step(defs@, i as int);
            lemma_table_small(defs@[i as int].textures);
        }
        let list = crate::mobs::table_textures(defs[i].textures);
        count = count + list.len() as u32;
        i = i + 1;
    }
    assert(defs@.take(defs@.len() as int) =~= defs@);
    count
}

/// Descriptor sets the entity textures need, player skins included.
pub fn texture_sets(defs: &Vec<MobDef>) -> (count: u32)
    requires
        defs@.len() <= 1000,
        forall|i: int|
            0 <= i < defs@.len() ==> (#[trigger] defs@[i]).adult@.len() <= 100
                && defs@[i].adult_overlays@.len() <= 100 && defs@[i].baby_overlays@.len() <= 100,
    ensures
        count == all_textures(defs@, defs@.len() as int) + crate::skins::MAX_PLAYER_SKINS,
{
    let mut count: u32 = 0;
    let mut i: usize = 0;
    while i < defs.len()
        invariant
            i <= defs@.len() <= 1000,
            forall|j: int|
                0 <= j < defs@.len() ==> (#[trigger] defs@[j]).adult@.len() <= 100
                    && defs@[j].adult_overlays@.len() <= 100 && defs@[j].baby_overlays@.len() <= 100,
            count == all_textures(defs@, i as int),
            count <= 10_000 * i,
        decreases defs@.len() - i,
    {
        let def = &defs[i];
        let baby: u32 = match def.baby {
            Some(b) => {
                proof {
                    lemma_table_small(b.textures);
                }
                crate::mobs::table_textures(b.textures).len() as u32
            },
            None => 0,
        };
        let own: u32 = count_textures(&def.adult) + baby + count_textures(&def.adult_overlays)
            + count_textures(&def.baby_overlays);
        count = count + own;
        i = i + 1;
    }
    count + crate::skins::MAX_PLAYER_SKINS as u32
}

/// A layer of an entity: its base model, or the overlay in a slot.
#[derive(Clone, Copy, Debug, PartialEq, Eq, Structural)]
pub struct Layer {
    pub entity: usize,
    pub slot: Option<usize>,
}

/// The variant and the descriptor set a layer is drawn with.
pub open spec fn layer_drawn_with(vis: Seq<VisEntity>, layer: Layer) -> (usize, u64) {
    let v = vis[layer.entity as int];
    match layer.slot {
        None => (v.base_variant, v.base_set),
        Some(s) => (v.overlays@[s as int].variant, v.overlays@[s as int].set),
    }
}

/// A layer belongs to a pass: an overlay that is tinted to the pass of its kind, a base
/// model to one of the two opaque passes, the culled one if it is culled.
pub open spec fn layer_in_pass(vis: Seq<VisEntity>, layer: Layer, kind: OverlayKind) -> bool {
    let v = vis[layer.entity as int];
    layer.entity < vis.len() && match layer.slot {
        None => kind == (if v.base_kind == OverlayKind::OpaqueCulled {
            OverlayKind::OpaqueCulled
        } else {
            OverlayKind::Opaque
        }),
        Some(s) => s < v.overlays@.len() && v.overlays@[s as int].tinted && v.overlays@[s as int].kind
            == kind,
    }
}

/// No entity has more overlays than there are slots.
pub open spec fn slots_suffice(vis: Seq<VisEntity>) -> bool {
    &&& vis.len() <= usize::MAX
    &&& forall|e: int| 0 <= e < vis.len() ==> (#[trigger] vis[e]).overlays@.len() <= 4
}

/// An addition is of a layer, drawn as the layer is.
spec fn adds_layer(vis: Seq<VisEntity>, a: Addition, layer: Layer) -> bool {
    &&& a.member.entity == layer.entity
    &&& a.member.slot == layer.slot
    &&& (a.variant, a.set) == layer_drawn_with(vis, layer)
}

/// The additions of a pass.
spec fn pass_adds(vis: Seq<VisEntity>, kind: OverlayKind) -> Seq<Addition> {
    match kind {
        OverlayKind::Opaque => opaque_adds(vis, false),
        OverlayKind::OpaqueCulled => opaque_adds(vis, true),
        _ => overlay_adds(vis, kind, vis.len() as int),
    }
}

proof fn lemma_base_added(vis: Seq<VisEntity>, culled: bool, n: int, e: int) -> (i: int)
    requires
        slots_suffice(vis),
        0 <= e < n <= vis.len(),
        (vis[e].base_kind == OverlayKind::OpaqueCulled) == culled,
    ensures
        0 <= i < base_adds(vis, culled, n).len(),
        adds_layer(
            vis,
            base_adds(vis, culled, n)[i],
            (Layer { entity: e as usize, slot: None }),
        ),
    decreases n,
{
    let rest = base_adds(vis, culled, n - 1);
    if e < n - 1 {
        lemma_base_added(vis, culled, n - 1, e)
    } else {
        rest.len() as int
    }
}

proof fn lemma_slot_added(vis: Seq<VisEntity>, kind: OverlayKind, slot: int, n: int, e: int) -> (i: int)
    requires
        slots_suffice(vis),
        0 <= e < n <= vis.len(),
        0 <= slot < vis[e].overlays@.len(),
        vis[e].overlays@[slot].kind == kind,
        vis[e].overlays@[slot].tinted,
    ensures
        0 <= i < slot_adds(vis, kind, slot, n).len(),
        adds_layer(
            vis,
            slot_adds(vis, kind, slot, n)[i],
            (Layer { entity: e as usize, slot: Some(slot as usize) }),
        ),
    decreases n,
{
    if e < n - 1 {
        lemma_slot_added(vis, kind, slot, n - 1, e)
    } else {
        assert(vis[e].overlays@.len() <= 4);
        slot_adds(vis, kind, slot, n - 1).len() as int
    }
}

proof fn lemma_phase_added(vis: Seq<VisEntity>, kind: OverlayKind, slots: int, e: int, slot: int) -> (i:
    int)
    requires
        slots_suffice(vis),
        0 <= e < vis.len(),
        0 <= slot < vis[e].overlays@.len(),
        slot < slots,
        vis[e].overlays@[slot].kind == kind,
        vis[e].overlays@[slot].tinted,
    ensures
        0 <= i < phase_adds(vis, kind, slots).len(),
        adds_layer(
            vis,
            phase_adds(vis, kind, slots)[i],
            (Layer { entity: e as usize, slot: Some(slot as usize) }),
        ),
    decreases slots,
{
    let head = phase_adds(vis, kind, slots - 1);
    if slot < slots - 1 {
        lemma_phase_added(vis, kind, slots - 1, e, slot)
    } else {
        let j = lemma_slot_added(vis, kind, slot, vis.len() as int, e);
        head.len() + j
    }
}

proof fn lemma_entity_added(
    vis: Seq<VisEntity>,
    e: int,
    kind: OverlayKind,
    slots: int,
    slot: int,
) -> (i: int)
    requires
        slots_suffice(vis),
        0 <= e < vis.len(),
        0 <= slot < slots <= vis[e].overlays@.len(),
        vis[e].overlays@[slot].kind == kind,
        vis[e].overlays@[slot].tinted,
    ensures
        0 <= i < entity_adds(vis[e], e, kind, slots).len(),
        adds_layer(
            vis,
            entity_adds(vis[e], e, kind, slots)[i],
            (Layer { entity: e as usize, slot: Some(slot as usize) }),
        ),
    decreases slots,
{
    if slot < slots - 1 {
        lemma_entity_added(vis, e, kind, slots - 1, slot)
    } else {
        assert(vis[e].overlays@.len() <= 4);
        entity_adds(vis[e], e, kind, slots - 1).len() as int
    }
}

proof fn lemma_overlay_added(vis: Seq<VisEntity>, kind: OverlayKind, n: int, e: int, slot: int) -> (i:
    int)
    requires
        slots_suffice(vis),
        0 <= e < n <= vis.len(),
        0 <= slot < vis[e].overlays@.len(),
        vis[e].overlays@[slot].kind == kind,
        vis[e].overlays@[slot].tinted,
    ensures
        0 <= i < overlay_adds(vis, kind, n).len(),
        adds_layer(
            vis,
            overlay_adds(vis, kind, n)[i],
            (Layer { entity: e as usize, slot: Some(slot as usize) }),
        ),
    decreases n,
{
    let head = overlay_adds(vis, kind, n - 1);
    if e < n - 1 {
        lemma_overlay_added(vis, kind, n - 1, e, slot)
    } else {
        let j = lemma_entity_added(vis, e, kind, vis[e].overlays@.len() as int, slot);
        head.len() + j
    }
}

proof fn lemma_layer_added(vis: Seq<VisEntity>, kind: OverlayKind, layer: Layer) -> (i: int)
    requires
        slots_suffice(vis),
        layer_in_pass(vis, layer, kind),
    ensures
        0 <= i < pass_adds(vis, kind).len(),
        adds_layer(vis, pass_adds(vis, kind)[i], layer),
{
    let e = layer.entity as int;
    let n = vis.len() as int;
    assert(vis[e].overlays@.len() <= 4);
    match layer.slot {
        None => lemma_base_added(vis, kind == OverlayKind::OpaqueCulled, n, e),
        Some(s) => if kind == OverlayKind::Opaque || kind == OverlayKind::OpaqueCulled {
            let head = base_adds(vis, kind == OverlayKind::OpaqueCulled, n);
            let j = lemma_phase_added(vis, kind, MAX_OVERLAYS as int, e, s as int);
            head.len() + j
        } else {
            lemma_overlay_added(vis, kind, n, e, s as int)
        },
    }
}

/// An addition is of a layer of a pass.
spec fn add_is_layer(vis: Seq<VisEntity>, a: Addition, kind: OverlayKind) -> bool {
    let layer = Layer { entity: a.member.entity, slot: a.member.slot };
    layer_in_pass(vis, layer, kind) && adds_layer(vis, a, layer)
}

spec fn adds_are_layers(vis: Seq<VisEntity>, adds: Seq<Addition>, kind: OverlayKind) -> bool {
    forall|i: int| 0 <= i < adds.len() ==> add_is_layer(vis, #[trigger] adds[i], kind)
}

proof fn lemma_layers_concat(
    vis: Seq<VisEntity>,
    a: Seq<Addition>,
    b: Seq<Addition>,
    kind: OverlayKind,
)
    requires
        adds_are_layers(vis, a, kind),
        adds_are_layers(vis, b, kind),
    ensures
        adds_are_layers(vis, a + b, kind),
{
    assert forall|i: int| 0 <= i < (a + b).len() implies add_is_layer(
        vis,
        #[trigger] (a + b)[i],
        kind,
    ) by {
        if i < a.len() {
            assert((a + b)[i] == a[i]);
        } else {
            assert((a + b)[i] == b[i - a.len()]);
        }
    }
}

proof fn lemma_base_layers(vis: Seq<VisEntity>, culled: bool, n: int)
    requires
        slots_suffice(vis),
        0 <= n <= vis.len(),
    ensures
        adds_are_layers(
            vis,
            base_adds(vis, culled, n),
            if culled {
                OverlayKind::OpaqueCulled
            } else {
                OverlayKind::Opaque
            },
        ),
    decreases n,
{
    if n > 0 {
        lemma_base_layers(vis, culled, n - 1);
    }
}

proof fn lemma_slot_layers(vis: Seq<VisEntity>, kind: OverlayKind, slot: int, n: int)
    requires
        slots_suffice(vis),
        0 <= n <= vis.len(),
        0 <= slot,
    ensures
        adds_are_layers(vis, slot_adds(vis, kind, slot, n), kind),
    decreases n,
{
    if n > 0 {
        lemma_slot_layers(vis, kind, slot, n - 1);
        assert(vis[n - 1].overlays@.len() <= 4);
    }
}

proof fn lemma_phase_layers(vis: Seq<VisEntity>, kind: OverlayKind, slots: int)
    requires
        slots_suffice(vis),
    ensures
        adds_are_layers(vis, phase_adds(vis, kind, slots), kind),
    decreases slots,
{
    if slots > 0 {
        lemma_phase_layers(vis, kind, slots - 1);
        lemma_slot_layers(vis, kind, slots - 1, vis.len() as int);
        lemma_layers_concat(
            vis,
            phase_adds(vis, kind, slots - 1),
            slot_adds(vis, kind, slots - 1, vis.len() as int),
            kind,
        );
    }
}

proof fn lemma_entity_layers(vis: Seq<VisEntity>, e: int, kind: OverlayKind, slots: int)
    requires
        slots_suffice(vis),
        0 <= e < vis.len(),
        slots <= vis[e].overlays@.len(),
    ensures
        adds_are_layers(vis, entity_adds(vis[e], e, kind, slots), kind),
    decreases slots,
{
    if slots > 0 {
        lemma_entity_layers(vis, e, kind, slots - 1);
        assert(vis[e].overlays@.len() <= 4);
    }
}

proof fn lemma_overlay_layers(vis: Seq<VisEntity>, kind: OverlayKind, n: int)
    requires
        slots_suffice(vis),
        0 <= n <= vis.len(),
    ensures
        adds_are_layers(vis, overlay_adds(vis, kind, n), kind),
    decreases n,
{
    if n > 0 {
        let slots = vis[n - 1].overlays@.len() as int;
        lemma_overlay_layers(vis, kind, n - 1);
        lemma_entity_layers(vis, n - 1, kind, slots);
        lemma_layers_concat(
            vis,
            overlay_adds(vis, kind, n - 1),
            entity_adds(vis[n - 1], n - 1, kind, slots),
            kind,
        );
    }
}

proof fn lemma_pass_layers(vis: Seq<VisEntity>, kind: OverlayKind)
    requires
        slots_suffice(vis),
    ensures
        adds_are_layers(vis, pass_adds(vis, kind), kind),
        pass_groups(vis, kind) == group_all(pass_adds(vis, kind)),
{
    let n = vis.len() as int;
    if kind == OverlayKind::Opaque || kind == OverlayKind::OpaqueCulled {
        let culled = kind == OverlayKind::OpaqueCulled;
        lemma_base_layers(vis, culled, n);
        lemma_phase_layers(vis, kind, MAX_OVERLAYS as int);
        lemma_layers_concat(
            vis,
            base_adds(vis, culled, n),
            phase_adds(vis, kind, MAX_OVERLAYS as int),
            kind,
        );
    } else {
        lemma_overlay_layers(vis, kind, n);
    }
}

/// An addition is a member of its group.
proof fn lemma_member_of_group(adds: Seq<Addition>, i: int) -> (k: int)
    requires
        0 <= i < adds.len(),
    ensures
        ({
            let g = place(group_all(adds), adds[i]);
            &&& 0 <= g < group_all(adds).len()
            &&& group_all(adds)[g].variant == adds[i].variant
            &&& group_all(adds)[g].set == adds[i].set
            &&& 0 <= k < group_all(adds)[g].members.len()
            &&& group_all(adds)[g].members[k] == adds[i].member
        }),
    decreases adds.len(),
{
    let rest = adds.drop_last();
    let before = group_all(rest);
    let last = adds.last();
    let after = group_all(adds);
    lemma_added_is_found(adds, i);
    lemma_find_range(after, adds[i].variant, adds[i].set, after.len() as int);
    lemma_find_range(before, last.variant, last.set, before.len() as int);
    if i < adds.len() - 1 {
        assert(rest[i] == adds[i]);
        let k = lemma_member_of_group(rest, i);
        lemma_add_keeps_places(before, last, adds[i]);
        k
    } else {
        lemma_add_is_found(before, last);
        let at = place(before, last);
        if at >= 0 {
            before[at].members.len() as int
        } else {
            0
        }
    }
}

/// A member of a group was added to it.
proof fn lemma_member_was_added(adds: Seq<Addition>, g: int, k: int) -> (i: int)
    requires
        0 <= g < group_all(adds).len(),
        0 <= k < group_all(adds)[g].members.len(),
    ensures
        0 <= i < adds.len(),
        adds[i].variant == group_all(adds)[g].variant,
        adds[i].set == group_all(adds)[g].set,
        adds[i].member == group_all(adds)[g].members[k],
    decreases adds.len(),
{
    let rest = adds.drop_last();
    let before = group_all(rest);
    let last = adds.last();
    lemma_find_range(before, last.variant, last.set, before.len() as int);
    if g < before.len() && k < before[g].members.len() {
        let i = lemma_member_was_added(rest, g, k);
        assert(rest[i] == adds[i]);
        i
    } else {
        adds.len() - 1
    }
}

proof fn lemma_part_drawn(group: GroupView, parts: Seq<PartRange>, n: int, base: int, p: int) -> (r: int)
    requires
        0 <= p < n <= parts.len(),
        parts[p].count != 0,
        0 <= base,
        base + group_instances(group, parts, n).len() <= u32::MAX,
    ensures
        0 <= r < group_records(group, parts, n, base).len(),
        ({
            let rec = group_records(group, parts, n, base)[r];
            let first = group_instances(group, parts, p).len();
            &&& rec.variant == group.variant
            &&& rec.set == group.set
            &&& rec.part_start == parts[p].start
            &&& rec.part_count == parts[p].count
            &&& rec.first_instance == base + first
            &&& rec.instance_count == group.members.len()
            &&& first + group.members.len() <= group_instances(group, parts, n).len()
            &&& forall|k: int|
                0 <= k < group.members.len() ==> #[trigger] group_instances(group, parts, n)[first
                    + k] == (Instance {
                    member: group.members[k],
                    variant: group.variant,
                    part: p as usize,
                })
        }),
    decreases n,
{
    let before = group_instances(group, parts, n - 1);
    let first = group_instances(group, parts, p).len();
    if p < n - 1 {
        let r = lemma_part_drawn(group, parts, n - 1, base, p);
        assert forall|k: int| 0 <= k < group.members.len() implies #[trigger] group_instances(
            group,
            parts,
            n,
        )[first + k] == (Instance {
            member: group.members[k],
            variant: group.variant,
            part: p as usize,
        }) by {
            assert(group_instances(group, parts, n)[first + k] == before[first + k]);
        }
        r
    } else {
        let here = part_instances(group, p);
        assert forall|k: int| 0 <= k < group.members.len() implies #[trigger] group_instances(
            group,
            parts,
            n,
        )[first + k] == (Instance {
            member: group.members[k],
            variant: group.variant,
            part: p as usize,
        }) by {
            assert(group_instances(group, parts, n)[first + k] == here[k]);
        }
        group_records(group, parts, n - 1, base).len() as int
    }
}

/// The draw of a part of a group, and where its instances begin among all.
proof fn lemma_group_drawn(
    groups: Seq<GroupView>,
    meshes: Seq<Vec<PartRange>>,
    n: int,
    base: int,
    g: int,
    p: int,
) -> (at: (int, int))
    requires
        0 <= g < n <= groups.len(),
        0 <= p < parts_of(meshes, groups[g]).len(),
        parts_of(meshes, groups[g])[p].count != 0,
        0 <= base,
        base + all_instances(groups, meshes, n).len() <= u32::MAX,
    ensures
        0 <= at.0 < all_records(groups, meshes, n, base).len(),
        0 <= at.1,
        at.1 + groups[g].members.len() <= all_instances(groups, meshes, n).len(),
        ({
            let rec = all_records(groups, meshes, n, base)[at.0];
            let part = parts_of(meshes, groups[g])[p];
            &&& rec.variant == groups[g].variant
            &&& rec.set == groups[g].set
            &&& rec.part_start == part.start
            &&& rec.part_count == part.count
            &&& rec.first_instance == base + at.1
            &&& rec.instance_count == groups[g].members.len()
            &&& forall|k: int|
                0 <= k < groups[g].members.len() ==> #[trigger] all_instances(
                    groups,
                    meshes,
                    n,
                )[at.1 + k] == (Instance {
                    member: groups[g].members[k],
                    variant: groups[g].variant,
                    part: p as usize,
                })
        }),
    decreases n,
{
    let parts = parts_of(meshes, groups[n - 1]);
    let before = all_instances(groups, meshes, n - 1);
    let all = all_instances(groups, meshes, n);
    let here = group_instances(groups[n - 1], parts, parts.len() as int);
    if g < n - 1 {
        let at = lemma_group_drawn(groups, meshes, n - 1, base, g, p);
        assert forall|k: int| 0 <= k < groups[g].members.len() implies #[trigger] all[at.1 + k] == (
        Instance { member: groups[g].members[k], variant: groups[g].variant, part: p as usize }) by {
            assert(all[at.1 + k] == before[at.1 + k]);
        }
        at
    } else {
        let start = base + before.len();
        let r = lemma_part_drawn(groups[g], parts, parts.len() as int, start, p);
        let first = before.len() + group_instances(groups[g], parts, p).len();
        assert forall|k: int| 0 <= k < groups[g].members.len() implies #[trigger] all[first + k] == (
        Instance { member: groups[g].members[k], variant: groups[g].variant, part: p as usize }) by {
            assert(all[first + k] == here[group_instances(groups[g], parts, p).len() + k]);
        }
        (all_records(groups, meshes, n - 1, base).len() + r, first as int)
    }
}

proof fn lemma_record_of_part(group: GroupView, parts: Seq<PartRange>, n: int, base: int, r: int) -> (p:
    int)
    requires
        0 <= n <= parts.len(),
        0 <= r < group_records(group, parts, n, base).len(),
    ensures
        0 <= p < n,
        parts[p].count != 0,
        group_records(group, parts, n, base)[r] == (DrawRecord {
            variant: group.variant,
            set: group.set,
            part_start: parts[p].start,
            part_count: parts[p].count,
            first_instance: (base + group_instances(group, parts, p).len()) as u32,
            instance_count: group.members.len() as u32,
        }),
    decreases n,
{
    let rest = group_records(group, parts, n - 1, base);
    if r < rest.len() {
        lemma_record_of_part(group, parts, n - 1, base, r)
    } else {
        n - 1
    }
}

/// The group and the part a draw is of.
proof fn lemma_record_of_group(
    groups: Seq<GroupView>,
    meshes: Seq<Vec<PartRange>>,
    n: int,
    base: int,
    r: int,
) -> (at: (int, int))
    requires
        0 <= n <= groups.len(),
        0 <= r < all_records(groups, meshes, n, base).len(),
        0 <= base,
        base + all_instances(groups, meshes, n).len() <= u32::MAX,
    ensures
        0 <= at.0 < n,
        0 <= at.1 < parts_of(meshes, groups[at.0]).len(),
        parts_of(meshes, groups[at.0])[at.1].count != 0,
        ({
            let rec = all_records(groups, meshes, n, base)[r];
            let group = groups[at.0];
            let part = parts_of(meshes, group)[at.1];
            let first = rec.first_instance - base;
            &&& rec.variant == group.variant
            &&& rec.set == group.set
            &&& rec.part_start == part.start
            &&& rec.part_count == part.count
            &&& rec.instance_count == group.members.len()
            &&& 0 <= first
            &&& first + group.members.len() <= all_instances(groups, meshes, n).len()
            &&& forall|k: int|
                0 <= k < group.members.len() ==> #[trigger] all_instances(groups, meshes, n)[first
                    + k] == (Instance {
                    member: group.members[k],
                    variant: group.variant,
                    part: at.1 as usize,
                })
        }),
    decreases n,
{
    let parts = parts_of(meshes, groups[n - 1]);
    let rest = all_records(groups, meshes, n - 1, base);
    let before = all_instances(groups, meshes, n - 1);
    let all = all_instances(groups, meshes, n);
    let here = group_instances(groups[n - 1], parts, parts.len() as int);
    let rec = all_records(groups, meshes, n, base)[r];
    if r < rest.len() {
        let at = lemma_record_of_group(groups, meshes, n - 1, base, r);
        let first = rec.first_instance - base;
        assert(rec == rest[r]);
        assert forall|k: int| 0 <= k < groups[at.0].members.len() implies #[trigger] all[first + k]
            == (Instance {
            member: groups[at.0].members[k],
            variant: groups[at.0].variant,
            part: at.1 as usize,
        }) by {
            assert(all[first + k] == before[first + k]);
        }
        at
    } else {
        let start = base + before.len();
        let group = groups[n - 1];
        let p = lemma_record_of_part(group, parts, parts.len() as int, start, r - rest.len());
        let again = lemma_part_drawn(group, parts, parts.len() as int, start, p);
        let within = group_instances(group, parts, p).len();
        let first = rec.first_instance - base;
        lemma_group_monotonic(group, parts, p, parts.len() as int);
        assert(first == before.len() + within);
        assert forall|k: int| 0 <= k < group.members.len() implies #[trigger] all[first + k] == (
        Instance { member: group.members[k], variant: group.variant, part: p as usize }) by {
            assert(all[first + k] == here[within + k]);
        }
        (n - 1, p)
    }
}

proof fn lemma_pass_within_frame(vis: Seq<VisEntity>, meshes: Seq<Vec<PartRange>>, kind: OverlayKind, j: int)
    requires
        0 <= j < pass_instances(vis, meshes, kind).len(),
    ensures
        0 <= pass_start(vis, meshes, kind),
        pass_start(vis, meshes, kind) + pass_instances(vis, meshes, kind).len() <= frame_instances(
            vis,
            meshes,
        ).len(),
        frame_instances(vis, meshes)[pass_start(vis, meshes, kind) + j] == pass_instances(
            vis,
            meshes,
            kind,
        )[j],
{
}

/// A draw shows a part of a layer: it is bound to the layer's variant and descriptor set,
/// draws the vertices of the part, and instance `i` of the frame, which is one of its own,
/// is the layer's.
pub open spec fn draw_shows(
    vis: Seq<VisEntity>,
    meshes: Seq<Vec<PartRange>>,
    draw: DrawRecord,
    i: int,
    layer: Layer,
    part: int,
) -> bool {
    let (variant, set) = layer_drawn_with(vis, layer);
    let range = meshes[variant as int]@[part];
    let shown = frame_instances(vis, meshes)[i];
    &&& draw.variant == variant
    &&& draw.set == set
    &&& draw.part_start == range.start
    &&& draw.part_count == range.count
    &&& draw.first_instance <= i < draw.first_instance + draw.instance_count
    &&& i < frame_instances(vis, meshes).len()
    &&& shown.member.entity == layer.entity
    &&& shown.member.slot == layer.slot
    &&& shown.variant == variant
    &&& shown.part == part
}

/// Every layer of every entity is drawn: its base model in one of the two opaque passes,
/// the culled one if it is culled, and each overlay that is tinted, whichever slot it is
/// in, in the pass of its kind; each with its own geometry and texture, and with every
/// part of it that has vertices.
pub proof fn law_every_layer_is_drawn(
    vis: Seq<VisEntity>,
    meshes: Seq<Vec<PartRange>>,
    layer: Layer,
    kind: OverlayKind,
    part: int,
)
    requires
        slots_suffice(vis),
        frame_instances(vis, meshes).len() <= u32::MAX,
        layer_in_pass(vis, layer, kind),
        layer_drawn_with(vis, layer).0 < meshes.len(),
        0 <= part < meshes[layer_drawn_with(vis, layer).0 as int]@.len(),
        meshes[layer_drawn_with(vis, layer).0 as int]@[part].count != 0,
    ensures
        exists|r: int, i: int|
            0 <= r < pass_records(vis, meshes, kind).len() && #[trigger] draw_shows(
                vis,
                meshes,
                pass_records(vis, meshes, kind)[r],
                i,
                layer,
                part,
            ),
{
    lemma_pass_layers(vis, kind);
    let a = lemma_layer_added(vis, kind, layer);
    let adds = pass_adds(vis, kind);
    let k = lemma_member_of_group(adds, a);
    let groups = pass_groups(vis, kind);
    let g = place(groups, adds[a]);
    let n = groups.len() as int;
    let base = pass_start(vis, meshes, kind);
    lemma_pass_fits(vis, meshes, kind);
    let (r, first) = lemma_group_drawn(groups, meshes, n, base, g, part);
    lemma_pass_within_frame(vis, meshes, kind, first + k);
    assert(pass_instances(vis, meshes, kind)[first + k].member == groups[g].members[k]);
    let vec = meshes[groups[g].variant as int];
    assert(part < vec@.len() <= usize::MAX) by {
        assert(vec@.len() == vec.len());
    }
    assert(draw_shows(
        vis,
        meshes,
        pass_records(vis, meshes, kind)[r],
        base + first + k,
        layer,
        part,
    ));
}

proof fn lemma_pass_fits(vis: Seq<VisEntity>, meshes: Seq<Vec<PartRange>>, kind: OverlayKind)
    requires
        frame_instances(vis, meshes).len() <= u32::MAX,
    ensures
        0 <= pass_start(vis, meshes, kind),
        pass_start(vis, meshes, kind) + pass_instances(vis, meshes, kind).len() <= u32::MAX,
{
}

/// Nothing else is drawn: each instance of each draw of a pass is a part, with vertices,
/// of a layer that belongs to the pass.
pub proof fn law_only_layers_are_drawn(
    vis: Seq<VisEntity>,
    meshes: Seq<Vec<PartRange>>,
    kind: OverlayKind,
    r: int,
    i: int,
)
    requires
        slots_suffice(vis),
        frame_instances(vis, meshes).len() <= u32::MAX,
        0 <= r < pass_records(vis, meshes, kind).len(),
        pass_records(vis, meshes, kind)[r].first_instance <= i < pass_records(
            vis,
            meshes,
            kind,
        )[r].first_instance + pass_records(vis, meshes, kind)[r].instance_count,
    ensures
        ({
            let shown = frame_instances(vis, meshes)[i];
            let layer = Layer { entity: shown.member.entity, slot: shown.member.slot };
            let parts = meshes[layer_drawn_with(vis, layer).0 as int]@;
            &&& layer_in_pass(vis, layer, kind)
            &&& shown.part < parts.len()
            &&& parts[shown.part as int].count != 0
            &&& draw_shows(
                vis,
                meshes,
                pass_records(vis, meshes, kind)[r],
                i,
                layer,
                shown.part as int,
            )
        }),
{
    lemma_pass_layers(vis, kind);
    let adds = pass_adds(vis, kind);
    let groups = pass_groups(vis, kind);
    let base = pass_start(vis, meshes, kind);
    let n = groups.len() as int;
    lemma_pass_fits(vis, meshes, kind);
    let (g, p) = lemma_record_of_group(groups, meshes, n, base, r);
    let rec = pass_records(vis, meshes, kind)[r];
    let first = rec.first_instance - base;
    let k = i - rec.first_instance;
    let a = lemma_member_was_added(adds, g, k);
    assert(add_is_layer(vis, adds[a], kind));
    lemma_pass_within_frame(vis, meshes, kind, first + k);
    assert(all_instances(groups, meshes, n)[first + k].member == groups[g].members[k]);
    let vec = meshes[groups[g].variant as int];
    assert(p < vec@.len() <= usize::MAX) by {
        assert(vec@.len() == vec.len());
    }
}

/// Two additions are of different layers.
spec fn adds_differ(a: Addition, b: Addition) -> bool {
    a.member.entity != b.member.entity || a.member.slot != b.member.slot
}

spec fn adds_distinct(adds: Seq<Addition>) -> bool {
    forall|i: int, j: int|
        0 <= i < j < adds.len() ==> adds_differ(#[trigger] adds[i], #[trigger] adds[j])
}

proof fn lemma_distinct_concat(a: Seq<Addition>, b: Seq<Addition>)
    requires
        adds_distinct(a),
        adds_distinct(b),
        forall|i: int, j: int|
            0 <= i < a.len() && 0 <= j < b.len() ==> adds_differ(#[trigger] a[i], #[trigger] b[j]),
    ensures
        adds_distinct(a + b),
{
    let all = a + b;
    assert forall|i: int, j: int| 0 <= i < j < all.len() implies adds_differ(
        #[trigger] all[i],
        #[trigger] all[j],
    ) by {
        if j < a.len() {
            assert(all[i] == a[i] && all[j] == a[j]);
        } else if i < a.len() {
            assert(all[i] == a[i] && all[j] == b[j - a.len()]);
        } else {
            assert(all[i] == b[i - a.len()] && all[j] == b[j - a.len()]);
        }
    }
}

proof fn lemma_base_distinct(vis: Seq<VisEntity>, culled: bool, n: int)
    requires
        slots_suffice(vis),
        0 <= n <= vis.len(),
    ensures
        adds_distinct(base_adds(vis, culled, n)),
        forall|i: int|
            0 <= i < base_adds(vis, culled, n).len() ==> (#[trigger] base_adds(
                vis,
                culled,
                n,
            )[i]).member.entity < n && base_adds(vis, culled, n)[i].member.slot is None,
    decreases n,
{
    if n > 0 {
        lemma_base_distinct(vis, culled, n - 1);
    }
}

proof fn lemma_slot_distinct(vis: Seq<VisEntity>, kind: OverlayKind, slot: int, n: int)
    requires
        slots_suffice(vis),
        0 <= n <= vis.len(),
        0 <= slot < 4,
    ensures
        adds_distinct(slot_adds(vis, kind, slot, n)),
        forall|i: int|
            0 <= i < slot_adds(vis, kind, slot, n).len() ==> (#[trigger] slot_adds(
                vis,
                kind,
                slot,
                n,
            )[i]).member.entity < n && slot_adds(vis, kind, slot, n)[i].member.slot == Some(
                slot as usize,
            ),
    decreases n,
{
    if n > 0 {
        lemma_slot_distinct(vis, kind, slot, n - 1);
    }
}

proof fn lemma_phase_distinct(vis: Seq<VisEntity>, kind: OverlayKind, slots: int)
    requires
        slots_suffice(vis),
        0 <= slots <= 4,
    ensures
        adds_distinct(phase_adds(vis, kind, slots)),
        forall|i: int|
            0 <= i < phase_adds(vis, kind, slots).len() ==> {
                let slot = (#[trigger] phase_adds(vis, kind, slots)[i]).member.slot;
                slot is Some && slot->0 < slots
            },
    decreases slots,
{
    if slots > 0 {
        lemma_phase_distinct(vis, kind, slots - 1);
        lemma_slot_distinct(vis, kind, slots - 1, vis.len() as int);
        let head = phase_adds(vis, kind, slots - 1);
        let tail = slot_adds(vis, kind, slots - 1, vis.len() as int);
        lemma_distinct_concat(head, tail);
        assert forall|i: int| 0 <= i < (head + tail).len() implies {
            let slot = (#[trigger] (head + tail)[i]).member.slot;
            slot is Some && slot->0 < slots
        } by {
            if i < head.len() {
                assert((head + tail)[i] == head[i]);
            } else {
                assert((head + tail)[i] == tail[i - head.len()]);
            }
        }
    }
}

proof fn lemma_entity_distinct(v: VisEntity, e: int, kind: OverlayKind, slots: int)
    requires
        0 <= e <= usize::MAX,
        0 <= slots <= v.overlays@.len() <= 4,
    ensures
        adds_distinct(entity_adds(v, e, kind, slots)),
        forall|i: int|
            0 <= i < entity_adds(v, e, kind, slots).len() ==> {
                let m = (#[trigger] entity_adds(v, e, kind, slots)[i]).member;
                m.entity == e && m.slot is Some && m.slot->0 < slots
            },
    decreases slots,
{
    if slots > 0 {
        lemma_entity_distinct(v, e, kind, slots - 1);
    }
}

proof fn lemma_overlay_distinct(vis: Seq<VisEntity>, kind: OverlayKind, n: int)
    requires
        slots_suffice(vis),
        0 <= n <= vis.len(),
    ensures
        adds_distinct(overlay_adds(vis, kind, n)),
        forall|i: int|
            0 <= i < overlay_adds(vis, kind, n).len() ==> (#[trigger] overlay_adds(
                vis,
                kind,
                n,
            )[i]).member.entity < n,
    decreases n,
{
    if n > 0 {
        assert(vis[n - 1].overlays@.len() <= 4);
        lemma_overlay_distinct(vis, kind, n - 1);
        let slots = vis[n - 1].overlays@.len() as int;
        lemma_entity_distinct(vis[n - 1], n - 1, kind, slots);
        let head = overlay_adds(vis, kind, n - 1);
        let tail = entity_adds(vis[n - 1], n - 1, kind, slots);
        lemma_distinct_concat(head, tail);
        assert forall|i: int| 0 <= i < (head + tail).len() implies (
        #[trigger] (head + tail)[i]).member.entity < n by {
            if i < head.len() {
                assert((head + tail)[i] == head[i]);
            } else {
                assert((head + tail)[i] == tail[i - head.len()]);
            }
        }
    }
}

proof fn lemma_pass_distinct(vis: Seq<VisEntity>, kind: OverlayKind)
    requires
        slots_suffice(vis),
    ensures
        adds_distinct(pass_adds(vis, kind)),
{
    let n = vis.len() as int;
    if kind == OverlayKind::Opaque || kind == OverlayKind::OpaqueCulled {
        let culled = kind == OverlayKind::OpaqueCulled;
        lemma_base_distinct(vis, culled, n);
        lemma_phase_distinct(vis, kind, MAX_OVERLAYS as int);
        lemma_distinct_concat(
            base_adds(vis, culled, n),
            phase_adds(vis, kind, MAX_OVERLAYS as int),
        );
    } else {
        lemma_overlay_distinct(vis, kind, n);
    }
}

/// Two members are of different layers.
spec fn members_differ(a: Member, b: Member) -> bool {
    a.entity != b.entity || a.slot != b.slot
}

spec fn groups_distinct(groups: Seq<GroupView>) -> bool {
    forall|g: int, k: int, h: int, m: int|
        0 <= g < groups.len() && 0 <= k < groups[g].members.len() && 0 <= h < groups.len() && 0 <= m
            < groups[h].members.len() && (g != h || k != m) ==> members_differ(
            #[trigger] groups[g].members[k],
            #[trigger] groups[h].members[m],
        )
}

proof fn lemma_groups_distinct(adds: Seq<Addition>)
    requires
        adds_distinct(adds),
    ensures
        groups_distinct(group_all(adds)),
    decreases adds.len(),
{
    if adds.len() > 0 {
        let rest = adds.drop_last();
        assert forall|i: int, j: int| 0 <= i < j < rest.len() implies adds_differ(
            #[trigger] rest[i],
            #[trigger] rest[j],
        ) by {
            assert(rest[i] == adds[i] && rest[j] == adds[j]);
        }
        lemma_groups_distinct(rest);
        let before = group_all(rest);
        let last = adds.last();
        let after = group_all(adds);
        lemma_find_range(before, last.variant, last.set, before.len() as int);
        assert forall|g: int, k: int|
            0 <= g < before.len() && 0 <= k < before[g].members.len() implies members_differ(
            #[trigger] before[g].members[k],
            last.member,
        ) by {
            let i = lemma_member_was_added(rest, g, k);
            assert(rest[i] == adds[i]);
            assert(adds_differ(adds[i], adds[adds.len() - 1]));
        }
        let at = place(before, last);
        assert forall|g: int, k: int, h: int, m: int|
            0 <= g < after.len() && 0 <= k < after[g].members.len() && 0 <= h < after.len() && 0 <= m
                < after[h].members.len() && (g != h || k != m) implies members_differ(
            #[trigger] after[g].members[k],
            #[trigger] after[h].members[m],
        ) by {
            let old_g = g < before.len() && k < before[g].members.len();
            let old_h = h < before.len() && m < before[h].members.len();
            if old_g {
                assert(after[g].members[k] == before[g].members[k]);
            } else {
                assert(after[g].members[k] == last.member);
            }
            if old_h {
                assert(after[h].members[m] == before[h].members[m]);
            } else {
                assert(after[h].members[m] == last.member);
            }
        }
    }
}

/// Where an instance of a group comes from.
proof fn lemma_instance_of_part(group: GroupView, parts: Seq<PartRange>, n: int, i: int) -> (at: (int, int))
    requires
        0 <= n <= parts.len(),
        0 <= i < group_instances(group, parts, n).len(),
    ensures
        0 <= at.0 < n,
        0 <= at.1 < group.members.len(),
        i == group_instances(group, parts, at.0).len() + at.1,
        group_instances(group, parts, n)[i] == (Instance {
            member: group.members[at.1],
            variant: group.variant,
            part: at.0 as usize,
        }),
    decreases n,
{
    let before = group_instances(group, parts, n - 1);
    if i < before.len() {
        lemma_instance_of_part(group, parts, n - 1, i)
    } else {
        assert(group_instances(group, parts, n)[i] == part_instances(group, n - 1)[i
            - before.len()]);
        (n - 1, i - before.len())
    }
}

/// Where an instance of a pass comes from.
proof fn lemma_instance_of_group(
    groups: Seq<GroupView>,
    meshes: Seq<Vec<PartRange>>,
    n: int,
    i: int,
) -> (at: (int, int, int))
    requires
        0 <= n <= groups.len(),
        0 <= i < all_instances(groups, meshes, n).len(),
    ensures
        0 <= at.0 < n,
        0 <= at.1 < parts_of(meshes, groups[at.0]).len(),
        0 <= at.2 < groups[at.0].members.len(),
        i == all_instances(groups, meshes, at.0).len() + group_instances(
            groups[at.0],
            parts_of(meshes, groups[at.0]),
            at.1,
        ).len() + at.2,
        all_instances(groups, meshes, n)[i] == (Instance {
            member: groups[at.0].members[at.2],
            variant: groups[at.0].variant,
            part: at.1 as usize,
        }),
    decreases n,
{
    let before = all_instances(groups, meshes, n - 1);
    if i < before.len() {
        lemma_instance_of_group(groups, meshes, n - 1, i)
    } else {
        let parts = parts_of(meshes, groups[n - 1]);
        let (p, k) = lemma_instance_of_part(
            groups[n - 1],
            parts,
            parts.len() as int,
            i - before.len(),
        );
        (n - 1, p, k)
    }
}

/// The pass an instance of the frame is of, and its place in it.
proof fn lemma_instance_of_pass(vis: Seq<VisEntity>, meshes: Seq<Vec<PartRange>>, i: int) -> (at: (
    OverlayKind,
    int,
))
    requires
        0 <= i < frame_instances(vis, meshes).len(),
    ensures
        0 <= at.1 < pass_instances(vis, meshes, at.0).len(),
        i == pass_start(vis, meshes, at.0) + at.1,
        frame_instances(vis, meshes)[i] == pass_instances(vis, meshes, at.0)[at.1],
{
    let culled = pass_start(vis, meshes, OverlayKind::OpaqueCulled);
    let body = pass_start(vis, meshes, OverlayKind::BodyTranslucent);
    let eyes = pass_start(vis, meshes, OverlayKind::EyesTranslucent);
    let swirl = pass_start(vis, meshes, OverlayKind::SwirlAdditive);
    if i < culled {
        (OverlayKind::Opaque, i)
    } else if i < body {
        (OverlayKind::OpaqueCulled, i - culled)
    } else if i < eyes {
        (OverlayKind::BodyTranslucent, i - body)
    } else if i < swirl {
        (OverlayKind::EyesTranslucent, i - eyes)
    } else {
        (OverlayKind::SwirlAdditive, i - swirl)
    }
}

/// No part of a layer is drawn twice in a frame.
pub proof fn law_no_layer_is_drawn_twice(
    vis: Seq<VisEntity>,
    meshes: Seq<Vec<PartRange>>,
    i: int,
    j: int,
)
    requires
        slots_suffice(vis),
        0 <= i < j < frame_instances(vis, meshes).len(),
    ensures
        ({
            let a = frame_instances(vis, meshes)[i];
            let b = frame_instances(vis, meshes)[j];
            a.member.entity != b.member.entity || a.member.slot != b.member.slot || a.part != b.part
        }),
{
    let (p, x) = lemma_instance_of_pass(vis, meshes, i);
    let (q, y) = lemma_instance_of_pass(vis, meshes, j);
    lemma_pass_layers(vis, p);
    lemma_pass_layers(vis, q);
    let gp = pass_groups(vis, p);
    let gq = pass_groups(vis, q);
    let (g, s, k) = lemma_instance_of_group(gp, meshes, gp.len() as int, x);
    let (h, t, m) = lemma_instance_of_group(gq, meshes, gq.len() as int, y);
    let a = lemma_member_was_added(pass_adds(vis, p), g, k);
    let b = lemma_member_was_added(pass_adds(vis, q), h, m);
    assert(add_is_layer(vis, pass_adds(vis, p)[a], p));
    assert(add_is_layer(vis, pass_adds(vis, q)[b], q));
    if p == q {
        lemma_pass_distinct(vis, p);
        lemma_groups_distinct(pass_adds(vis, p));
        if g == h && k == m {
            let vec = meshes[gp[g].variant as int];
            assert(vec@.len() == vec.len());
            assert(s != t);
        } else {
            assert(members_differ(gp[g].members[k], gp[h].members[m]));
        }
    }
}

/// The draws among commands, in order.
pub open spec fn draws_in(commands: Seq<PassCommand>) -> Seq<DrawRecord>
    decreases commands.len(),
{
    if commands.len() == 0 {
        Seq::empty()
    } else {
        let rest = draws_in(commands.drop_last());
        match commands.last() {
            PassCommand::Draw(r) => rest.push(r),
            PassCommand::Bind { .. } => rest,
        }
    }
}

/// Of a pass every draw is made whose instances all fit the buffer, once and in order,
/// and no other.
pub proof fn law_draws_that_fit_are_made(records: Seq<DrawRecord>, count: int, n: int)
    requires
        0 <= n <= records.len(),
    ensures
        draws_in(pass_commands(records, count, n)) == records.take(n).filter(
            |r: DrawRecord| r.first_instance + r.instance_count <= count,
        ),
    decreases n,
{
    let fits = |r: DrawRecord| r.first_instance + r.instance_count <= count;
    reveal(Seq::filter);
    if n > 0 {
        law_draws_that_fit_are_made(records, count, n - 1);
        assert(records.take(n).drop_last() =~= records.take(n - 1));
        let rest = pass_commands(records, count, n - 1);
        let r = records[n - 1];
        let bind = PassCommand::Bind { variant: r.variant, set: r.set };
        let draw = PassCommand::Draw(r);
        assert(rest.push(draw).drop_last() =~= rest);
        assert(rest.push(bind).drop_last() =~= rest);
        assert(rest.push(bind).push(draw).drop_last() =~= rest.push(bind));
        assert(draws_in(rest.push(bind)) == draws_in(rest));
    }
}

/// The entities that are drawn are those of a known mob that are in sight or not culled,
/// each once and in order, as the first mob of their kind.
pub proof fn law_entities_in_sight_are_drawn(
    looks: Seq<EntityLook>,
    mobs: Seq<MobEntry>,
    visible: Seq<bool>,
    n: int,
)
    requires
        0 <= n <= looks.len() <= usize::MAX,
        mobs.len() <= usize::MAX,
    ensures
        ({
            let shown = shown_of(looks, mobs, visible, n);
            &&& forall|e: int, m: int|
                #![trigger looks[e], mobs[m]]
                0 <= e < n && 0 <= m < mobs.len() && mobs[m].kind == looks[e].kind && (
                looks[e].skip_cull || visible[e]) ==> exists|k: int|
                    0 <= k < shown.len() && (#[trigger] shown[k]).entity == e
            &&& forall|k: int|
                0 <= k < shown.len() ==> {
                    let s = #[trigger] shown[k];
                    &&& s.entity < n
                    &&& s.mob < mobs.len()
                    &&& mobs[s.mob as int].kind == looks[s.entity as int].kind
                    &&& forall|m: int|
                        0 <= m < s.mob ==> (#[trigger] mobs[m]).kind != looks[s.entity as int].kind
                    &&& looks[s.entity as int].skip_cull || visible[s.entity as int]
                }
            &&& forall|k: int, j: int|
                0 <= k < j < shown.len() ==> (#[trigger] shown[k]).entity < (
                #[trigger] shown[j]).entity
        }),
    decreases n,
{
    if n > 0 {
        law_entities_in_sight_are_drawn(looks, mobs, visible, n - 1);
        let before = shown_of(looks, mobs, visible, n - 1);
        let shown = shown_of(looks, mobs, visible, n);
        let kind = looks[n - 1].kind;
        lemma_mob_within(mobs, kind, mobs.len() as int);
        lemma_mob_is_first(mobs, kind, mobs.len() as int);
        assert forall|e: int, m: int|
            #![trigger looks[e], mobs[m]]
            0 <= e < n && 0 <= m < mobs.len() && mobs[m].kind == looks[e].kind && (
            looks[e].skip_cull || visible[e]) implies exists|k: int|
            0 <= k < shown.len() && (#[trigger] shown[k]).entity == e by {
            if e < n - 1 {
                let k = choose|k: int| 0 <= k < before.len() && (#[trigger] before[k]).entity == e;
                assert(shown[k].entity == e);
            } else {
                assert(shown[before.len() as int].entity == e);
            }
        }
        assert forall|k: int| 0 <= k < shown.len() implies {
            let s = #[trigger] shown[k];
            &&& s.entity < n
            &&& s.mob < mobs.len()
            &&& mobs[s.mob as int].kind == looks[s.entity as int].kind
            &&& forall|m: int|
                0 <= m < s.mob ==> (#[trigger] mobs[m]).kind != looks[s.entity as int].kind
            &&& looks[s.entity as int].skip_cull || visible[s.entity as int]
        } by {
            if k < before.len() {
                assert(shown[k] == before[k]);
            }
        }
    }
}

proof fn lemma_mob_is_first(mobs: Seq<MobEntry>, kind: EntityKind, n: int)
    requires
        0 <= n <= mobs.len(),
    ensures
        forall|m: int|
            0 <= m < n && (#[trigger] mobs[m]).kind == kind ==> mob_of(mobs, kind, n) is Some
                && mob_of(mobs, kind, n)->0 <= m,
    decreases n,
{
    if n > 0 {
        lemma_mob_is_first(mobs, kind, n - 1);
        lemma_mob_within(mobs, kind, n - 1);
    }
}

/// An entity is drawn as it looks. Its base model is the variant asked for, or the last
/// there is, of the babies if it is one and there are any, else of the adults; a player
/// whose skin is known has the slim model, second of its variants, or the wide one, first
/// of them, and the texture of the skin. Each overlay of its age is likewise the variant
/// asked for in its slot or the last there is, and shown if the slot is tinted.
pub proof fn law_entities_look_as_asked(
    v: VisEntity,
    look: EntityLook,
    entry: MobEntry,
    skins: SkinCache,
    slot: int,
)
    requires
        entry.wf(),
        looks_like(v, look, entry, skins),
    ensures
        ({
            let pool = if look.is_baby && entry.baby is Some {
                entry.baby->0@
            } else {
                entry.adult@
            };
            let known = look.kind == EntityKind::Player && look.player is Some
                && skins@.dom().contains(look.player->0);
            let skin = skins@[look.player->0];
            let wanted = if known {
                if skin.slim {
                    1int
                } else {
                    0
                }
            } else {
                look.variant_index as int
            };
            let i = if wanted < pool.len() {
                wanted
            } else {
                pool.len() - 1
            };
            &&& v.base_variant == pool[i].mesh
            &&& v.base_kind == pool[i].kind
            &&& v.base_set == (if known {
                skin.set
            } else {
                pool[i].set
            })
            &&& v.red == look.red
        }),
        ({
            let pools = if look.is_baby {
                entry.baby_overlays@
            } else {
                entry.adult_overlays@
            };
            &&& v.overlays@.len() == pools.len()
            &&& 0 <= slot < pools.len() ==> {
                let pool = pools[slot]@;
                let wanted = look.overlay_variants@[slot] as int;
                let i = if wanted < pool.len() {
                    wanted
                } else {
                    pool.len() - 1
                };
                v.overlays@[slot] == (OverlayUse {
                    variant: pool[i].mesh,
                    set: pool[i].set,
                    kind: pool[i].kind,
                    tinted: look.tinted@[slot],
                })
            }
        }),
{
}

/// The textures of all mobs add up, each mob with those of its body at either age and of
/// everything worn over it.
pub proof fn law_textures_add_up(defs: Seq<MobDef>, n: int)
    requires
        0 <= n < defs.len(),
    ensures
        all_textures(defs, 0) == 0,
        all_textures(defs, n + 1) - all_textures(defs, n) == crate::mobs::texture_total(
            defs[n].adult@,
        ) + crate::mobs::texture_total(defs[n].adult_overlays@) + crate::mobs::texture_total(
            defs[n].baby_overlays@,
        ) + (if defs[n].baby is Some {
            crate::mobs::table_of(defs[n].baby->0.textures).len() as int
        } else {
            0
        }),
{
}

} // verus!
