//! Per-entity decisions: variants, tints, bounds, poses.
use vstd::prelude::*;

use crate::mobs::AnimationType;
use crate::mobs::EntityKind;
use crate::mobs::OverlayKind;

verus! {

pub const MAX_OVERLAYS: usize = 4;

/// Colours of the wool layer by dye.
pub const WOOL_COLORS: [u32; 16] = [
    0xF0F0F0,
    0xEB8844,
    0xC354CD,
    0x6689D3,
    0xDECF2A,
    0x41CD34,
    0xD88198,
    0x434343,
    0xABABAB,
    0x287697,
    0x7B2FBE,
    0x253192,
    0x51301A,
    0x3B511A,
    0xB3312C,
    0x1E1B1B,
];

/// Colours of collars by dye.
pub const DYE_COLORS: [u32; 16] = [
    0xF9FFFE,
    0xF9801D,
    0xC74EBD,
    0x3AB3DA,
    0xFED83D,
    0x80C71F,
    0xF38BAA,
    0x474F52,
    0x9D9D97,
    0x169C9C,
    0x8932B8,
    0x3C44AA,
    0x835432,
    0x5E7C16,
    0xB02E26,
    0x1D1D21,
];

/// The channels of a packed colour: red, green, blue.
pub open spec fn channels(hex: int) -> Seq<int> {
    seq![(hex / 0x1_0000) % 0x100, (hex / 0x100) % 0x100, hex % 0x100]
}

/// The view of three channel bytes.
pub open spec fn bytes3(rgb: [u8; 3]) -> Seq<int> {
    seq![rgb[0] as int, rgb[1] as int, rgb[2] as int]
}

pub fn rgb(hex: u32) -> (rgb: [u8; 3])
    ensures
        bytes3(rgb) == channels(hex as int),
{
    assert((hex >> 16) & 0xFF == (hex / 0x1_0000) % 0x100 && (hex >> 8) & 0xFF == (hex / 0x100)
        % 0x100 && hex & 0xFF == hex % 0x100) by (bit_vector);
    let out: [u8; 3] = [
        ((hex >> 16) & 0xFF) as u8,
        ((hex >> 8) & 0xFF) as u8,
        (hex & 0xFF) as u8,
    ];
    assert(bytes3(out) =~= channels(hex as int));
    out
}

/// The wool colour of a dye id.
pub open spec fn wool_of(color: int) -> int {
    WOOL_COLORS[color % 16] as int
}

/// The collar colour of a dye id.
pub open spec fn collar_of(color: int) -> int {
    if 0 <= color < 16 {
        DYE_COLORS[color] as int
    } else {
        DYE_COLORS[0] as int
    }
}

/// The wool colour of a dye id, which counts modulo sixteen.
pub fn wool_color_tint(color: u8) -> (tint: [u8; 3])
    ensures
        bytes3(tint) == channels(wool_of(color as int)),
        bytes3(tint) == channels(WOOL_COLORS[color as int % 16] as int),
{
    let table = WOOL_COLORS;
    assert(color & 0x0F == color % 16) by (bit_vector);
    rgb(table[(color & 0x0F) as usize])
}

/// The collar colour of a dye id; ids out of range are white.
pub fn dye_color_tint(color: u8) -> (tint: [u8; 3])
    ensures
        bytes3(tint) == channels(collar_of(color as int)),
        bytes3(tint) == channels(
            DYE_COLORS[if color < 16 {
                color as int
            } else {
                0
            }] as int,
        ),
{
    let table = DYE_COLORS;
    if color < 16 {
        rgb(table[color as usize])
    } else {
        rgb(table[0])
    }
}

/// The running colour number of a rainbow sheep.
pub open spec fn jeb_base(entity_id: i32, age_in_ticks: u32) -> int {
    (age_in_ticks as int / 25 + entity_id) % 0x1_0000_0000
}

/// Channels of the rainbow sheep in twenty-fifths: each colour fades into the
/// next over 25 ticks.
pub open spec fn jeb_channels(entity_id: i32, age_in_ticks: u32) -> Seq<int> {
    let base = jeb_base(entity_id, age_in_ticks);
    let t = age_in_ticks as int % 25;
    let a = channels(WOOL_COLORS[base % 16] as int);
    let b = channels(WOOL_COLORS[(base + 1) % 16] as int);
    seq![
        a[0] * (25 - t) + b[0] * t,
        a[1] * (25 - t) + b[1] * t,
        a[2] * (25 - t) + b[2] * t,
    ]
}

fn blend25(a: u8, b: u8, t: u32) -> (mixed: u32)
    requires
        t < 25,
    ensures
        mixed == a * (25 - t) + b * t,
{
    assert(a * (25 - t) <= 255 * 25 && b * t <= 255 * 25) by (nonlinear_arith)
        requires
            0 <= a <= 255,
            0 <= b <= 255,
            0 <= t < 25,
    ;
    a as u32 * (25 - t) + b as u32 * t
}

pub fn jeb_sheep_tint(entity_id: i32, age_in_ticks: u32) -> (tint: [u32; 3])
    requires
        jeb_base(entity_id, age_in_ticks) < u32::MAX,
    ensures
        tint[0] == jeb_channels(entity_id, age_in_ticks)[0],
        tint[1] == jeb_channels(entity_id, age_in_ticks)[1],
        tint[2] == jeb_channels(entity_id, age_in_ticks)[2],
{
    let table = WOOL_COLORS;
    let id: u32 = entity_id as u32;
    assert((entity_id >= 0 ==> id == entity_id) && (entity_id < 0 ==> id == entity_id
        + 0x1_0000_0000)) by (bit_vector)
        requires
            id == entity_id as u32,
    ;
    let base: u32 = (age_in_ticks / 25).wrapping_add(id);
    assert(base == jeb_base(entity_id, age_in_ticks));
    let t: u32 = age_in_ticks % 25;
    let a = rgb(table[(base % 16) as usize]);
    let b = rgb(table[((base + 1) % 16) as usize]);
    proof {
        let x = channels(WOOL_COLORS[base as int % 16] as int);
        let y = channels(WOOL_COLORS[(base + 1) % 16] as int);
        assert(bytes3(a)[0] == x[0] && bytes3(a)[1] == x[1] && bytes3(a)[2] == x[2]);
        assert(bytes3(b)[0] == y[0] && bytes3(b)[1] == y[1] && bytes3(b)[2] == y[2]);
    }
    [blend25(a[0], b[0], t), blend25(a[1], b[1], t), blend25(a[2], b[2], t)]
}

/// A rainbow sheep ends each fade where the next one begins.
pub proof fn law_jeb_fade_is_continuous(entity_id: i32, step: u32)
    requires
        step < 100_000_000,
    ensures
        jeb_channels(entity_id, (step * 25) as u32) == channels(
            WOOL_COLORS[((step + entity_id) % 0x1_0000_0000) % 16] as int,
        ).map_values(|c: int| 25 * c),
{
    let age = (step * 25) as u32;
    assert(age as int / 25 == step);
    assert(age as int % 25 == 0);
    assert(jeb_channels(entity_id, age) =~= channels(
        WOOL_COLORS[((step + entity_id) % 0x1_0000_0000) % 16] as int,
    ).map_values(|c: int| 25 * c));
}

/// Degrees a dying mob tips over.
pub open spec fn flip_of(kind: EntityKind) -> int {
    match kind {
        EntityKind::Spider
        | EntityKind::CaveSpider
        | EntityKind::Endermite
        | EntityKind::Silverfish => 180,
        _ => 90,
    }
}

/// Degrees a dying mob tips over.
pub fn flip_degrees(kind: EntityKind) -> (degrees: u32)
    ensures
        degrees == flip_of(kind),
        degrees == match kind {
            EntityKind::Spider
            | EntityKind::CaveSpider
            | EntityKind::Endermite
            | EntityKind::Silverfish => 180int,
            _ => 90,
        },
{
    match kind {
        EntityKind::Spider
        | EntityKind::CaveSpider
        | EntityKind::Endermite
        | EntityKind::Silverfish => 180,
        _ => 90,
    }
}

/// How far a dying mob has tipped over: the square of the fraction, over one
/// hundred million. Squids do not tip. A fall in its first tick, which has no
/// square root, counts as complete.
pub open spec fn fall_squared(death_time: int, kind: EntityKind) -> int {
    if death_time <= 0 || kind == EntityKind::Squid || kind == EntityKind::GlowSquid {
        0
    } else if death_time < 1_000_000 {
        100_000_000
    } else if (death_time - 1_000_000) * 8 < 100_000_000 {
        (death_time - 1_000_000) * 8
    } else {
        100_000_000
    }
}

/// The flip of a mob and how much of it is done at a death time in millionths
/// of a tick.
pub fn death_fall(death_time: i64, kind: EntityKind) -> (fall: (u32, u32))
    ensures
        fall.0 == flip_of(kind),
        fall.0 == match kind {
            EntityKind::Spider
            | EntityKind::CaveSpider
            | EntityKind::Endermite
            | EntityKind::Silverfish => 180int,
            _ => 90,
        },
        fall.1 == fall_squared(death_time as int, kind),
{
    let flip: u32 = flip_degrees(kind);
    if death_time <= 0 || kind == EntityKind::Squid || kind == EntityKind::GlowSquid {
        return (flip, 0);
    }
    if death_time < 1_000_000 || death_time >= 13_500_000 {
        return (flip, 100_000_000);
    }
    (flip, ((death_time - 1_000_000) * 8) as u32)
}

/// From its second tick on, a fall never goes back.
pub proof fn law_fall_is_monotonic(a: int, b: int, kind: EntityKind)
    requires
        1_000_000 <= a <= b,
    ensures
        fall_squared(a, kind) <= fall_squared(b, kind) <= 100_000_000,
{
}

/// Hitboxes in hundred-millionths of a block: adult width and height, baby width
/// and height.
pub const ENTITY_BOUNDS: [(EntityKind, u32, u32, u32, u32); 35] = [
    (EntityKind::Pig, 90000000, 90000000, 45000000, 45000000),
    (EntityKind::Cow, 90000000, 140000000, 45000000, 70000000),
    (EntityKind::Chicken, 40000000, 70000000, 30000000, 40000000),
    (EntityKind::Sheep, 90000000, 130000000, 45000000, 65000000),
    (EntityKind::Player, 60000000, 180000000, 30000000, 90000000),
    (EntityKind::Zombie, 60000000, 195000000, 49000000, 98000000),
    (EntityKind::Husk, 60000000, 195000000, 49000000, 98000000),
    (EntityKind::Drowned, 60000000, 195000000, 49000000, 98000000),
    (EntityKind::ZombieVillager, 60000000, 195000000, 49000000, 98000000),
    (EntityKind::Skeleton, 60000000, 199000000, 30000000, 99500000),
    (EntityKind::Stray, 60000000, 199000000, 30000000, 99500000),
    (EntityKind::Bogged, 60000000, 199000000, 30000000, 99500000),
    (EntityKind::Creeper, 60000000, 170000000, 30000000, 85000000),
    (EntityKind::Villager, 60000000, 195000000, 49000000, 98000000),
    (EntityKind::Spider, 140000000, 90000000, 70000000, 45000000),
    (EntityKind::Enderman, 60000000, 290000000, 30000000, 145000000),
    (EntityKind::Slime, 52000000, 52000000, 26000000, 26000000),
    (EntityKind::Witch, 60000000, 195000000, 30000000, 97500000),
    (EntityKind::Wolf, 60000000, 85000000, 30000000, 42500000),
    (EntityKind::Cat, 60000000, 70000000, 30000000, 35000000),
    (EntityKind::Ocelot, 60000000, 70000000, 30000000, 35000000),
    (EntityKind::Rabbit, 49000000, 60000000, 24000000, 40000000),
    (EntityKind::Horse, 139648440, 160000000, 97753908, 112000000),
    (EntityKind::Donkey, 139648440, 150000000, 69824220, 75000000),
    (EntityKind::Mule, 139648440, 160000000, 69824220, 80000000),
    (EntityKind::SkeletonHorse, 139648440, 160000000, 97753908, 112000000),
    (EntityKind::ZombieHorse, 139648440, 160000000, 97753908, 112000000),
    (EntityKind::Squid, 80000000, 80000000, 50000000, 50000000),
    (EntityKind::GlowSquid, 80000000, 80000000, 50000000, 50000000),
    (EntityKind::Bat, 50000000, 90000000, 25000000, 45000000),
    (EntityKind::Cod, 50000000, 30000000, 25000000, 15000000),
    (EntityKind::Salmon, 105000000, 60000000, 52500000, 30000000),
    (EntityKind::TropicalFish, 50000000, 40000000, 25000000, 20000000),
    (EntityKind::Pufferfish, 70000000, 70000000, 35000000, 35000000),
    (EntityKind::IronGolem, 140000000, 270000000, 70000000, 135000000),
];

/// The hitbox of an entity; one block where the kind is not listed.
pub open spec fn bounds_of(kind: EntityKind, is_baby: bool) -> (u32, u32) {
    let n = crate::mobs::mob_number(kind);
    if n < 0 {
        if is_baby {
            (50_000_000, 50_000_000)
        } else {
            (100_000_000, 100_000_000)
        }
    } else if is_baby {
        (ENTITY_BOUNDS[n].3, ENTITY_BOUNDS[n].4)
    } else {
        (ENTITY_BOUNDS[n].1, ENTITY_BOUNDS[n].2)
    }
}

proof fn lemma_bounds_order(i: int)
    requires
        0 <= i < 35,
    ensures
        crate::mobs::mob_number(ENTITY_BOUNDS[i].0) == i,
{
    assert(ENTITY_BOUNDS[0].0 == EntityKind::Pig);
    assert(ENTITY_BOUNDS[1].0 == EntityKind::Cow);
    assert(ENTITY_BOUNDS[2].0 == EntityKind::Chicken);
    assert(ENTITY_BOUNDS[3].0 == EntityKind::Sheep);
    assert(ENTITY_BOUNDS[4].0 == EntityKind::Player);
    assert(ENTITY_BOUNDS[5].0 == EntityKind::Zombie);
    assert(ENTITY_BOUNDS[6].0 == EntityKind::Husk);
    assert(ENTITY_BOUNDS[7].0 == EntityKind::Drowned);
    assert(ENTITY_BOUNDS[8].0 == EntityKind::ZombieVillager);
    assert(ENTITY_BOUNDS[9].0 == EntityKind::Skeleton);
    assert(ENTITY_BOUNDS[10].0 == EntityKind::Stray);
    assert(ENTITY_BOUNDS[11].0 == EntityKind::Bogged);
    assert(ENTITY_BOUNDS[12].0 == EntityKind::Creeper);
    assert(ENTITY_BOUNDS[13].0 == EntityKind::Villager);
    assert(ENTITY_BOUNDS[14].0 == EntityKind::Spider);
    assert(ENTITY_BOUNDS[15].0 == EntityKind::Enderman);
    assert(ENTITY_BOUNDS[16].0 == EntityKind::Slime);
    assert(ENTITY_BOUNDS[17].0 == EntityKind::Witch);
    assert(ENTITY_BOUNDS[18].0 == EntityKind::Wolf);
    assert(ENTITY_BOUNDS[19].0 == EntityKind::Cat);
    assert(ENTITY_BOUNDS[20].0 == EntityKind::Ocelot);
    assert(ENTITY_BOUNDS[21].0 == EntityKind::Rabbit);
    assert(ENTITY_BOUNDS[22].0 == EntityKind::Horse);
    assert(ENTITY_BOUNDS[23].0 == EntityKind::Donkey);
    assert(ENTITY_BOUNDS[24].0 == EntityKind::Mule);
    assert(ENTITY_BOUNDS[25].0 == EntityKind::SkeletonHorse);
    assert(ENTITY_BOUNDS[26].0 == EntityKind::ZombieHorse);
    assert(ENTITY_BOUNDS[27].0 == EntityKind::Squid);
    assert(ENTITY_BOUNDS[28].0 == EntityKind::GlowSquid);
    assert(ENTITY_BOUNDS[29].0 == EntityKind::Bat);
    assert(ENTITY_BOUNDS[30].0 == EntityKind::Cod);
    assert(ENTITY_BOUNDS[31].0 == EntityKind::Salmon);
    assert(ENTITY_BOUNDS[32].0 == EntityKind::TropicalFish);
    assert(ENTITY_BOUNDS[33].0 == EntityKind::Pufferfish);
    assert(ENTITY_BOUNDS[34].0 == EntityKind::IronGolem);
}

pub fn entity_bounds(kind: EntityKind, is_baby: bool) -> (bounds: (u32, u32))
    ensures
        bounds == bounds_of(kind, is_baby),
{
    let table = ENTITY_BOUNDS;
    let mut i: usize = 0;
    while i < 35
        invariant
            i <= 35,
            table == ENTITY_BOUNDS,
            crate::mobs::mob_number(kind) < 0 || crate::mobs::mob_number(kind) >= i,
        decreases 35 - i,
    {
        proof {
            lemma_bounds_order(i as int);
        }
        if table[i].0 == kind {
            return if is_baby {
                (table[i].3, table[i].4)
            } else {
                (table[i].1, table[i].2)
            };
        }
        proof {
            lemma_bounds_order(i as int);
            if crate::mobs::mob_number(kind) == i {
                crate::mobs::lemma_number_names_kind(kind, table[i as int].0);
            }
        }
        i = i + 1;
    }
    proof {
        crate::mobs::lemma_number_range(kind);
    }
    if is_baby {
        (50_000_000, 50_000_000)
    } else {
        (100_000_000, 100_000_000)
    }
}

/// A baby is never larger than the adult.
pub proof fn law_babies_are_smaller(kind: EntityKind)
    ensures
        bounds_of(kind, true).0 <= bounds_of(kind, false).0,
        bounds_of(kind, true).1 <= bounds_of(kind, false).1,
{
}

/// A texture variant of a mob that was loaded.
#[derive(Clone, Copy, Debug, PartialEq, Eq, Structural)]
pub struct MobVariant {
    /// Its place in the list of meshes.
    pub mesh: usize,
    pub set: u64,
    pub kind: OverlayKind,
}

/// What a mob is drawn with: the variants of its base and of each overlay slot.
pub struct MobEntry {
    pub kind: EntityKind,
    pub anim: AnimationType,
    pub adult: Vec<MobVariant>,
    pub baby: Option<Vec<MobVariant>>,
    pub adult_overlays: Vec<Vec<MobVariant>>,
    pub baby_overlays: Vec<Vec<MobVariant>>,
}

/// An index held inside a pool.
pub open spec fn pooled(index: int, len: int) -> int {
    if index < len {
        index
    } else {
        len - 1
    }
}

fn pool_index(index: u32, len: usize) -> (held: usize)
    requires
        len > 0,
    ensures
        held == pooled(index as int, len as int),
        held < len,
{
    if (index as usize) < len {
        index as usize
    } else {
        len - 1
    }
}

impl MobEntry {
    /// No pool is empty, and there are no more overlays than slots.
    pub open spec fn wf(self) -> bool {
        &&& self.adult@.len() > 0
        &&& self.baby is Some ==> self.baby->0@.len() > 0
        &&& self.adult_overlays@.len() <= MAX_OVERLAYS
        &&& self.baby_overlays@.len() <= MAX_OVERLAYS
        &&& forall|s: int|
            0 <= s < self.adult_overlays@.len() ==> (#[trigger] self.adult_overlays@[s])@.len() > 0
        &&& forall|s: int|
            0 <= s < self.baby_overlays@.len() ==> (#[trigger] self.baby_overlays@[s])@.len() > 0
    }

    /// The base variants of an age: adults stand in where there are no babies.
    pub open spec fn base_pool(self, is_baby: bool) -> Seq<MobVariant> {
        if is_baby && self.baby is Some {
            self.baby->0@
        } else {
            self.adult@
        }
    }

    /// The overlay pools of an age.
    pub open spec fn overlay_pools(self, is_baby: bool) -> Seq<Vec<MobVariant>> {
        if is_baby {
            self.baby_overlays@
        } else {
            self.adult_overlays@
        }
    }

    /// The variant an overlay slot shows.
    pub open spec fn shown_overlay(self, is_baby: bool, slot: int, variant_index: u32) -> MobVariant {
        let pool = self.overlay_pools(is_baby)[slot]@;
        pool[pooled(variant_index as int, pool.len() as int)]
    }

    /// The variant a base model shows.
    pub fn base_variant(&self, is_baby: bool, variant_index: u32) -> (variant: MobVariant)
        requires
            self.wf(),
        ensures
            variant == self.base_pool(is_baby)[pooled(
                variant_index as int,
                self.base_pool(is_baby).len() as int,
            )],
    {
        if is_baby {
            if let Some(pool) = &self.baby {
                return pool[pool_index(variant_index, pool.len())];
            }
        }
        self.adult[pool_index(variant_index, self.adult.len())]
    }

    /// The overlay pools of an age.
    pub fn overlays(&self, is_baby: bool) -> (pools: &Vec<Vec<MobVariant>>)
        ensures
            pools@ == self.overlay_pools(is_baby),
    {
        if is_baby {
            &self.baby_overlays
        } else {
            &self.adult_overlays
        }
    }

    /// The variant an overlay slot shows.
    pub fn overlay_variant(&self, is_baby: bool, slot: usize, variant_index: u32) -> (variant:
        MobVariant)
        requires
            self.wf(),
            slot < self.overlay_pools(is_baby).len(),
        ensures
            variant == self.shown_overlay(is_baby, slot as int, variant_index),
    {
        let pools = self.overlays(is_baby);
        let pool = &pools[slot];
        pool[pool_index(variant_index, pool.len())]
    }
}

/// Whether an overlay's parts are named like the base's, in the same order.
/// Animations index both by part number.
pub fn parts_match(base: &Vec<String>, overlay: &Vec<String>) -> (same: bool)
    ensures
        same == (crate::text::texts(base@) == crate::text::texts(overlay@)),
{
    if base.len() != overlay.len() {
        assert(crate::text::texts(base@).len() != crate::text::texts(overlay@).len());
        return false;
    }
    let mut i: usize = 0;
    while i < base.len()
        invariant
            i <= base@.len() == overlay@.len(),
            forall|j: int| 0 <= j < i ==> base@[j]@ == overlay@[j]@,
        decreases base@.len() - i,
    {
        if !crate::text::same_text(base[i].as_str(), overlay[i].as_str()) {
            proof {
                let k = i as int;
                assert(crate::text::texts(base@)[k] != crate::text::texts(overlay@)[k]);
            }
            return false;
        }
        i = i + 1;
    }
    assert(crate::text::texts(base@) =~= crate::text::texts(overlay@));
    true
}

/// Where a part hangs and how it is turned, as the bits of single-precision numbers
/// without negative zeros.
#[derive(Clone, Copy, Debug, PartialEq, Eq, Structural)]
pub struct PartPose {
    pub x: u32,
    pub y: u32,
    pub z: u32,
    pub x_rot: u32,
    pub y_rot: u32,
    pub z_rot: u32,
}

/// The parts of a variant's model.
pub struct VariantParts {
    pub names: Vec<String>,
    pub poses: Vec<PartPose>,
}

fn same_part_poses(a: &Vec<PartPose>, b: &Vec<PartPose>) -> (same: bool)
    ensures
        same == (a@ == b@),
{
    if a.len() != b.len() {
        return false;
    }
    let mut i: usize = 0;
    while i < a.len()
        invariant
            i <= a@.len() == b@.len(),
            forall|j: int| 0 <= j < i ==> a@[j] == b@[j],
        decreases a@.len() - i,
    {
        if a[i] != b[i] {
            return false;
        }
        i = i + 1;
    }
    assert(a@ =~= b@);
    true
}

/// Which overlays get part transforms of their own: those whose parts hang otherwise
/// than the base's. The others share the base's, as all do where there is no base.
pub fn link_overlays(base: &Vec<VariantParts>, overlays: &Vec<VariantParts>) -> (own_pivots: Vec<
    bool,
>)
    requires
        base@.len() > 0 ==> forall|i: int|
            0 <= i < overlays@.len() ==> crate::text::texts((#[trigger] overlays@[i]).names@)
                == crate::text::texts(base@[0].names@),
    ensures
        own_pivots@ == Seq::new(
            overlays@.len(),
            |i: int| base@.len() > 0 && overlays@[i].poses@ != base@[0].poses@,
        ),
{
    let mut own_pivots: Vec<bool> = Vec::new();
    let mut i: usize = 0;
    while i < overlays.len()
        invariant
            i <= overlays@.len(),
            own_pivots@ == Seq::new(
                i as nat,
                |k: int| base@.len() > 0 && overlays@[k].poses@ != base@[0].poses@,
            ),
        decreases overlays@.len() - i,
    {
        let own = base.len() > 0 && !same_part_poses(&base[0].poses, &overlays[i].poses);
        own_pivots.push(own);
        i = i + 1;
        assert(own_pivots@ =~= Seq::new(
            i as nat,
            |k: int| base@.len() > 0 && overlays@[k].poses@ != base@[0].poses@,
        ));
    }
    own_pivots
}

/// Only the scrolling swirl repeats its texture.
pub fn repeats_texture(kind: OverlayKind) -> (repeats: bool)
    ensures
        repeats == (kind == OverlayKind::SwirlAdditive),
{
    match kind {
        OverlayKind::SwirlAdditive => true,
        _ => false,
    }
}

/// `count` copies of one pixel.
pub open spec fn solid(pixel: Seq<u8>, count: nat) -> Seq<u8> {
    Seq::new(4 * count, |i: int| pixel[i % 4])
}

/// An image of one colour.
pub fn solid_image(pixel: [u8; 4], count: usize) -> (pixels: Vec<u8>)
    requires
        4 * count <= usize::MAX,
    ensures
        pixels@ == solid(pixel@, count as nat),
{
    let mut pixels: Vec<u8> = Vec::new();
    let mut n: usize = 0;
    while n < count
        invariant
            n <= count,
            pixels@.len() == 4 * n,
            forall|i: int| 0 <= i < 4 * n ==> #[trigger] pixels@[i] == pixel@[i % 4],
        decreases count - n,
    {
        let ghost before = pixels@;
        pixels.push(pixel[0]);
        pixels.push(pixel[1]);
        pixels.push(pixel[2]);
        pixels.push(pixel[3]);
        assert forall|i: int| 0 <= i < 4 * (n + 1) implies #[trigger] pixels@[i] == pixel@[i % 4] by {
            if i < 4 * n {
                assert(pixels@[i] == before[i]);
            } else {
                assert(i % 4 == i - 4 * n);
            }
        }
        n = n + 1;
    }
    assert(pixels@ =~= solid(pixel@, count as nat));
    pixels
}

/// The square image shown where an entity texture is missing.
pub fn fallback_texture(size: u32) -> (image: (Vec<u8>, u32, u32))
    requires
        4 * size * size <= usize::MAX,
    ensures
        image.0@ == solid(seq![219u8, 148u8, 148u8, 255u8], (size * size) as nat),
        image.1 == size,
        image.2 == size,
{
    assert(size * size <= usize::MAX) by (nonlinear_arith)
        requires
            4 * size * size <= usize::MAX,
            size >= 0,
    ;
    assert(4 * (size * size) == 4 * size * size) by (nonlinear_arith);
    let count: usize = size as usize * size as usize;
    let pixel: [u8; 4] = [219, 148, 148, 255];
    assert(pixel@ =~= seq![219u8, 148u8, 148u8, 255u8]);
    (solid_image(pixel, count), size, size)
}

/// What drives an entity's animation. Fractions are carried as the bit patterns
/// of single-precision numbers.
#[derive(Clone, Copy, Debug, PartialEq, Eq, Structural)]
pub struct AnimInputs {
    pub kind: EntityKind,
    pub is_baby: bool,
    pub is_crouching: bool,
    pub is_sprinting: bool,
    pub is_sitting: bool,
    pub is_angry: bool,
    pub is_unhappy: bool,
    pub is_creepy: bool,
    pub is_holding_item: bool,
    pub is_in_water: bool,
    pub aggressive: bool,
    pub animate_tail: bool,
    pub bat_resting: bool,
    pub head_x_rot: u32,
    /// Head yaw relative to the body.
    pub local_head_y: u32,
    pub head_y_offset: u32,
    pub head_x_rot_override: Option<u32>,
    pub walk_pos: u32,
    pub walk_speed: u32,
    pub age: u32,
    pub attack_time: u32,
    pub flap: u32,
    pub flap_speed: u32,
    pub nose_wobble_speed: u32,
    pub tail_angle: u32,
    pub head_roll: u32,
    pub shake: u32,
    pub lie_down: u32,
    pub lie_down_tail: u32,
    pub relax: u32,
    pub hop_elapsed: Option<u32>,
    pub eat: u32,
    pub stand: u32,
    pub feeding: u32,
    pub tentacle_angle: u32,
    pub bat_elapsed: Option<u32>,
    pub golem_attack: u32,
    pub golem_flower: u32,
}

/// The hooks a horse animates with.
#[derive(Clone, Copy, Debug, PartialEq, Eq, Structural)]
pub enum EquineKind {
    Adult,
    BabyDonkey,
    BabyHorse,
}

/// Head and walk cycle, which most animations begin with.
#[derive(Clone, Copy, Debug, PartialEq, Eq, Structural)]
pub struct Gait {
    pub head_x_rot: u32,
    pub local_head_y: u32,
    pub walk_pos: u32,
    pub walk_speed: u32,
}

/// The animation to run, with the inputs it reads.
#[derive(Clone, Copy, Debug, PartialEq, Eq, Structural)]
pub enum AnimCall {
    Quadruped { gait: Gait, head_y_offset: u32, head_x_rot_override: Option<u32> },
    Chicken { gait: Gait, flap: u32, flap_speed: u32 },
    Humanoid { gait: Gait, crouching: bool },
    Enderman { gait: Gait, age: u32, creepy: bool },
    Zombie { gait: Gait, aggressive: bool, age: u32, attack_time: u32 },
    Skeleton { gait: Gait, aggressive: bool, age: u32 },
    Spider { gait: Gait },
    Villager { gait: Gait, unhappy: bool, age: u32 },
    Witch { gait: Gait, age: u32, nose_wobble_speed: u32, holding_item: bool },
    Wolf {
        gait: Gait,
        sitting: bool,
        angry: bool,
        baby: bool,
        tail_angle: u32,
        head_roll: u32,
        shake: u32,
    },
    Feline {
        gait: Gait,
        crouching: bool,
        sprinting: bool,
        sitting: bool,
        lie_down: u32,
        lie_down_tail: u32,
        relax: u32,
        baby: bool,
    },
    Rabbit { head_x_rot: u32, local_head_y: u32, hop_elapsed: Option<u32>, baby: bool },
    Equine {
        gait: Gait,
        age: u32,
        kind: EquineKind,
        eat: u32,
        stand: u32,
        feeding: u32,
        animate_tail: bool,
    },
    Squid { tentacle_angle: u32 },
    Bat { local_head_y: u32, elapsed: Option<u32>, resting: bool },
    Fish { age: u32, in_water: bool, puffer: bool },
    Golem { gait: Gait, attack: u32, flower: u32 },
    Still,
}

/// The horse hooks of an entity.
pub open spec fn equine_of(info: AnimInputs) -> EquineKind {
    if !info.is_baby {
        EquineKind::Adult
    } else if info.kind == EntityKind::Donkey || info.kind == EntityKind::Mule {
        EquineKind::BabyDonkey
    } else {
        EquineKind::BabyHorse
    }
}

/// The head and walk cycle of an entity.
pub open spec fn gait_of(info: AnimInputs) -> Gait {
    Gait {
        head_x_rot: info.head_x_rot,
        local_head_y: info.local_head_y,
        walk_pos: info.walk_pos,
        walk_speed: info.walk_speed,
    }
}

/// Picks the animation of an entity and what it reads.
pub fn compute_anim(anim: AnimationType, info: &AnimInputs) -> (call: AnimCall)
    ensures
        call == match anim {
            AnimationType::Quadruped => AnimCall::Quadruped {
                gait: gait_of(*info),
                head_y_offset: info.head_y_offset,
                head_x_rot_override: info.head_x_rot_override,
            },
            AnimationType::Chicken => AnimCall::Chicken {
                gait: gait_of(*info),
                flap: info.flap,
                flap_speed: info.flap_speed,
            },
            AnimationType::Humanoid => AnimCall::Humanoid {
                gait: gait_of(*info),
                crouching: info.is_crouching,
            },
            AnimationType::Enderman => AnimCall::Enderman {
                gait: gait_of(*info),
                age: info.age,
                creepy: info.is_creepy,
            },
            AnimationType::Zombie => AnimCall::Zombie {
                gait: gait_of(*info),
                aggressive: info.aggressive,
                age: info.age,
                attack_time: info.attack_time,
            },
            AnimationType::Skeleton => AnimCall::Skeleton {
                gait: gait_of(*info),
                aggressive: info.aggressive,
                age: info.age,
            },
            AnimationType::Spider => AnimCall::Spider { gait: gait_of(*info) },
            AnimationType::Villager => AnimCall::Villager {
                gait: gait_of(*info),
                unhappy: info.is_unhappy,
                age: info.age,
            },
            AnimationType::Witch => AnimCall::Witch {
                gait: gait_of(*info),
                age: info.age,
                nose_wobble_speed: info.nose_wobble_speed,
                holding_item: info.is_holding_item,
            },
            AnimationType::Wolf => AnimCall::Wolf {
                gait: gait_of(*info),
                sitting: info.is_sitting,
                angry: info.is_angry,
                baby: info.is_baby,
                tail_angle: info.tail_angle,
                head_roll: info.head_roll,
                shake: info.shake,
            },
            AnimationType::Feline => AnimCall::Feline {
                gait: gait_of(*info),
                crouching: info.is_crouching,
                sprinting: info.is_sprinting,
                sitting: info.is_sitting,
                lie_down: info.lie_down,
                lie_down_tail: info.lie_down_tail,
                relax: info.relax,
                baby: info.is_baby,
            },
            AnimationType::Rabbit => AnimCall::Rabbit {
                head_x_rot: info.head_x_rot,
                local_head_y: info.local_head_y,
                hop_elapsed: info.hop_elapsed,
                baby: info.is_baby,
            },
            AnimationType::Equine => AnimCall::Equine {
                gait: gait_of(*info),
                age: info.age,
                kind: equine_of(*info),
                eat: info.eat,
                stand: info.stand,
                feeding: info.feeding,
                animate_tail: info.animate_tail,
            },
            AnimationType::Squid => AnimCall::Squid { tentacle_angle: info.tentacle_angle },
            AnimationType::Bat => AnimCall::Bat {
                local_head_y: info.local_head_y,
                elapsed: info.bat_elapsed,
                resting: info.bat_resting,
            },
            AnimationType::Fish => AnimCall::Fish {
                age: info.age,
                in_water: info.is_in_water,
                puffer: info.kind == EntityKind::Pufferfish,
            },
            AnimationType::Golem => AnimCall::Golem {
                gait: gait_of(*info),
                attack: info.golem_attack,
                flower: info.golem_flower,
            },
            AnimationType::Static => AnimCall::Still,
        },
{
    let gait = Gait {
        head_x_rot: info.head_x_rot,
        local_head_y: info.local_head_y,
        walk_pos: info.walk_pos,
        walk_speed: info.walk_speed,
    };
    match anim {
        AnimationType::Quadruped => AnimCall::Quadruped {
            gait,
            head_y_offset: info.head_y_offset,
            head_x_rot_override: info.head_x_rot_override,
        },
        AnimationType::Chicken => AnimCall::Chicken {
            gait,
            flap: info.flap,
            flap_speed: info.flap_speed,
        },
        AnimationType::Humanoid => AnimCall::Humanoid { gait, crouching: info.is_crouching },
        AnimationType::Enderman => AnimCall::Enderman {
            gait,
            age: info.age,
            creepy: info.is_creepy,
        },
        AnimationType::Zombie => AnimCall::Zombie {
            gait,
            aggressive: info.aggressive,
            age: info.age,
            attack_time: info.attack_time,
        },
        AnimationType::Skeleton => AnimCall::Skeleton {
            gait,
            aggressive: info.aggressive,
            age: info.age,
        },
        AnimationType::Spider => AnimCall::Spider { gait },
        AnimationType::Villager => AnimCall::Villager {
            gait,
            unhappy: info.is_unhappy,
            age: info.age,
        },
        AnimationType::Witch => AnimCall::Witch {
            gait,
            age: info.age,
            nose_wobble_speed: info.nose_wobble_speed,
            holding_item: info.is_holding_item,
        },
        AnimationType::Wolf => AnimCall::Wolf {
            gait,
            sitting: info.is_sitting,
            angry: info.is_angry,
            baby: info.is_baby,
            tail_angle: info.tail_angle,
            head_roll: info.head_roll,
            shake: info.shake,
        },
        AnimationType::Feline => AnimCall::Feline {
            gait,
            crouching: info.is_crouching,
            sprinting: info.is_sprinting,
            sitting: info.is_sitting,
            lie_down: info.lie_down,
            lie_down_tail: info.lie_down_tail,
            relax: info.relax,
            baby: info.is_baby,
        },
        AnimationType::Rabbit => AnimCall::Rabbit {
            head_x_rot: info.head_x_rot,
            local_head_y: info.local_head_y,
            hop_elapsed: info.hop_elapsed,
            baby: info.is_baby,
        },
        AnimationType::Equine => {
            let kind = if !info.is_baby {
                EquineKind::Adult
            } else if info.kind == EntityKind::Donkey || info.kind == EntityKind::Mule {
                EquineKind::BabyDonkey
            } else {
                EquineKind::BabyHorse
            };
            AnimCall::Equine {
                gait,
                age: info.age,
                kind,
                eat: info.eat,
                stand: info.stand,
                feeding: info.feeding,
                animate_tail: info.animate_tail,
            }
        },
        AnimationType::Squid => AnimCall::Squid { tentacle_angle: info.tentacle_angle },
        AnimationType::Bat => AnimCall::Bat {
            local_head_y: info.local_head_y,
            elapsed: info.bat_elapsed,
            resting: info.bat_resting,
        },
        AnimationType::Fish => AnimCall::Fish {
            age: info.age,
            in_water: info.is_in_water,
            puffer: info.kind == EntityKind::Pufferfish,
        },
        AnimationType::Golem => AnimCall::Golem {
            gait,
            attack: info.golem_attack,
            flower: info.golem_flower,
        },
        AnimationType::Static => AnimCall::Still,
    }
}

/// The channels of a colour are bytes that put together make it again, red highest.
pub proof fn law_channels_make_the_colour(hex: int)
    requires
        0 <= hex < 0x100_0000,
    ensures
        channels(hex).len() == 3,
        0 <= channels(hex)[0] < 256,
        0 <= channels(hex)[1] < 256,
        0 <= channels(hex)[2] < 256,
        channels(hex)[0] * 0x1_0000 + channels(hex)[1] * 0x100 + channels(hex)[2] == hex,
{
    assert(hex / 0x1_0000 == hex / 0x100 / 0x100);
}

/// A rainbow sheep fades evenly: after `t` of the 25 ticks of a fade it has that share
/// of the way from the colour the fade begins with to the one it ends with.
pub proof fn law_jeb_fade_is_even(entity_id: i32, step: u32, t: u32, c: int)
    requires
        step < 100_000_000,
        t < 25,
        0 <= c < 3,
        (step + entity_id) % 0x1_0000_0000 < 0xffff_ffff,
    ensures
        25 * jeb_channels(entity_id, (25 * step + t) as u32)[c] == jeb_channels(
            entity_id,
            (25 * step) as u32,
        )[c] * (25 - t) + jeb_channels(entity_id, (25 * (step + 1)) as u32)[c] * t,
{
    let now = (25 * step + t) as u32;
    let from = (25 * step) as u32;
    let to = (25 * (step + 1)) as u32;
    assert(now as int / 25 == step && now as int % 25 == t);
    assert(from as int / 25 == step && from as int % 25 == 0);
    assert(to as int / 25 == step + 1 && to as int % 25 == 0);
    let base = (step + entity_id) % 0x1_0000_0000;
    assert(jeb_base(entity_id, to) == base + 1);
    let a = channels(WOOL_COLORS[base % 16] as int)[c];
    let b = channels(WOOL_COLORS[(base + 1) % 16] as int)[c];
    assert(jeb_channels(entity_id, now)[c] == a * (25 - t) + b * t);
    assert(jeb_channels(entity_id, from)[c] == 25 * a) by {
        assert(a * 25 == 25 * a && channels(WOOL_COLORS[(base + 1) % 16] as int)[c] * 0 == 0);
    }
    assert(jeb_channels(entity_id, to)[c] == 25 * b) by {
        assert(b * 25 == 25 * b && channels(WOOL_COLORS[(base + 2) % 16] as int)[c] * 0 == 0);
    }
    assert(25 * (a * (25 - t) + b * t) == (25 * a) * (25 - t) + (25 * b) * t) by (nonlinear_arith);
}

/// A dying mob begins to tip over after its first tick and lies down twelve and a half
/// ticks later; until then the square of how far it has tipped grows evenly. Squids
/// never tip.
pub proof fn law_falls_take_their_time(death_time: int, kind: EntityKind)
    requires
        death_time >= 1_000_000,
    ensures
        kind == EntityKind::Squid || kind == EntityKind::GlowSquid ==> fall_squared(
            death_time,
            kind,
        ) == 0,
        kind != EntityKind::Squid && kind != EntityKind::GlowSquid ==> {
            &&& death_time == 1_000_000 ==> fall_squared(death_time, kind) == 0
            &&& death_time < 13_500_000 ==> fall_squared(death_time + 1, kind) - fall_squared(
                death_time,
                kind,
            ) == 8
            &&& death_time >= 13_500_000 ==> fall_squared(death_time, kind) == 100_000_000
        },
{
}

/// Most babies are half as wide and half as high as the adult; foals are seven tenths.
/// Only zombies, villagers, chickens, rabbits and squids have other proportions.
pub proof fn law_most_babies_are_half_grown(kind: EntityKind)
    ensures
        ({
            let adult = bounds_of(kind, false);
            let baby = bounds_of(kind, true);
            let foal = kind == EntityKind::Horse || kind == EntityKind::SkeletonHorse || kind
                == EntityKind::ZombieHorse;
            let own = kind == EntityKind::Zombie || kind == EntityKind::Husk || kind
                == EntityKind::Drowned || kind == EntityKind::ZombieVillager || kind
                == EntityKind::Villager || kind == EntityKind::Chicken || kind == EntityKind::Rabbit
                || kind == EntityKind::Squid || kind == EntityKind::GlowSquid;
            &&& foal ==> 10 * baby.0 == 7 * adult.0 && 10 * baby.1 == 7 * adult.1
            &&& !foal && !own ==> 2 * baby.0 == adult.0 && 2 * baby.1 == adult.1
        }),
{
}

/// Spiders and all fish but the pufferfish are wider than high. Pigs, slimes, squids,
/// pufferfish and what is not listed are as high as wide, and all others higher.
pub proof fn law_mobs_are_wide_or_high(kind: EntityKind)
    ensures
        ({
            let adult = bounds_of(kind, false);
            let wide = kind == EntityKind::Spider || kind == EntityKind::Cod || kind
                == EntityKind::Salmon || kind == EntityKind::TropicalFish;
            let even = kind == EntityKind::Pig || kind == EntityKind::Slime || kind
                == EntityKind::Squid || kind == EntityKind::GlowSquid || kind
                == EntityKind::Pufferfish || crate::mobs::mob_number(kind) < 0;
            &&& wide <==> adult.0 > adult.1
            &&& even <==> adult.0 == adult.1
        }),
{
}

/// An image of one colour has it at every pixel.
pub proof fn law_solid_images_have_one_colour(pixel: Seq<u8>, count: nat, p: int, channel: int)
    requires
        0 <= p < count,
        0 <= channel < 4,
    ensures
        solid(pixel, count).len() == 4 * count,
        solid(pixel, count)[4 * p + channel] == pixel[channel],
{
    assert((4 * p + channel) % 4 == channel);
}

/// An animation reads the head and the walk cycle of its own entity.
pub proof fn law_gaits_are_those_of_the_entity(info: AnimInputs)
    ensures
        gait_of(info).head_x_rot == info.head_x_rot,
        gait_of(info).local_head_y == info.local_head_y,
        gait_of(info).walk_pos == info.walk_pos,
        gait_of(info).walk_speed == info.walk_speed,
        equine_of(info) == EquineKind::Adult <==> !info.is_baby,
        equine_of(info) == EquineKind::BabyDonkey <==> info.is_baby && (info.kind
            == EntityKind::Donkey || info.kind == EntityKind::Mule),
{
}

/// Wool colours repeat every sixteen dyes; a collar of no dye there is is white.
pub proof fn law_dyes_are_sixteen(color: int)
    requires
        0 <= color,
    ensures
        wool_of(color + 16) == wool_of(color),
        color < 16 ==> wool_of(color) == WOOL_COLORS[color] && collar_of(color)
            == DYE_COLORS[color],
        color >= 16 ==> collar_of(color) == 0xF9FFFE,
{
}

/// Only what crawls turns on its back when it dies; all others fall on their side.
pub proof fn law_crawlers_turn_over(kind: EntityKind)
    ensures
        flip_of(kind) == 180 <==> kind == EntityKind::Spider || kind == EntityKind::CaveSpider
            || kind == EntityKind::Endermite || kind == EntityKind::Silverfish,
        flip_of(kind) == 180 || flip_of(kind) == 90,
{
}

/// A mob in the table has the hitbox its row gives it at either age; any other is a block
/// a side, and half a block as a baby.
pub proof fn law_hitboxes_are_those_of_the_table(kind: EntityKind, i: int)
    requires
        0 <= i < 35,
    ensures
        bounds_of(ENTITY_BOUNDS[i].0, false) == (ENTITY_BOUNDS[i].1, ENTITY_BOUNDS[i].2),
        bounds_of(ENTITY_BOUNDS[i].0, true) == (ENTITY_BOUNDS[i].3, ENTITY_BOUNDS[i].4),
        (forall|j: int| 0 <= j < 35 ==> (#[trigger] ENTITY_BOUNDS[j]).0 != kind) ==> bounds_of(
            kind,
            false,
        ) == (100_000_000u32, 100_000_000u32) && bounds_of(kind, true) == (
            50_000_000u32,
            50_000_000u32,
        ),
{
    lemma_bounds_order(i);
    let n = crate::mobs::mob_number(kind);
    crate::mobs::lemma_number_range(kind);
    if n >= 0 {
        lemma_bounds_order(n);
        crate::mobs::lemma_number_names_kind(kind, ENTITY_BOUNDS[n].0);
    }
}

/// A baby is drawn with its own variants where there are any and with those of an adult
/// where there are none; an adult never with a baby's. What is worn over it is always of
/// its own age.
pub proof fn law_ages_have_their_own_variants(entry: MobEntry)
    ensures
        entry.base_pool(false) == entry.adult@,
        entry.baby matches Some(pool) ==> entry.base_pool(true) == pool@,
        entry.baby is None ==> entry.base_pool(true) == entry.adult@,
        entry.overlay_pools(false) == entry.adult_overlays@,
        entry.overlay_pools(true) == entry.baby_overlays@,
{
}

/// A variant that a pool lacks is shown as its last one.
pub proof fn law_variants_stay_in_their_pool(index: int, len: int)
    requires
        0 <= index,
        0 < len,
    ensures
        0 <= pooled(index, len) < len,
        index < len ==> pooled(index, len) == index,
        index >= len ==> pooled(index, len) == len - 1,
{
}

} // verus!
