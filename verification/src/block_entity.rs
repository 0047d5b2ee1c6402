//! Chests, shulker boxes, statues and signs.
use vstd::prelude::*;
use vstd::string::*;

use crate::gpu::PoolPlan;
use crate::text::join;
use crate::text::name_index;
use crate::text::same_text;
use crate::text::strip_prefix_or_all;
use crate::text::strip_suffix;

verus! {

pub const MAX_SIGN_VERTICES: usize = 65536;

#[derive(Clone, Copy, Debug, PartialEq, Eq, Structural)]
pub enum BlockEntityKind {
    Chest,
    TrappedChest,
    EnderChest,
    ShulkerBox,
    CopperGolemStatue,
    Sign,
    Other,
}

/// The dye colours in ordinal order.
pub const DYE_COLOR_NAMES: [&'static str; 16] = [
    "white",
    "orange",
    "magenta",
    "light_blue",
    "yellow",
    "lime",
    "pink",
    "gray",
    "light_gray",
    "cyan",
    "purple",
    "blue",
    "brown",
    "green",
    "red",
    "black",
];

/// Sign wood order of the variant mapping.
pub const SIGN_WOOD_NAMES: [&'static str; 12] = [
    "oak",
    "spruce",
    "birch",
    "jungle",
    "acacia",
    "dark_oak",
    "mangrove",
    "cherry",
    "pale_oak",
    "bamboo",
    "crimson",
    "warped",
];

/// Which half of a double chest a `type` property names: 0 for a single chest.
pub open spec fn chest_type_index(ty: Option<Seq<char>>) -> int {
    if ty == Some("left"@) {
        1
    } else if ty == Some("right"@) {
        2
    } else {
        0
    }
}

/// The copper weathering stage of a block name, 0 for every other material.
pub open spec fn chest_material_index(name: Seq<char>) -> int {
    let bare = crate::text::trim_prefix(name, "waxed_"@);
    if bare == "copper_chest"@ {
        1
    } else if bare == "exposed_copper_chest"@ {
        2
    } else if bare == "weathered_copper_chest"@ {
        3
    } else if bare == "oxidized_copper_chest"@ {
        4
    } else {
        0
    }
}

/// The wood a sign's block name begins with.
pub open spec fn sign_wood(name: Seq<char>) -> Option<Seq<char>> {
    match crate::text::without_suffix(name, "_wall_sign"@) {
        Some(wood) => Some(wood),
        None => crate::text::without_suffix(name, "_sign"@),
    }
}

/// The texture variant of a block.
pub open spec fn variant_of(kind: BlockEntityKind, name: Seq<char>, ty: Option<Seq<char>>) -> int {
    match kind {
        BlockEntityKind::Chest | BlockEntityKind::TrappedChest => chest_material_index(name) * 3
            + chest_type_index(ty),
        BlockEntityKind::ShulkerBox => match crate::text::without_suffix(name, "_shulker_box"@) {
            Some(dye) => match crate::text::position(DYE_COLOR_NAMES@, dye) {
                Some(i) => i as int,
                None => 16,
            },
            None => 16,
        },
        BlockEntityKind::Sign => match sign_wood(name) {
            Some(wood) => match crate::text::position(SIGN_WOOD_NAMES@, wood) {
                Some(i) => i as int,
                None => 0,
            },
            None => 0,
        },
        _ => 0,
    }
}

/// The texture variant of a block; `chest_type` is its `type` property.
pub fn variant_for_block(kind: BlockEntityKind, name: &str, chest_type: Option<&str>) -> (variant:
    u32)
    ensures
        variant == variant_of(kind, name@, crate::text::opt_str(chest_type)),
        variant <= 16,
        kind == BlockEntityKind::Chest || kind == BlockEntityKind::TrappedChest ==> variant < 15,
        kind == BlockEntityKind::Sign ==> variant < 12,
{
    match kind {
        BlockEntityKind::Chest | BlockEntityKind::TrappedChest => {
            let ty: u32 = match chest_type {
                Some(t) => if same_text(t, "left") {
                    1
                } else if same_text(t, "right") {
                    2
                } else {
                    0
                },
                None => 0,
            };
            let bare = strip_prefix_or_all(name, "waxed_");
            let bare = bare.as_str();
            let material: u32 = if same_text(bare, "copper_chest") {
                1
            } else if same_text(bare, "exposed_copper_chest") {
                2
            } else if same_text(bare, "weathered_copper_chest") {
                3
            } else if same_text(bare, "oxidized_copper_chest") {
                4
            } else {
                0
            };
            proof {
                reveal_strlit("left");
                reveal_strlit("right");
                assert("left"@.len() != "right"@.len());
            }
            material * 3 + ty
        },
        BlockEntityKind::ShulkerBox => {
            let colours = DYE_COLOR_NAMES;
            match strip_suffix(name, "_shulker_box") {
                Some(dye) => match name_index(colours.as_slice(), dye.as_str()) {
                    Some(i) => i,
                    None => 16,
                },
                None => 16,
            }
        },
        BlockEntityKind::Sign => {
            let woods = SIGN_WOOD_NAMES;
            let wood = match strip_suffix(name, "_wall_sign") {
                Some(wood) => Some(wood),
                None => strip_suffix(name, "_sign"),
            };
            match wood {
                Some(wood) => match name_index(woods.as_slice(), wood.as_str()) {
                    Some(i) => i,
                    None => 0,
                },
                None => 0,
            }
        },
        _ => 0,
    }
}

/// The horizontal step clockwise of a facing.
pub open spec fn clockwise_of(facing: Seq<char>) -> Option<(int, int)> {
    if facing == "north"@ {
        Some((1, 0))
    } else if facing == "east"@ {
        Some((0, 1))
    } else if facing == "south"@ {
        Some((-1, 0))
    } else if facing == "west"@ {
        Some((0, -1))
    } else {
        None
    }
}

/// XZ offset from a double-chest half to its partner.
pub open spec fn partner_of(facing: Seq<char>, chest_type: Seq<char>) -> Option<(int, int)> {
    match clockwise_of(facing) {
        Some(step) => if chest_type == "left"@ {
            Some(step)
        } else if chest_type == "right"@ {
            Some((-step.0, -step.1))
        } else {
            None
        },
        None => None,
    }
}

/// The left half connects clockwise of the facing, the right half
/// counter-clockwise.
pub fn chest_partner_offset(facing: &str, chest_type: &str) -> (offset: Option<(i32, i32)>)
    ensures
        match offset {
            Some(o) => partner_of(facing@, chest_type@) == Some((o.0 as int, o.1 as int)),
            None => partner_of(facing@, chest_type@) is None,
        },
{
    let clockwise: (i32, i32) = if same_text(facing, "north") {
        (1, 0)
    } else if same_text(facing, "east") {
        (0, 1)
    } else if same_text(facing, "south") {
        (-1, 0)
    } else if same_text(facing, "west") {
        (0, -1)
    } else {
        return None;
    };
    if same_text(chest_type, "left") {
        Some(clockwise)
    } else if same_text(chest_type, "right") {
        Some((-clockwise.0, -clockwise.1))
    } else {
        None
    }
}

/// The two halves of a double chest point at each other.
pub proof fn law_chest_halves_point_at_each_other(facing: Seq<char>)
    ensures
        match (partner_of(facing, "left"@), partner_of(facing, "right"@)) {
            (Some(l), Some(r)) => l.0 + r.0 == 0 && l.1 + r.1 == 0 && (l.0 != 0 || l.1 != 0),
            (None, None) => clockwise_of(facing) is None,
            _ => false,
        },
{
    reveal_strlit("left");
    reveal_strlit("right");
    assert("left"@.len() != "right"@.len());
}

/// Quarter turns of a facing, from south.
pub open spec fn quarter_turns(facing: Option<Seq<char>>) -> int {
    if facing == Some("west"@) {
        1
    } else if facing == Some("north"@) {
        2
    } else if facing == Some("east"@) {
        3
    } else {
        0
    }
}

fn facing_turns(facing: Option<&str>) -> (turns: i64)
    ensures
        turns == quarter_turns(crate::text::opt_str(facing)),
        0 <= turns <= 3,
{
    match facing {
        Some(f) => if same_text(f, "west") {
            1
        } else if same_text(f, "north") {
            2
        } else if same_text(f, "east") {
            3
        } else {
            0
        },
        None => 0,
    }
}

/// What turns a block.
#[derive(Clone, Copy, Debug, PartialEq, Eq, Structural)]
pub enum BlockYaw {
    /// Quarter turns from south.
    Quarters(i64),
    /// A number of sixteenths of a turn, as the bits of a single-precision number.
    Sixteenths(u32),
}

/// A sixteenth of a turn, in tenths of a degree.
pub const SIXTEENTH: i64 = 225;

/// A quarter turn, in tenths of a degree.
pub const QUARTER: i64 = 900;

/// What turns a block.
pub open spec fn yaw_of(
    kind: BlockEntityKind,
    rotation: Option<u32>,
    facing: Option<Seq<char>>,
) -> BlockYaw {
    match kind {
        BlockEntityKind::Other => BlockYaw::Quarters(0),
        BlockEntityKind::Sign => match rotation {
            Some(bits) => BlockYaw::Sixteenths(bits),
            None => BlockYaw::Quarters(quarter_turns(facing) as i64),
        },
        _ => BlockYaw::Quarters(quarter_turns(facing) as i64),
    }
}

/// What turns a block. A sign's `rotation` property, if it is a number, goes before its
/// facing.
pub fn yaw_for_block(kind: BlockEntityKind, rotation: Option<u32>, facing: Option<&str>) -> (yaw:
    BlockYaw)
    ensures
        yaw == yaw_of(kind, rotation, crate::text::opt_str(facing)),
        yaw == match kind {
            BlockEntityKind::Other => BlockYaw::Quarters(0),
            BlockEntityKind::Sign => match rotation {
                Some(bits) => BlockYaw::Sixteenths(bits),
                None => BlockYaw::Quarters(
                    quarter_turns(crate::text::opt_str(facing)) as i64,
                ),
            },
            _ => BlockYaw::Quarters(quarter_turns(crate::text::opt_str(facing)) as i64),
        },
{
    match kind {
        BlockEntityKind::Other => BlockYaw::Quarters(0),
        BlockEntityKind::Sign => match rotation {
            Some(bits) => BlockYaw::Sixteenths(bits),
            None => BlockYaw::Quarters(facing_turns(facing)),
        },
        _ => BlockYaw::Quarters(facing_turns(facing)),
    }
}

/// The horizontal direction `(x, z)` a quarter turn clockwise of another, seen from above.
pub open spec fn turned(direction: (int, int)) -> (int, int) {
    (-direction.1, direction.0)
}

/// A direction after a number of quarter turns clockwise.
pub open spec fn turned_by(direction: (int, int), quarters: int) -> (int, int)
    decreases quarters,
{
    if quarters <= 0 {
        direction
    } else {
        turned(turned_by(direction, quarters - 1))
    }
}

/// A block looks where its facing points: turned from south, which is `z` growing, by as
/// many quarters clockwise, its front points east, west, south or north, towards growing
/// or falling `x` or `z`. So it is for every kind that is turned, and for a sign without a
/// rotation of its own. The left half of a double chest has its partner a quarter turn
/// clockwise of that direction, and the right half on the other side.
pub proof fn law_blocks_face_their_way(
    kind: BlockEntityKind,
    rotation: Option<u32>,
    facing: Seq<char>,
    direction: (int, int),
)
    requires
        kind != BlockEntityKind::Other,
        kind == BlockEntityKind::Sign ==> rotation is None,
        facing == "east"@ && direction == (1int, 0int) || facing == "west"@ && direction == (
            -1int,
            0int,
        ) || facing == "south"@ && direction == (0int, 1int) || facing == "north"@ && direction == (
            0int,
            -1int,
        ),
    ensures
        yaw_of(kind, rotation, Some(facing)) matches BlockYaw::Quarters(n) && 0 <= n < 4
            && turned_by((0, 1), n as int) == direction,
        partner_of(facing, "left"@) == Some((-direction.1, direction.0)),
        partner_of(facing, "right"@) == Some((direction.1, -direction.0)),
{
    reveal_with_fuel(turned_by, 4);
    reveal_strlit("east");
    reveal_strlit("west");
    reveal_strlit("south");
    reveal_strlit("north");
    reveal_strlit("left");
    reveal_strlit("right");
    assert("east"@[0] == 'e' && "west"@[0] == 'w' && "south"@[0] == 's' && "north"@[0] == 'n');
    assert("left"@.len() != "right"@.len());
}

/// Turning the facing clockwise turns the block by one quarter more, and all the way round
/// it is back.
pub proof fn law_turning_the_facing_turns_the_block(
    kind: BlockEntityKind,
    rotation: Option<u32>,
    from: Seq<char>,
    to: Seq<char>,
)
    requires
        kind != BlockEntityKind::Other,
        kind == BlockEntityKind::Sign ==> rotation is None,
        from == "south"@ && to == "west"@ || from == "west"@ && to == "north"@ || from == "north"@
            && to == "east"@ || from == "east"@ && to == "south"@,
    ensures
        match (yaw_of(kind, rotation, Some(from)), yaw_of(kind, rotation, Some(to))) {
            (BlockYaw::Quarters(a), BlockYaw::Quarters(b)) => b as int == (a + 1) % 4,
            _ => false,
        },
{
    reveal_strlit("east");
    reveal_strlit("west");
    reveal_strlit("south");
    reveal_strlit("north");
    assert("east"@[0] == 'e' && "west"@[0] == 'w' && "south"@[0] == 's' && "north"@[0] == 'n');
}

/// What is not turned: a block of no kind, and one whose facing is missing or is none of
/// the four. A sign's own rotation is taken over as it is, whatever it faces, and no
/// other block's.
pub proof fn law_what_does_not_face_stays_south(
    kind: BlockEntityKind,
    rotation: Option<u32>,
    facing: Option<Seq<char>>,
)
    ensures
        kind == BlockEntityKind::Sign && rotation is Some ==> yaw_of(kind, rotation, facing)
            == BlockYaw::Sixteenths(rotation->0),
        kind != BlockEntityKind::Sign ==> yaw_of(kind, rotation, facing) == yaw_of(
            kind,
            None,
            facing,
        ) && yaw_of(kind, rotation, facing) is Quarters,
        kind == BlockEntityKind::Other || (rotation is None && facing != Some("east"@) && facing
            != Some("west"@) && facing != Some("north"@)) ==> yaw_of(kind, rotation, facing)
            == BlockYaw::Quarters(0),
{
}

/// How a part of a model moves as its lid opens: the turn about either axis in
/// degrees, and the way up in model units, all for a lid that is fully open.
#[derive(Clone, Copy, Debug, PartialEq, Eq, Structural)]
pub struct LidPart {
    pub part: usize,
    pub x_degrees: i32,
    pub y_degrees: i32,
    pub lift: i32,
}

/// The moving parts: lid and lock of a chest swing together, a shulker's lid turns as
/// it rises.
pub open spec fn moving_parts(kind: BlockEntityKind) -> Seq<LidPart> {
    match kind {
        BlockEntityKind::Chest | BlockEntityKind::TrappedChest | BlockEntityKind::EnderChest => seq![
            LidPart { part: 1, x_degrees: -90i32, y_degrees: 0, lift: 0 },
            LidPart { part: 2, x_degrees: -90i32, y_degrees: 0, lift: 0 },
        ],
        BlockEntityKind::ShulkerBox => seq![
            LidPart { part: 0, x_degrees: 0, y_degrees: 270, lift: -8i32 },
        ],
        _ => Seq::empty(),
    }
}

/// The parts that move, if the lid is open at all.
pub fn lid_anim(kind: BlockEntityKind, open: bool) -> (parts: Vec<LidPart>)
    ensures
        parts@ == (if open {
            moving_parts(kind)
        } else {
            Seq::empty()
        }),
{
    let mut parts: Vec<LidPart> = Vec::new();
    if !open {
        return parts;
    }
    match kind {
        BlockEntityKind::Chest | BlockEntityKind::TrappedChest | BlockEntityKind::EnderChest => {
            parts.push(LidPart { part: 1, x_degrees: -90, y_degrees: 0, lift: 0 });
            parts.push(LidPart { part: 2, x_degrees: -90, y_degrees: 0, lift: 0 });
        },
        BlockEntityKind::ShulkerBox => {
            parts.push(LidPart { part: 0, x_degrees: 0, y_degrees: 270, lift: -8 });
        },
        _ => {},
    }
    parts
}

/// Chests wear the Christmas texture on December 24 to 26.
pub fn is_christmas(month: u8, day: u8) -> (christmas: bool)
    ensures
        christmas == (month == 12 && 24 <= day <= 26),
{
    month == 12 && 24 <= day && day <= 26
}

/// The texture of a chest material; `side` 1 and 2 are the double-chest halves.
pub open spec fn chest_texture(material: Seq<char>, side: int) -> Seq<char> {
    "minecraft/textures/entity/chest/"@ + material + (if side == 0 {
        ".png"@
    } else if side == 1 {
        "_left.png"@
    } else {
        "_right.png"@
    })
}

/// The material of a chest texture row: the base one, then the copper stages.
pub open spec fn chest_material(base: Seq<char>, row: int) -> Seq<char> {
    if row == 0 {
        base
    } else if row == 1 {
        "copper"@
    } else if row == 2 {
        "copper_exposed"@
    } else if row == 3 {
        "copper_weathered"@
    } else {
        "copper_oxidized"@
    }
}

/// Three textures per material: single, left, right.
pub open spec fn chest_textures(base: Seq<char>, rows: nat) -> Seq<Seq<char>> {
    Seq::new(rows * 3, |i: int| chest_texture(chest_material(base, i / 3), i % 3))
}

/// One texture per dye, then the undyed one.
pub open spec fn shulker_textures() -> Seq<Seq<char>> {
    Seq::new(
        17,
        |i: int|
            if i < 16 {
                "minecraft/textures/entity/shulker/shulker_"@ + DYE_COLOR_NAMES[i]@ + ".png"@
            } else {
                "minecraft/textures/entity/shulker/shulker.png"@
            },
    )
}

/// Textures of the copper golem statue's weathering stages.
pub const COPPER_GOLEM_STATUE_TEXTURES: [&'static str; 4] = [
    "minecraft/textures/entity/copper_golem/copper_golem.png",
    "minecraft/textures/entity/copper_golem/copper_golem_exposed.png",
    "minecraft/textures/entity/copper_golem/copper_golem_weathered.png",
    "minecraft/textures/entity/copper_golem/copper_golem_oxidized.png",
];

/// The textures of a kind, in variant order.
pub open spec fn kind_textures(kind: BlockEntityKind, christmas: bool) -> Seq<Seq<char>> {
    match kind {
        BlockEntityKind::Chest => chest_textures(
            if christmas {
                "christmas"@
            } else {
                "normal"@
            },
            5,
        ),
        BlockEntityKind::TrappedChest => if christmas {
            chest_textures("christmas"@, 5)
        } else {
            chest_textures("trapped"@, 1)
        },
        BlockEntityKind::EnderChest => seq!["minecraft/textures/entity/chest/ender.png"@],
        BlockEntityKind::ShulkerBox => shulker_textures(),
        _ => Seq::empty(),
    }
}

fn build_chest_textures(base: &str, rows: usize) -> (list: Vec<String>)
    requires
        rows <= 5,
    ensures
        crate::text::texts(list@) == chest_textures(base@, rows as nat),
{
    let mut list: Vec<String> = Vec::new();
    let mut row: usize = 0;
    while row < rows
        invariant
            row <= rows <= 5,
            list@.len() == 3 * row,
            forall|i: int|
                0 <= i < 3 * row ==> #[trigger] list@[i]@ == chest_texture(
                    chest_material(base@, i / 3),
                    i % 3,
                ),
        decreases rows - row,
    {
        let material: &str = if row == 0 {
            base
        } else if row == 1 {
            "copper"
        } else if row == 2 {
            "copper_exposed"
        } else if row == 3 {
            "copper_weathered"
        } else {
            "copper_oxidized"
        };
        let stem = join("minecraft/textures/entity/chest/", material);
        list.push(join(stem.as_str(), ".png"));
        list.push(join(stem.as_str(), "_left.png"));
        list.push(join(stem.as_str(), "_right.png"));
        assert forall|i: int| 3 * row <= i < 3 * (row + 1) implies #[trigger] list@[i]@
            == chest_texture(chest_material(base@, i / 3), i % 3) by {
            assert(i / 3 == row && i % 3 == i - 3 * row);
        }
        row = row + 1;
    }
    assert(crate::text::texts(list@) =~= chest_textures(base@, rows as nat));
    list
}

fn build_shulker_textures() -> (list: Vec<String>)
    ensures
        crate::text::texts(list@) == shulker_textures(),
{
    let colours = DYE_COLOR_NAMES;
    let mut list: Vec<String> = Vec::new();
    let mut i: usize = 0;
    while i < 16
        invariant
            i <= 16,
            colours == DYE_COLOR_NAMES,
            list@.len() == i,
            forall|j: int| 0 <= j < i ==> #[trigger] list@[j]@ == shulker_textures()[j],
        decreases 16 - i,
    {
        let stem = join("minecraft/textures/entity/shulker/shulker_", colours[i]);
        list.push(join(stem.as_str(), ".png"));
        i = i + 1;
    }
    list.push("minecraft/textures/entity/shulker/shulker.png".to_owned());
    assert(crate::text::texts(list@) =~= shulker_textures());
    list
}

/// Which baked models a kind draws with.
#[derive(Clone, Copy, Debug, PartialEq, Eq, Structural)]
pub enum ModelSet {
    /// Single, left and right chest.
    ChestHalves,
    /// The single chest alone.
    SingleChest,
    ShulkerBox,
}

/// One kind's models and textures.
pub struct KindDef {
    pub kind: BlockEntityKind,
    pub models: ModelSet,
    pub tex_variants: Vec<String>,
    pub tex_size: u32,
}

/// The kinds with geometry of their own, in definition order. Sign boards are
/// block models: only their text is drawn here.
pub open spec fn defined_kinds() -> Seq<BlockEntityKind> {
    seq![
        BlockEntityKind::Chest,
        BlockEntityKind::TrappedChest,
        BlockEntityKind::EnderChest,
        BlockEntityKind::ShulkerBox,
    ]
}

/// The models of a kind.
pub open spec fn model_set(kind: BlockEntityKind) -> ModelSet {
    match kind {
        BlockEntityKind::EnderChest => ModelSet::SingleChest,
        BlockEntityKind::ShulkerBox => ModelSet::ShulkerBox,
        _ => ModelSet::ChestHalves,
    }
}

pub fn kind_definitions(christmas: bool) -> (defs: Vec<KindDef>)
    ensures
        defs@.len() == defined_kinds().len(),
        forall|i: int|
            0 <= i < defs@.len() ==> {
                &&& (#[trigger] defs@[i]).kind == defined_kinds()[i]
                &&& defs@[i].models == model_set(defined_kinds()[i])
                &&& crate::text::texts(defs@[i].tex_variants@) == kind_textures(
                    defined_kinds()[i],
                    christmas,
                )
                &&& defs@[i].tex_size == 64
            },
{
    let base: &str = if christmas {
        "christmas"
    } else {
        "normal"
    };
    let chest = build_chest_textures(base, 5);
    let trapped = if christmas {
        build_chest_textures("christmas", 5)
    } else {
        build_chest_textures("trapped", 1)
    };
    let mut ender: Vec<String> = Vec::new();
    ender.push("minecraft/textures/entity/chest/ender.png".to_owned());
    assert(crate::text::texts(ender@) =~= seq!["minecraft/textures/entity/chest/ender.png"@]);
    let shulker = build_shulker_textures();
    let mut defs: Vec<KindDef> = Vec::new();
    defs.push(
        KindDef {
            kind: BlockEntityKind::Chest,
            models: ModelSet::ChestHalves,
            tex_variants: chest,
            tex_size: 64,
        },
    );
    defs.push(
        KindDef {
            kind: BlockEntityKind::TrappedChest,
            models: ModelSet::ChestHalves,
            tex_variants: trapped,
            tex_size: 64,
        },
    );
    defs.push(
        KindDef {
            kind: BlockEntityKind::EnderChest,
            models: ModelSet::SingleChest,
            tex_variants: ender,
            tex_size: 64,
        },
    );
    defs.push(
        KindDef {
            kind: BlockEntityKind::ShulkerBox,
            models: ModelSet::ShulkerBox,
            tex_variants: shulker,
            tex_size: 64,
        },
    );
    defs
}

/// Every chest and shulker variant has a texture of its own; so has a trapped chest's,
/// which is never of copper.
pub proof fn law_variants_have_textures(
    kind: BlockEntityKind,
    name: Seq<char>,
    ty: Option<Seq<char>>,
    christmas: bool,
)
    requires
        kind == BlockEntityKind::Chest || kind == BlockEntityKind::ShulkerBox || kind
            == BlockEntityKind::TrappedChest && chest_material_index(name) == 0,
    ensures
        0 <= variant_of(kind, name, ty) < kind_textures(kind, christmas).len(),
{
    match crate::text::without_suffix(name, "_shulker_box"@) {
        Some(dye) => {
            crate::text::lemma_position_in_range(DYE_COLOR_NAMES@, dye);
        },
        None => {},
    }
}

/// A chest variant folds to the model of its half.
pub proof fn law_chest_variant_names_its_half(
    kind: BlockEntityKind,
    name: Seq<char>,
    ty: Option<Seq<char>>,
)
    requires
        kind == BlockEntityKind::Chest || kind == BlockEntityKind::TrappedChest,
    ensures
        variant_of(kind, name, ty) % 3 == chest_type_index(ty),
        variant_of(kind, name, ty) / 3 == chest_material_index(name),
{
}

/// The texture a block is drawn with.
pub open spec fn texture_of(
    kind: BlockEntityKind,
    christmas: bool,
    name: Seq<char>,
    ty: Option<Seq<char>>,
) -> Seq<char> {
    kind_textures(kind, christmas)[variant_of(kind, name, ty)]
}

/// A chest shows the texture of its material and half: waxed copper that of the same
/// stage, another chest its own wood, which is wrapped at Christmas. `bare` is the block's
/// name without the wax.
pub proof fn law_chests_show_their_material(
    bare: Seq<char>,
    waxed: bool,
    ty: Option<Seq<char>>,
    christmas: bool,
)
    requires
        bare == "copper_chest"@ || bare == "exposed_copper_chest"@ || bare
            == "weathered_copper_chest"@ || bare == "oxidized_copper_chest"@ || bare == "chest"@,
    ensures
        ({
            let name = if waxed {
                "waxed_"@ + bare
            } else {
                bare
            };
            let stem = "minecraft/textures/entity/chest/"@ + (if bare == "copper_chest"@ {
                "copper"@
            } else if bare == "exposed_copper_chest"@ {
                "copper_exposed"@
            } else if bare == "weathered_copper_chest"@ {
                "copper_weathered"@
            } else if bare == "oxidized_copper_chest"@ {
                "copper_oxidized"@
            } else if christmas {
                "christmas"@
            } else {
                "normal"@
            });
            let shown = texture_of(BlockEntityKind::Chest, christmas, name, ty);
            &&& ty == Some("left"@) ==> shown == stem + "_left.png"@
            &&& ty == Some("right"@) ==> shown == stem + "_right.png"@
            &&& ty != Some("left"@) && ty != Some("right"@) ==> shown == stem + ".png"@
        }),
{
    reveal_strlit("left");
    reveal_strlit("right");
    assert("left"@.len() != "right"@.len());
    lemma_bare_names();
    let name = if waxed {
        "waxed_"@ + bare
    } else {
        bare
    };
    assert(crate::text::trim_prefix(name, "waxed_"@) =~= bare) by {
        if waxed {
            assert(name.subrange(0, "waxed_"@.len() as int) =~= "waxed_"@);
        } else if crate::text::has_prefix(name, "waxed_"@) {
            assert(name.subrange(0, "waxed_"@.len() as int)[1] == name[1]);
        }
    }
    let v = variant_of(BlockEntityKind::Chest, name, ty);
    assert(v / 3 == chest_material_index(name) && v % 3 == chest_type_index(ty));
}

proof fn lemma_bare_names()
    ensures
        "waxed_"@.len() == 6,
        "waxed_"@[1] == 'a',
        "copper_chest"@.len() == 12,
        "copper_chest"@[1] == 'o',
        "exposed_copper_chest"@.len() == 20,
        "exposed_copper_chest"@[1] == 'x',
        "weathered_copper_chest"@.len() == 22,
        "weathered_copper_chest"@[1] == 'e',
        "oxidized_copper_chest"@.len() == 21,
        "oxidized_copper_chest"@[1] == 'x',
        "chest"@.len() == 5,
        "trapped_chest"@.len() == 13,
        "trapped_chest"@[1] == 'r',
{
    reveal_strlit("waxed_");
    reveal_strlit("copper_chest");
    reveal_strlit("exposed_copper_chest");
    reveal_strlit("weathered_copper_chest");
    reveal_strlit("oxidized_copper_chest");
    reveal_strlit("chest");
    reveal_strlit("trapped_chest");
}

/// A trapped chest shows its own texture, wrapped at Christmas, for its half; an ender
/// chest has one texture whatever it is.
pub proof fn law_trapped_and_ender_chests_show_their_own(
    ty: Option<Seq<char>>,
    christmas: bool,
    ender: Seq<char>,
)
    ensures
        ({
            let stem = "minecraft/textures/entity/chest/"@ + (if christmas {
                "christmas"@
            } else {
                "trapped"@
            });
            let shown = texture_of(BlockEntityKind::TrappedChest, christmas, "trapped_chest"@, ty);
            &&& ty == Some("left"@) ==> shown == stem + "_left.png"@
            &&& ty == Some("right"@) ==> shown == stem + "_right.png"@
            &&& ty != Some("left"@) && ty != Some("right"@) ==> shown == stem + ".png"@
        }),
        texture_of(BlockEntityKind::EnderChest, christmas, ender, ty)
            == "minecraft/textures/entity/chest/ender.png"@,
{
    reveal_strlit("left");
    reveal_strlit("right");
    assert("left"@.len() != "right"@.len());
    lemma_bare_names();
    let name = "trapped_chest"@;
    assert(crate::text::trim_prefix(name, "waxed_"@) =~= name) by {
        if crate::text::has_prefix(name, "waxed_"@) {
            assert(name.subrange(0, "waxed_"@.len() as int)[1] == name[1]);
        }
    }
    let v = variant_of(BlockEntityKind::TrappedChest, name, ty);
    assert(v / 3 == 0 && v % 3 == chest_type_index(ty));
}

/// A shulker box shows the texture of the dye its name begins with, and the undyed one if
/// it begins with none. `dye` is one of the sixteen.
pub proof fn law_shulker_boxes_show_their_dye(
    dye: int,
    plain: Seq<char>,
    ty: Option<Seq<char>>,
    christmas: bool,
)
    requires
        0 <= dye < 16,
        forall|i: int|
            0 <= i < 16 ==> plain != (#[trigger] DYE_COLOR_NAMES[i])@ + "_shulker_box"@,
    ensures
        texture_of(
            BlockEntityKind::ShulkerBox,
            christmas,
            DYE_COLOR_NAMES[dye]@ + "_shulker_box"@,
            ty,
        ) == "minecraft/textures/entity/shulker/shulker_"@ + DYE_COLOR_NAMES[dye]@ + ".png"@,
        texture_of(BlockEntityKind::ShulkerBox, christmas, plain, ty)
            == "minecraft/textures/entity/shulker/shulker.png"@,
{
    let suffix = "_shulker_box"@;
    let word = DYE_COLOR_NAMES[dye]@;
    let name = word + suffix;
    assert(name.subrange(name.len() - suffix.len(), name.len() as int) =~= suffix);
    assert(name.subrange(0, name.len() - suffix.len()) =~= word);
    assert(DYE_COLOR_NAMES@[dye]@ == word);
    crate::text::lemma_position_found(DYE_COLOR_NAMES@, word, dye);
    crate::text::lemma_position_names(DYE_COLOR_NAMES@, word);
    let i = crate::text::position(DYE_COLOR_NAMES@, word)->0 as int;
    assert(DYE_COLOR_NAMES[i]@ == word);
    if let Some(rest) = crate::text::without_suffix(plain, suffix) {
        assert(plain =~= rest + suffix);
        if let Some(i) = crate::text::position(DYE_COLOR_NAMES@, rest) {
            crate::text::lemma_position_names(DYE_COLOR_NAMES@, rest);
            assert(DYE_COLOR_NAMES[i as int]@ == rest);
        }
    }
}

/// A sign, on a wall or not, is of the wood its name begins with. `wood` is one of the
/// twelve.
pub proof fn law_signs_are_of_their_wood(wood: int, wall: bool, ty: Option<Seq<char>>)
    requires
        0 <= wood < 12,
    ensures
        ({
            let name = SIGN_WOOD_NAMES[wood]@ + (if wall {
                "_wall_sign"@
            } else {
                "_sign"@
            });
            let v = variant_of(BlockEntityKind::Sign, name, ty);
            0 <= v < 12 && SIGN_WOOD_NAMES[v]@ == SIGN_WOOD_NAMES[wood]@
        }),
{
    let word = SIGN_WOOD_NAMES[wood]@;
    let wall_end = "_wall_sign"@;
    let end = "_sign"@;
    reveal_strlit("_wall_sign");
    reveal_strlit("_sign");
    crate::text::lemma_position_found(SIGN_WOOD_NAMES@, word, wood);
    crate::text::lemma_position_names(SIGN_WOOD_NAMES@, word);
    if wall {
        let name = word + wall_end;
        assert(name.subrange(name.len() - wall_end.len(), name.len() as int) =~= wall_end);
        assert(name.subrange(0, name.len() - wall_end.len()) =~= word);
    } else {
        let name = word + end;
        assert(name.subrange(name.len() - end.len(), name.len() as int) =~= end);
        assert(name.subrange(0, name.len() - end.len()) =~= word);
        if crate::text::has_suffix(name, wall_end) {
            let tail = name.subrange(name.len() - wall_end.len(), name.len() as int);
            assert(tail[4] == 'l');
            assert(tail[4] == word[word.len() - 1]);
            lemma_woods_end_otherwise(wood);
        }
    }
}

proof fn lemma_woods_end_otherwise(wood: int)
    requires
        0 <= wood < 12,
    ensures
        SIGN_WOOD_NAMES[wood]@.len() > 0,
        SIGN_WOOD_NAMES[wood]@.last() != 'l',
{
    reveal_strlit("oak");
    reveal_strlit("spruce");
    reveal_strlit("birch");
    reveal_strlit("jungle");
    reveal_strlit("acacia");
    reveal_strlit("dark_oak");
    reveal_strlit("mangrove");
    reveal_strlit("cherry");
    reveal_strlit("pale_oak");
    reveal_strlit("bamboo");
    reveal_strlit("crimson");
    reveal_strlit("warped");
}

/// The lid and the lock of any chest swing back together by a quarter turn about the
/// hinge, and neither turns otherwise nor lifts off; a shulker box's lid rises half a
/// block as it turns by three quarters about its axis, and stays level.
pub proof fn law_lids_open(kind: BlockEntityKind, i: int)
    requires
        0 <= i < moving_parts(kind).len(),
    ensures
        ({
            let p = moving_parts(kind)[i];
            &&& kind == BlockEntityKind::Chest || kind == BlockEntityKind::TrappedChest || kind
                == BlockEntityKind::EnderChest ==> {
                &&& moving_parts(kind).len() == 2
                &&& p.part == i + 1
                &&& p.x_degrees == -90
                &&& p.y_degrees == 0
                &&& p.lift == 0
            }
            &&& kind == BlockEntityKind::ShulkerBox ==> {
                &&& moving_parts(kind).len() == 1
                &&& p.part == 0
                &&& p.x_degrees == 0
                &&& p.y_degrees == 270
                &&& p.lift == -8
            }
            &&& kind != BlockEntityKind::Sign && kind != BlockEntityKind::CopperGolemStatue && kind
                != BlockEntityKind::Other
        }),
{
}

/// Every kind with a lid has moving parts, and chests of all kinds move alike.
pub proof fn law_everything_with_a_lid_moves()
    ensures
        moving_parts(BlockEntityKind::Chest).len() > 0,
        moving_parts(BlockEntityKind::ShulkerBox).len() > 0,
        moving_parts(BlockEntityKind::TrappedChest) == moving_parts(BlockEntityKind::Chest),
        moving_parts(BlockEntityKind::EnderChest) == moving_parts(BlockEntityKind::Chest),
{
}

/// All textures of a set of definitions.
pub open spec fn variants_total(defs: Seq<KindDef>) -> nat
    decreases defs.len(),
{
    if defs.len() == 0 {
        0
    } else {
        variants_total(defs.drop_last()) + defs.last().tex_variants@.len()
    }
}

/// The descriptor pool for the kinds and the statue: a camera set per frame and
/// a set per texture.
pub fn descriptor_pool(defs: &Vec<KindDef>) -> (plan: PoolPlan)
    requires
        variants_total(defs@) <= 0xffff,
    ensures
        plan == (PoolPlan {
            uniforms: 2,
            samplers: (variants_total(defs@) + 4) as u32,
            max_sets: (variants_total(defs@) + 6) as u32,
        }),
{
    let mut total: u32 = 0;
    let mut i: usize = 0;
    while i < defs.len()
        invariant
            i <= defs@.len(),
            total == variants_total(defs@.take(i as int)),
            variants_total(defs@) <= 0xffff,
        decreases defs@.len() - i,
    {
        proof {
            assert(defs@.take(i + 1).drop_last() =~= defs@.take(i as int));
            lemma_total_grows(defs@, i + 1);
        }
        total = total + defs[i].tex_variants.len() as u32;
        i = i + 1;
    }
    assert(defs@.take(defs@.len() as int) =~= defs@);
    crate::gpu::camera_and_texture_pool(total + 4)
}

proof fn lemma_total_grows(defs: Seq<KindDef>, n: int)
    requires
        0 <= n <= defs.len(),
    ensures
        variants_total(defs.take(n)) <= variants_total(defs),
    decreases defs.len() - n,
{
    if n == defs.len() {
        assert(defs.take(n) =~= defs);
    } else {
        assert(defs.take(n + 1).drop_last() =~= defs.take(n));
        lemma_total_grows(defs, n + 1);
    }
}

/// The descriptor pool of the sign text: two atlases per frame in flight.
pub fn sign_pool() -> (plan: PoolPlan)
    ensures
        plan == (PoolPlan { uniforms: 0, samplers: 4, max_sets: 2 }),
{
    PoolPlan { uniforms: 0, samplers: 4, max_sets: 2 }
}

/// The left half of a double chest has its partner a quarter turn clockwise of where it
/// faces, as seen from above, and the right half a quarter turn the other way. No other
/// chest has a partner.
pub proof fn law_partners_stand_at_the_side(chest_type: Seq<char>, x: int, z: int)
    ensures
        ({
            let facing = if (x, z) == (0int, -1int) {
                "north"@
            } else if (x, z) == (1int, 0int) {
                "east"@
            } else if (x, z) == (0int, 1int) {
                "south"@
            } else {
                "west"@
            };
            (x, z) == (0int, -1int) || (x, z) == (1int, 0int) || (x, z) == (0int, 1int) || (x, z)
                == (-1int, 0int) ==> partner_of(facing, chest_type) == (if chest_type == "left"@ {
                Some((-z, x))
            } else if chest_type == "right"@ {
                Some((z, -x))
            } else {
                None
            })
        }),
{
    reveal_strlit("north");
    reveal_strlit("east");
    reveal_strlit("south");
    reveal_strlit("west");
    reveal_strlit("left");
    reveal_strlit("right");
    assert("left"@.len() != "right"@.len());
    assert("north"@[0] == 'n' && "east"@[0] == 'e' && "south"@[0] == 's' && "west"@[0] == 'w');
}

/// The kinds with models of their own are the chests and the shulker box. An ender chest
/// is always single, the other chests come in halves too.
pub proof fn law_kinds_have_their_models(kind: BlockEntityKind)
    ensures
        defined_kinds().contains(kind) <==> kind == BlockEntityKind::Chest || kind
            == BlockEntityKind::TrappedChest || kind == BlockEntityKind::EnderChest || kind
            == BlockEntityKind::ShulkerBox,
        defined_kinds().no_duplicates(),
        kind == BlockEntityKind::Chest || kind == BlockEntityKind::TrappedChest ==> model_set(kind)
            == ModelSet::ChestHalves,
        kind == BlockEntityKind::EnderChest ==> model_set(kind) == ModelSet::SingleChest,
        kind == BlockEntityKind::ShulkerBox ==> model_set(kind) == ModelSet::ShulkerBox,
{
    let kinds = defined_kinds();
    assert(kinds[0] == BlockEntityKind::Chest && kinds[1] == BlockEntityKind::TrappedChest
        && kinds[2] == BlockEntityKind::EnderChest && kinds[3] == BlockEntityKind::ShulkerBox);
}

/// The textures of definitions add up.
pub proof fn law_variants_add_up(defs: Seq<KindDef>, def: KindDef)
    ensures
        variants_total(Seq::<KindDef>::empty()) == 0,
        variants_total(defs.push(def)) == variants_total(defs) + def.tex_variants@.len(),
{
    assert(defs.push(def).drop_last() =~= defs);
}

} // verus!
