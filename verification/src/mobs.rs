//! Which models, textures and animations the mobs are drawn with.
use vstd::prelude::*;

verus! {

/// The entities the renderer knows about.
#[derive(Clone, Copy, Debug, PartialEq, Eq, Structural)]
pub enum EntityKind {
    Pig,
    Cow,
    Chicken,
    Sheep,
    Player,
    Zombie,
    Husk,
    Drowned,
    ZombieVillager,
    Skeleton,
    Stray,
    Bogged,
    Creeper,
    Villager,
    Spider,
    Enderman,
    Slime,
    Witch,
    Wolf,
    Cat,
    Ocelot,
    Rabbit,
    Horse,
    Donkey,
    Mule,
    SkeletonHorse,
    ZombieHorse,
    Squid,
    GlowSquid,
    Bat,
    Cod,
    Salmon,
    TropicalFish,
    Pufferfish,
    IronGolem,
    CaveSpider,
    Endermite,
    Silverfish,
    Other,
}

/// How a mob's parts move.
#[derive(Clone, Copy, Debug, PartialEq, Eq, Structural)]
pub enum AnimationType {
    Quadruped,
    Chicken,
    Humanoid,
    Enderman,
    Zombie,
    Skeleton,
    Spider,
    Villager,
    Witch,
    Wolf,
    Feline,
    Rabbit,
    Equine,
    Squid,
    Bat,
    Fish,
    Golem,
    Static,
}

/// The pass a variant is drawn in.
#[derive(Clone, Copy, Debug, PartialEq, Eq, Structural)]
pub enum OverlayKind {
    Opaque,
    /// Opaque with back faces culled: coplanar zero-depth quads.
    OpaqueCulled,
    /// Translucent and depth-writing: the slime shell.
    BodyTranslucent,
    /// Translucent, full-bright, no depth writes: glowing eyes.
    EyesTranslucent,
    /// Additive, full-bright, scrolling: the charged creeper's swirl.
    SwirlAdditive,
}

/// Where a variant belongs in its mob.
#[derive(Clone, Copy, Debug, PartialEq, Eq, Structural)]
pub enum Layer {
    Adult,
    Baby,
    AdultOverlay,
    BabyOverlay,
}

/// The baked meshes.
#[derive(Clone, Copy, Debug, PartialEq, Eq, Structural)]
pub enum ModelId {
    Pig,
    BabyPig,
    Cow,
    BabyCow,
    Chicken,
    ColdChicken,
    BabyChicken,
    Sheep,
    BabySheep,
    SheepWoolUndercoat,
    SheepWool,
    BabySheepWool,
    PlayerWide,
    PlayerSlim,
    Zombie,
    BabyZombie,
    Husk,
    Drowned,
    DrownedOuter,
    BabyDrownedOuter,
    ZombieVillager,
    BabyZombieVillager,
    ZombieVillagerNoHat,
    BabyZombieVillagerNoHat,
    Skeleton,
    SkeletonClothing,
    Bogged,
    BoggedSheared,
    BoggedClothing,
    Creeper,
    Villager,
    BabyVillager,
    VillagerNoHat,
    BabyVillagerNoHat,
    Spider,
    Enderman,
    SlimeInner,
    SlimeOuter,
    Witch,
    Wolf,
    BabyWolf,
    WolfCollar,
    Cat,
    BabyCat,
    CatCollar,
    BabyCatCollar,
    Ocelot,
    BabyOcelot,
    Rabbit,
    BabyRabbit,
    Horse,
    BabyHorse,
    HorseSaddle,
    Donkey,
    DonkeyWithChest,
    BabyDonkey,
    Mule,
    MuleWithChest,
    UndeadHorse,
    Squid,
    BabySquid,
    Bat,
    Cod,
    SalmonSmall,
    SalmonMedium,
    SalmonLarge,
    TropicalFishSmall,
    TropicalFishLarge,
    TropicalFishSmallPattern,
    TropicalFishLargePattern,
    PufferfishSmall,
    PufferfishMedium,
    PufferfishLarge,
    IronGolem,
}

/// The texture lists, one entry per texture variant.
#[derive(Clone, Copy, Debug, PartialEq, Eq, Structural)]
pub enum TexTable {
    PigAdult,
    PigBaby,
    CowAdult,
    CowBaby,
    ChickenNormal,
    ChickenCold,
    ChickenBaby,
    SheepAdult,
    SheepBaby,
    SheepWoolUndercoat,
    SheepWool,
    SheepBabyWool,
    Player,
    Zombie,
    ZombieBaby,
    Husk,
    HuskBaby,
    Drowned,
    DrownedBaby,
    DrownedOuter,
    DrownedOuterBaby,
    ZombieVillager,
    ZombieVillagerBaby,
    ZombieVillagerType,
    ZombieVillagerBabyType,
    ZombieVillagerProfession,
    ZombieVillagerLevel,
    Wolf,
    WolfBaby,
    WolfCollar,
    WolfCollarBaby,
    Cat,
    CatBaby,
    CatCollar,
    CatCollarBaby,
    Ocelot,
    OcelotBaby,
    Rabbit,
    RabbitBaby,
    Horse,
    HorseBaby,
    HorseMarkings,
    HorseMarkingsBaby,
    Donkey,
    DonkeyBaby,
    Mule,
    MuleBaby,
    SkeletonHorse,
    SkeletonHorseBaby,
    ZombieHorse,
    ZombieHorseBaby,
    Squid,
    SquidBaby,
    GlowSquid,
    GlowSquidBaby,
    Bat,
    Cod,
    Salmon,
    Pufferfish,
    IronGolem,
    IronGolemCrackiness,
    TropicalA,
    TropicalB,
    TropicalAPattern,
    TropicalBPattern,
    Skeleton,
    Stray,
    StrayOverlay,
    Bogged,
    BoggedOverlay,
    Creeper,
    CreeperArmor,
    Spider,
    SpiderEyes,
    Enderman,
    EndermanEyes,
    Slime,
    Witch,
    Villager,
    VillagerBaby,
    VillagerType,
    VillagerBabyType,
    VillagerProfession,
    VillagerLevel,
    HorseSaddle,
}

pub const PIG_ADULT_TEX: [&'static str; 1] = ["minecraft/textures/entity/pig/pig_temperate.png"];

pub const PIG_BABY_TEX: [&'static str; 1] = ["minecraft/textures/entity/pig/pig_temperate_baby.png"];

pub const COW_ADULT_TEX: [&'static str; 3] = [
    "minecraft/textures/entity/cow/cow_temperate.png",
    "minecraft/textures/entity/cow/cow_cold.png",
    "minecraft/textures/entity/cow/cow_warm.png",
];

pub const COW_BABY_TEX: [&'static str; 3] = [
    "minecraft/textures/entity/cow/cow_temperate_baby.png",
    "minecraft/textures/entity/cow/cow_cold_baby.png",
    "minecraft/textures/entity/cow/cow_warm_baby.png",
];

pub const CHICKEN_NORMAL_TEX: [&'static str; 2] = [
    "minecraft/textures/entity/chicken/chicken_temperate.png",
    "minecraft/textures/entity/chicken/chicken_warm.png",
];

pub const CHICKEN_COLD_TEX: [&'static str; 1] = ["minecraft/textures/entity/chicken/chicken_cold.png"];

pub const CHICKEN_BABY_TEX: [&'static str; 3] = [
    "minecraft/textures/entity/chicken/chicken_temperate_baby.png",
    "minecraft/textures/entity/chicken/chicken_warm_baby.png",
    "minecraft/textures/entity/chicken/chicken_cold_baby.png",
];

pub const SHEEP_ADULT_TEX: [&'static str; 1] = ["minecraft/textures/entity/sheep/sheep.png"];

pub const SHEEP_BABY_TEX: [&'static str; 1] = ["minecraft/textures/entity/sheep/sheep_baby.png"];

pub const SHEEP_WOOL_UNDERCOAT_TEX: [&'static str; 1] = ["minecraft/textures/entity/sheep/sheep_wool_undercoat.png"];

pub const SHEEP_WOOL_TEX: [&'static str; 1] = ["minecraft/textures/entity/sheep/sheep_wool.png"];

pub const SHEEP_BABY_WOOL_TEX: [&'static str; 1] = ["minecraft/textures/entity/sheep/sheep_wool_baby.png"];

pub const PLAYER_TEX: [&'static str; 1] = ["minecraft/textures/entity/player/wide/steve.png"];

pub const ZOMBIE_TEX: [&'static str; 1] = ["minecraft/textures/entity/zombie/zombie.png"];

pub const ZOMBIE_BABY_TEX: [&'static str; 1] = ["minecraft/textures/entity/zombie/zombie_baby.png"];

pub const HUSK_TEX: [&'static str; 1] = ["minecraft/textures/entity/zombie/husk.png"];

pub const HUSK_BABY_TEX: [&'static str; 1] = ["minecraft/textures/entity/zombie/husk_baby.png"];

pub const DROWNED_TEX: [&'static str; 1] = ["minecraft/textures/entity/zombie/drowned.png"];

pub const DROWNED_BABY_TEX: [&'static str; 1] = ["minecraft/textures/entity/zombie/drowned_baby.png"];

pub const DROWNED_OUTER_TEX: [&'static str; 1] = ["minecraft/textures/entity/zombie/drowned_outer_layer.png"];

pub const DROWNED_OUTER_BABY_TEX: [&'static str; 1] = ["minecraft/textures/entity/zombie/drowned_outer_layer_baby.png"];

pub const ZOMBIE_VILLAGER_TEX: [&'static str; 1] = ["minecraft/textures/entity/zombie_villager/zombie_villager.png"];

pub const ZOMBIE_VILLAGER_BABY_TEX: [&'static str; 1] = ["minecraft/textures/entity/zombie_villager/zombie_villager_baby.png"];

pub const ZOMBIE_VILLAGER_TYPE_TEX: [&'static str; 7] = [
    "minecraft/textures/entity/zombie_villager/type/desert.png",
    "minecraft/textures/entity/zombie_villager/type/jungle.png",
    "minecraft/textures/entity/zombie_villager/type/plains.png",
    "minecraft/textures/entity/zombie_villager/type/savanna.png",
    "minecraft/textures/entity/zombie_villager/type/snow.png",
    "minecraft/textures/entity/zombie_villager/type/swamp.png",
    "minecraft/textures/entity/zombie_villager/type/taiga.png",
];

pub const ZOMBIE_VILLAGER_BABY_TYPE_TEX: [&'static str; 7] = [
    "minecraft/textures/entity/zombie_villager/baby/desert.png",
    "minecraft/textures/entity/zombie_villager/baby/jungle.png",
    "minecraft/textures/entity/zombie_villager/baby/plains.png",
    "minecraft/textures/entity/zombie_villager/baby/savanna.png",
    "minecraft/textures/entity/zombie_villager/baby/snow.png",
    "minecraft/textures/entity/zombie_villager/baby/swamp.png",
    "minecraft/textures/entity/zombie_villager/baby/taiga.png",
];

pub const ZOMBIE_VILLAGER_PROFESSION_TEX: [&'static str; 14] = [
    "minecraft/textures/entity/zombie_villager/profession/armorer.png",
    "minecraft/textures/entity/zombie_villager/profession/butcher.png",
    "minecraft/textures/entity/zombie_villager/profession/cartographer.png",
    "minecraft/textures/entity/zombie_villager/profession/cleric.png",
    "minecraft/textures/entity/zombie_villager/profession/farmer.png",
    "minecraft/textures/entity/zombie_villager/profession/fisherman.png",
    "minecraft/textures/entity/zombie_villager/profession/fletcher.png",
    "minecraft/textures/entity/zombie_villager/profession/leatherworker.png",
    "minecraft/textures/entity/zombie_villager/profession/librarian.png",
    "minecraft/textures/entity/zombie_villager/profession/mason.png",
    "minecraft/textures/entity/zombie_villager/profession/nitwit.png",
    "minecraft/textures/entity/zombie_villager/profession/shepherd.png",
    "minecraft/textures/entity/zombie_villager/profession/toolsmith.png",
    "minecraft/textures/entity/zombie_villager/profession/weaponsmith.png",
];

pub const ZOMBIE_VILLAGER_LEVEL_TEX: [&'static str; 5] = [
    "minecraft/textures/entity/zombie_villager/profession_level/stone.png",
    "minecraft/textures/entity/zombie_villager/profession_level/iron.png",
    "minecraft/textures/entity/zombie_villager/profession_level/gold.png",
    "minecraft/textures/entity/zombie_villager/profession_level/emerald.png",
    "minecraft/textures/entity/zombie_villager/profession_level/diamond.png",
];

pub const WOLF_TEX: [&'static str; 27] = [
    "minecraft/textures/entity/wolf/wolf.png",
    "minecraft/textures/entity/wolf/wolf_tame.png",
    "minecraft/textures/entity/wolf/wolf_angry.png",
    "minecraft/textures/entity/wolf/wolf_spotted.png",
    "minecraft/textures/entity/wolf/wolf_spotted_tame.png",
    "minecraft/textures/entity/wolf/wolf_spotted_angry.png",
    "minecraft/textures/entity/wolf/wolf_snowy.png",
    "minecraft/textures/entity/wolf/wolf_snowy_tame.png",
    "minecraft/textures/entity/wolf/wolf_snowy_angry.png",
    "minecraft/textures/entity/wolf/wolf_black.png",
    "minecraft/textures/entity/wolf/wolf_black_tame.png",
    "minecraft/textures/entity/wolf/wolf_black_angry.png",
    "minecraft/textures/entity/wolf/wolf_ashen.png",
    "minecraft/textures/entity/wolf/wolf_ashen_tame.png",
    "minecraft/textures/entity/wolf/wolf_ashen_angry.png",
    "minecraft/textures/entity/wolf/wolf_rusty.png",
    "minecraft/textures/entity/wolf/wolf_rusty_tame.png",
    "minecraft/textures/entity/wolf/wolf_rusty_angry.png",
    "minecraft/textures/entity/wolf/wolf_woods.png",
    "minecraft/textures/entity/wolf/wolf_woods_tame.png",
    "minecraft/textures/entity/wolf/wolf_woods_angry.png",
    "minecraft/textures/entity/wolf/wolf_chestnut.png",
    "minecraft/textures/entity/wolf/wolf_chestnut_tame.png",
    "minecraft/textures/entity/wolf/wolf_chestnut_angry.png",
    "minecraft/textures/entity/wolf/wolf_striped.png",
    "minecraft/textures/entity/wolf/wolf_striped_tame.png",
    "minecraft/textures/entity/wolf/wolf_striped_angry.png",
];

pub const WOLF_BABY_TEX: [&'static str; 27] = [
    "minecraft/textures/entity/wolf/wolf_baby.png",
    "minecraft/textures/entity/wolf/wolf_tame_baby.png",
    "minecraft/textures/entity/wolf/wolf_angry_baby.png",
    "minecraft/textures/entity/wolf/wolf_spotted_baby.png",
    "minecraft/textures/entity/wolf/wolf_spotted_tame_baby.png",
    "minecraft/textures/entity/wolf/wolf_spotted_angry_baby.png",
    "minecraft/textures/entity/wolf/wolf_snowy_baby.png",
    "minecraft/textures/entity/wolf/wolf_snowy_tame_baby.png",
    "minecraft/textures/entity/wolf/wolf_snowy_angry_baby.png",
    "minecraft/textures/entity/wolf/wolf_black_baby.png",
    "minecraft/textures/entity/wolf/wolf_black_tame_baby.png",
    "minecraft/textures/entity/wolf/wolf_black_angry_baby.png",
    "minecraft/textures/entity/wolf/wolf_ashen_baby.png",
    "minecraft/textures/entity/wolf/wolf_ashen_tame_baby.png",
    "minecraft/textures/entity/wolf/wolf_ashen_angry_baby.png",
    "minecraft/textures/entity/wolf/wolf_rusty_baby.png",
    "minecraft/textures/entity/wolf/wolf_rusty_tame_baby.png",
    "minecraft/textures/entity/wolf/wolf_rusty_angry_baby.png",
    "minecraft/textures/entity/wolf/wolf_woods_baby.png",
    "minecraft/textures/entity/wolf/wolf_woods_tame_baby.png",
    "minecraft/textures/entity/wolf/wolf_woods_angry_baby.png",
    "minecraft/textures/entity/wolf/wolf_chestnut_baby.png",
    "minecraft/textures/entity/wolf/wolf_chestnut_tame_baby.png",
    "minecraft/textures/entity/wolf/wolf_chestnut_angry_baby.png",
    "minecraft/textures/entity/wolf/wolf_striped_baby.png",
    "minecraft/textures/entity/wolf/wolf_striped_tame_baby.png",
    "minecraft/textures/entity/wolf/wolf_striped_angry_baby.png",
];

pub const WOLF_COLLAR_TEX: [&'static str; 1] = ["minecraft/textures/entity/wolf/wolf_collar.png"];

pub const WOLF_COLLAR_BABY_TEX: [&'static str; 1] = ["minecraft/textures/entity/wolf/wolf_collar_baby.png"];

pub const CAT_TEX: [&'static str; 11] = [
    "minecraft/textures/entity/cat/cat_all_black.png",
    "minecraft/textures/entity/cat/cat_black.png",
    "minecraft/textures/entity/cat/cat_british_shorthair.png",
    "minecraft/textures/entity/cat/cat_calico.png",
    "minecraft/textures/entity/cat/cat_jellie.png",
    "minecraft/textures/entity/cat/cat_persian.png",
    "minecraft/textures/entity/cat/cat_ragdoll.png",
    "minecraft/textures/entity/cat/cat_red.png",
    "minecraft/textures/entity/cat/cat_siamese.png",
    "minecraft/textures/entity/cat/cat_tabby.png",
    "minecraft/textures/entity/cat/cat_white.png",
];

pub const CAT_BABY_TEX: [&'static str; 11] = [
    "minecraft/textures/entity/cat/cat_all_black_baby.png",
    "minecraft/textures/entity/cat/cat_black_baby.png",
    "minecraft/textures/entity/cat/cat_british_shorthair_baby.png",
    "minecraft/textures/entity/cat/cat_calico_baby.png",
    "minecraft/textures/entity/cat/cat_jellie_baby.png",
    "minecraft/textures/entity/cat/cat_persian_baby.png",
    "minecraft/textures/entity/cat/cat_ragdoll_baby.png",
    "minecraft/textures/entity/cat/cat_red_baby.png",
    "minecraft/textures/entity/cat/cat_siamese_baby.png",
    "minecraft/textures/entity/cat/cat_tabby_baby.png",
    "minecraft/textures/entity/cat/cat_white_baby.png",
];

pub const CAT_COLLAR_TEX: [&'static str; 1] = ["minecraft/textures/entity/cat/cat_collar.png"];

pub const CAT_COLLAR_BABY_TEX: [&'static str; 1] = ["minecraft/textures/entity/cat/cat_collar_baby.png"];

pub const OCELOT_TEX: [&'static str; 1] = ["minecraft/textures/entity/cat/ocelot.png"];

pub const OCELOT_BABY_TEX: [&'static str; 1] = ["minecraft/textures/entity/cat/ocelot_baby.png"];

pub const RABBIT_TEX: [&'static str; 8] = [
    "minecraft/textures/entity/rabbit/rabbit_brown.png",
    "minecraft/textures/entity/rabbit/rabbit_white.png",
    "minecraft/textures/entity/rabbit/rabbit_black.png",
    "minecraft/textures/entity/rabbit/rabbit_white_splotched.png",
    "minecraft/textures/entity/rabbit/rabbit_gold.png",
    "minecraft/textures/entity/rabbit/rabbit_salt.png",
    "minecraft/textures/entity/rabbit/rabbit_caerbannog.png",
    "minecraft/textures/entity/rabbit/rabbit_toast.png",
];

pub const RABBIT_BABY_TEX: [&'static str; 8] = [
    "minecraft/textures/entity/rabbit/rabbit_brown_baby.png",
    "minecraft/textures/entity/rabbit/rabbit_white_baby.png",
    "minecraft/textures/entity/rabbit/rabbit_black_baby.png",
    "minecraft/textures/entity/rabbit/rabbit_white_splotched_baby.png",
    "minecraft/textures/entity/rabbit/rabbit_gold_baby.png",
    "minecraft/textures/entity/rabbit/rabbit_salt_baby.png",
    "minecraft/textures/entity/rabbit/rabbit_caerbannog_baby.png",
    "minecraft/textures/entity/rabbit/rabbit_toast_baby.png",
];

pub const HORSE_TEX: [&'static str; 7] = [
    "minecraft/textures/entity/horse/horse_white.png",
    "minecraft/textures/entity/horse/horse_creamy.png",
    "minecraft/textures/entity/horse/horse_chestnut.png",
    "minecraft/textures/entity/horse/horse_brown.png",
    "minecraft/textures/entity/horse/horse_black.png",
    "minecraft/textures/entity/horse/horse_gray.png",
    "minecraft/textures/entity/horse/horse_darkbrown.png",
];

pub const HORSE_BABY_TEX: [&'static str; 7] = [
    "minecraft/textures/entity/horse/horse_white_baby.png",
    "minecraft/textures/entity/horse/horse_creamy_baby.png",
    "minecraft/textures/entity/horse/horse_chestnut_baby.png",
    "minecraft/textures/entity/horse/horse_brown_baby.png",
    "minecraft/textures/entity/horse/horse_black_baby.png",
    "minecraft/textures/entity/horse/horse_gray_baby.png",
    "minecraft/textures/entity/horse/horse_darkbrown_baby.png",
];

pub const HORSE_MARKINGS_TEX: [&'static str; 4] = [
    "minecraft/textures/entity/horse/horse_markings_white.png",
    "minecraft/textures/entity/horse/horse_markings_whitefield.png",
    "minecraft/textures/entity/horse/horse_markings_whitedots.png",
    "minecraft/textures/entity/horse/horse_markings_blackdots.png",
];

pub const HORSE_MARKINGS_BABY_TEX: [&'static str; 4] = [
    "minecraft/textures/entity/horse/horse_markings_white_baby.png",
    "minecraft/textures/entity/horse/horse_markings_whitefield_baby.png",
    "minecraft/textures/entity/horse/horse_markings_whitedots_baby.png",
    "minecraft/textures/entity/horse/horse_markings_blackdots_baby.png",
];

pub const DONKEY_TEX: [&'static str; 1] = ["minecraft/textures/entity/horse/donkey.png"];

pub const DONKEY_BABY_TEX: [&'static str; 1] = ["minecraft/textures/entity/horse/donkey_baby.png"];

pub const MULE_TEX: [&'static str; 1] = ["minecraft/textures/entity/horse/mule.png"];

pub const MULE_BABY_TEX: [&'static str; 1] = ["minecraft/textures/entity/horse/mule_baby.png"];

pub const SKELETON_HORSE_TEX: [&'static str; 1] = ["minecraft/textures/entity/horse/horse_skeleton.png"];

pub const SKELETON_HORSE_BABY_TEX: [&'static str; 1] = ["minecraft/textures/entity/horse/horse_skeleton_baby.png"];

pub const ZOMBIE_HORSE_TEX: [&'static str; 1] = ["minecraft/textures/entity/horse/horse_zombie.png"];

pub const ZOMBIE_HORSE_BABY_TEX: [&'static str; 1] = ["minecraft/textures/entity/horse/horse_zombie_baby.png"];

pub const SQUID_TEX: [&'static str; 1] = ["minecraft/textures/entity/squid/squid.png"];

pub const SQUID_BABY_TEX: [&'static str; 1] = ["minecraft/textures/entity/squid/squid_baby.png"];

pub const GLOW_SQUID_TEX: [&'static str; 1] = ["minecraft/textures/entity/squid/glow_squid.png"];

pub const GLOW_SQUID_BABY_TEX: [&'static str; 1] = ["minecraft/textures/entity/squid/glow_squid_baby.png"];

pub const BAT_TEX: [&'static str; 1] = ["minecraft/textures/entity/bat/bat.png"];

pub const COD_TEX: [&'static str; 1] = ["minecraft/textures/entity/fish/cod.png"];

pub const SALMON_TEX: [&'static str; 1] = ["minecraft/textures/entity/fish/salmon.png"];

pub const PUFFERFISH_TEX: [&'static str; 1] = ["minecraft/textures/entity/fish/pufferfish.png"];

pub const IRON_GOLEM_TEX: [&'static str; 1] = ["minecraft/textures/entity/iron_golem/iron_golem.png"];

pub const IRON_GOLEM_CRACKINESS_TEX: [&'static str; 3] = [
    "minecraft/textures/entity/iron_golem/iron_golem_crackiness_low.png",
    "minecraft/textures/entity/iron_golem/iron_golem_crackiness_medium.png",
    "minecraft/textures/entity/iron_golem/iron_golem_crackiness_high.png",
];

pub const TROPICAL_A_TEX: [&'static str; 1] = ["minecraft/textures/entity/fish/tropical_a.png"];

pub const TROPICAL_B_TEX: [&'static str; 1] = ["minecraft/textures/entity/fish/tropical_b.png"];

pub const TROPICAL_A_PATTERN_TEX: [&'static str; 6] = [
    "minecraft/textures/entity/fish/tropical_a_pattern_1.png",
    "minecraft/textures/entity/fish/tropical_a_pattern_2.png",
    "minecraft/textures/entity/fish/tropical_a_pattern_3.png",
    "minecraft/textures/entity/fish/tropical_a_pattern_4.png",
    "minecraft/textures/entity/fish/tropical_a_pattern_5.png",
    "minecraft/textures/entity/fish/tropical_a_pattern_6.png",
];

pub const TROPICAL_B_PATTERN_TEX: [&'static str; 6] = [
    "minecraft/textures/entity/fish/tropical_b_pattern_1.png",
    "minecraft/textures/entity/fish/tropical_b_pattern_2.png",
    "minecraft/textures/entity/fish/tropical_b_pattern_3.png",
    "minecraft/textures/entity/fish/tropical_b_pattern_4.png",
    "minecraft/textures/entity/fish/tropical_b_pattern_5.png",
    "minecraft/textures/entity/fish/tropical_b_pattern_6.png",
];

pub const SKELETON_TEX: [&'static str; 1] = ["minecraft/textures/entity/skeleton/skeleton.png"];

pub const STRAY_TEX: [&'static str; 1] = ["minecraft/textures/entity/skeleton/stray.png"];

pub const STRAY_OVERLAY_TEX: [&'static str; 1] = ["minecraft/textures/entity/skeleton/stray_overlay.png"];

pub const BOGGED_TEX: [&'static str; 1] = ["minecraft/textures/entity/skeleton/bogged.png"];

pub const BOGGED_OVERLAY_TEX: [&'static str; 1] = ["minecraft/textures/entity/skeleton/bogged_overlay.png"];

pub const CREEPER_TEX: [&'static str; 1] = ["minecraft/textures/entity/creeper/creeper.png"];

pub const CREEPER_ARMOR_TEX: [&'static str; 1] = ["minecraft/textures/entity/creeper/creeper_armor.png"];

pub const SPIDER_TEX: [&'static str; 1] = ["minecraft/textures/entity/spider/spider.png"];

pub const SPIDER_EYES_TEX: [&'static str; 1] = ["minecraft/textures/entity/spider/spider_eyes.png"];

pub const ENDERMAN_TEX: [&'static str; 1] = ["minecraft/textures/entity/enderman/enderman.png"];

pub const ENDERMAN_EYES_TEX: [&'static str; 1] = ["minecraft/textures/entity/enderman/enderman_eyes.png"];

pub const SLIME_TEX: [&'static str; 1] = ["minecraft/textures/entity/slime/slime.png"];

pub const WITCH_TEX: [&'static str; 1] = ["minecraft/textures/entity/witch/witch.png"];

pub const VILLAGER_TEX: [&'static str; 1] = ["minecraft/textures/entity/villager/villager.png"];

pub const VILLAGER_BABY_TEX: [&'static str; 1] = ["minecraft/textures/entity/villager/villager_baby.png"];

pub const VILLAGER_TYPE_TEX: [&'static str; 7] = [
    "minecraft/textures/entity/villager/type/desert.png",
    "minecraft/textures/entity/villager/type/jungle.png",
    "minecraft/textures/entity/villager/type/plains.png",
    "minecraft/textures/entity/villager/type/savanna.png",
    "minecraft/textures/entity/villager/type/snow.png",
    "minecraft/textures/entity/villager/type/swamp.png",
    "minecraft/textures/entity/villager/type/taiga.png",
];

pub const VILLAGER_BABY_TYPE_TEX: [&'static str; 7] = [
    "minecraft/textures/entity/villager/baby/desert.png",
    "minecraft/textures/entity/villager/baby/jungle.png",
    "minecraft/textures/entity/villager/baby/plains.png",
    "minecraft/textures/entity/villager/baby/savanna.png",
    "minecraft/textures/entity/villager/baby/snow.png",
    "minecraft/textures/entity/villager/baby/swamp.png",
    "minecraft/textures/entity/villager/baby/taiga.png",
];

pub const VILLAGER_PROFESSION_TEX: [&'static str; 14] = [
    "minecraft/textures/entity/villager/profession/armorer.png",
    "minecraft/textures/entity/villager/profession/butcher.png",
    "minecraft/textures/entity/villager/profession/cartographer.png",
    "minecraft/textures/entity/villager/profession/cleric.png",
    "minecraft/textures/entity/villager/profession/farmer.png",
    "minecraft/textures/entity/villager/profession/fisherman.png",
    "minecraft/textures/entity/villager/profession/fletcher.png",
    "minecraft/textures/entity/villager/profession/leatherworker.png",
    "minecraft/textures/entity/villager/profession/librarian.png",
    "minecraft/textures/entity/villager/profession/mason.png",
    "minecraft/textures/entity/villager/profession/nitwit.png",
    "minecraft/textures/entity/villager/profession/shepherd.png",
    "minecraft/textures/entity/villager/profession/toolsmith.png",
    "minecraft/textures/entity/villager/profession/weaponsmith.png",
];

pub const VILLAGER_LEVEL_TEX: [&'static str; 5] = [
    "minecraft/textures/entity/villager/profession_level/stone.png",
    "minecraft/textures/entity/villager/profession_level/iron.png",
    "minecraft/textures/entity/villager/profession_level/gold.png",
    "minecraft/textures/entity/villager/profession_level/emerald.png",
    "minecraft/textures/entity/villager/profession_level/diamond.png",
];

pub const HORSE_SADDLE_TEX: [&'static str; 1] = ["minecraft/textures/entity/equipment/horse_saddle/saddle.png"];

/// Assets that go by an older name in some packs.
pub const FALLBACK_KEYS: [(&'static str, &'static str); 4] = [
    (
        "minecraft/textures/entity/pig/pig_temperate.png",
        "minecraft/textures/entity/pig/temperate_pig.png",
    ),
    (
        "minecraft/textures/entity/cow/cow_temperate.png",
        "minecraft/textures/entity/cow/cow.png",
    ),
    (
        "minecraft/textures/entity/chicken/chicken_temperate.png",
        "minecraft/textures/entity/chicken.png",
    ),
    (
        "minecraft/textures/entity/witch/witch.png",
        "minecraft/textures/entity/witch.png",
    ),
];

/// The textures of a list.
pub open spec fn table_of(table: TexTable) -> Seq<&'static str> {
    match table {
        TexTable::PigAdult => PIG_ADULT_TEX@,
        TexTable::PigBaby => PIG_BABY_TEX@,
        TexTable::CowAdult => COW_ADULT_TEX@,
        TexTable::CowBaby => COW_BABY_TEX@,
        TexTable::ChickenNormal => CHICKEN_NORMAL_TEX@,
        TexTable::ChickenCold => CHICKEN_COLD_TEX@,
        TexTable::ChickenBaby => CHICKEN_BABY_TEX@,
        TexTable::SheepAdult => SHEEP_ADULT_TEX@,
        TexTable::SheepBaby => SHEEP_BABY_TEX@,
        TexTable::SheepWoolUndercoat => SHEEP_WOOL_UNDERCOAT_TEX@,
        TexTable::SheepWool => SHEEP_WOOL_TEX@,
        TexTable::SheepBabyWool => SHEEP_BABY_WOOL_TEX@,
        TexTable::Player => PLAYER_TEX@,
        TexTable::Zombie => ZOMBIE_TEX@,
        TexTable::ZombieBaby => ZOMBIE_BABY_TEX@,
        TexTable::Husk => HUSK_TEX@,
        TexTable::HuskBaby => HUSK_BABY_TEX@,
        TexTable::Drowned => DROWNED_TEX@,
        TexTable::DrownedBaby => DROWNED_BABY_TEX@,
        TexTable::DrownedOuter => DROWNED_OUTER_TEX@,
        TexTable::DrownedOuterBaby => DROWNED_OUTER_BABY_TEX@,
        TexTable::ZombieVillager => ZOMBIE_VILLAGER_TEX@,
        TexTable::ZombieVillagerBaby => ZOMBIE_VILLAGER_BABY_TEX@,
        TexTable::ZombieVillagerType => ZOMBIE_VILLAGER_TYPE_TEX@,
        TexTable::ZombieVillagerBabyType => ZOMBIE_VILLAGER_BABY_TYPE_TEX@,
        TexTable::ZombieVillagerProfession => ZOMBIE_VILLAGER_PROFESSION_TEX@,
        TexTable::ZombieVillagerLevel => ZOMBIE_VILLAGER_LEVEL_TEX@,
        TexTable::Wolf => WOLF_TEX@,
        TexTable::WolfBaby => WOLF_BABY_TEX@,
        TexTable::WolfCollar => WOLF_COLLAR_TEX@,
        TexTable::WolfCollarBaby => WOLF_COLLAR_BABY_TEX@,
        TexTable::Cat => CAT_TEX@,
        TexTable::CatBaby => CAT_BABY_TEX@,
        TexTable::CatCollar => CAT_COLLAR_TEX@,
        TexTable::CatCollarBaby => CAT_COLLAR_BABY_TEX@,
        TexTable::Ocelot => OCELOT_TEX@,
        TexTable::OcelotBaby => OCELOT_BABY_TEX@,
        TexTable::Rabbit => RABBIT_TEX@,
        TexTable::RabbitBaby => RABBIT_BABY_TEX@,
        TexTable::Horse => HORSE_TEX@,
        TexTable::HorseBaby => HORSE_BABY_TEX@,
        TexTable::HorseMarkings => HORSE_MARKINGS_TEX@,
        TexTable::HorseMarkingsBaby => HORSE_MARKINGS_BABY_TEX@,
        TexTable::Donkey => DONKEY_TEX@,
        TexTable::DonkeyBaby => DONKEY_BABY_TEX@,
        TexTable::Mule => MULE_TEX@,
        TexTable::MuleBaby => MULE_BABY_TEX@,
        TexTable::SkeletonHorse => SKELETON_HORSE_TEX@,
        TexTable::SkeletonHorseBaby => SKELETON_HORSE_BABY_TEX@,
        TexTable::ZombieHorse => ZOMBIE_HORSE_TEX@,
        TexTable::ZombieHorseBaby => ZOMBIE_HORSE_BABY_TEX@,
        TexTable::Squid => SQUID_TEX@,
        TexTable::SquidBaby => SQUID_BABY_TEX@,
        TexTable::GlowSquid => GLOW_SQUID_TEX@,
        TexTable::GlowSquidBaby => GLOW_SQUID_BABY_TEX@,
        TexTable::Bat => BAT_TEX@,
        TexTable::Cod => COD_TEX@,
        TexTable::Salmon => SALMON_TEX@,
        TexTable::Pufferfish => PUFFERFISH_TEX@,
        TexTable::IronGolem => IRON_GOLEM_TEX@,
        TexTable::IronGolemCrackiness => IRON_GOLEM_CRACKINESS_TEX@,
        TexTable::TropicalA => TROPICAL_A_TEX@,
        TexTable::TropicalB => TROPICAL_B_TEX@,
        TexTable::TropicalAPattern => TROPICAL_A_PATTERN_TEX@,
        TexTable::TropicalBPattern => TROPICAL_B_PATTERN_TEX@,
        TexTable::Skeleton => SKELETON_TEX@,
        TexTable::Stray => STRAY_TEX@,
        TexTable::StrayOverlay => STRAY_OVERLAY_TEX@,
        TexTable::Bogged => BOGGED_TEX@,
        TexTable::BoggedOverlay => BOGGED_OVERLAY_TEX@,
        TexTable::Creeper => CREEPER_TEX@,
        TexTable::CreeperArmor => CREEPER_ARMOR_TEX@,
        TexTable::Spider => SPIDER_TEX@,
        TexTable::SpiderEyes => SPIDER_EYES_TEX@,
        TexTable::Enderman => ENDERMAN_TEX@,
        TexTable::EndermanEyes => ENDERMAN_EYES_TEX@,
        TexTable::Slime => SLIME_TEX@,
        TexTable::Witch => WITCH_TEX@,
        TexTable::Villager => VILLAGER_TEX@,
        TexTable::VillagerBaby => VILLAGER_BABY_TEX@,
        TexTable::VillagerType => VILLAGER_TYPE_TEX@,
        TexTable::VillagerBabyType => VILLAGER_BABY_TYPE_TEX@,
        TexTable::VillagerProfession => VILLAGER_PROFESSION_TEX@,
        TexTable::VillagerLevel => VILLAGER_LEVEL_TEX@,
        TexTable::HorseSaddle => HORSE_SADDLE_TEX@,
    }
}

/// The textures of a list, in variant order.
pub fn table_textures(table: TexTable) -> (list: Vec<&'static str>)
    ensures
        list@ == table_of(table),
{
    match table {
        TexTable::PigAdult => copy_table(PIG_ADULT_TEX.as_slice()),
        TexTable::PigBaby => copy_table(PIG_BABY_TEX.as_slice()),
        TexTable::CowAdult => copy_table(COW_ADULT_TEX.as_slice()),
        TexTable::CowBaby => copy_table(COW_BABY_TEX.as_slice()),
        TexTable::ChickenNormal => copy_table(CHICKEN_NORMAL_TEX.as_slice()),
        TexTable::ChickenCold => copy_table(CHICKEN_COLD_TEX.as_slice()),
        TexTable::ChickenBaby => copy_table(CHICKEN_BABY_TEX.as_slice()),
        TexTable::SheepAdult => copy_table(SHEEP_ADULT_TEX.as_slice()),
        TexTable::SheepBaby => copy_table(SHEEP_BABY_TEX.as_slice()),
        TexTable::SheepWoolUndercoat => copy_table(SHEEP_WOOL_UNDERCOAT_TEX.as_slice()),
        TexTable::SheepWool => copy_table(SHEEP_WOOL_TEX.as_slice()),
        TexTable::SheepBabyWool => copy_table(SHEEP_BABY_WOOL_TEX.as_slice()),
        TexTable::Player => copy_table(PLAYER_TEX.as_slice()),
        TexTable::Zombie => copy_table(ZOMBIE_TEX.as_slice()),
        TexTable::ZombieBaby => copy_table(ZOMBIE_BABY_TEX.as_slice()),
        TexTable::Husk => copy_table(HUSK_TEX.as_slice()),
        TexTable::HuskBaby => copy_table(HUSK_BABY_TEX.as_slice()),
        TexTable::Drowned => copy_table(DROWNED_TEX.as_slice()),
        TexTable::DrownedBaby => copy_table(DROWNED_BABY_TEX.as_slice()),
        TexTable::DrownedOuter => copy_table(DROWNED_OUTER_TEX.as_slice()),
        TexTable::DrownedOuterBaby => copy_table(DROWNED_OUTER_BABY_TEX.as_slice()),
        TexTable::ZombieVillager => copy_table(ZOMBIE_VILLAGER_TEX.as_slice()),
        TexTable::ZombieVillagerBaby => copy_table(ZOMBIE_VILLAGER_BABY_TEX.as_slice()),
        TexTable::ZombieVillagerType => copy_table(ZOMBIE_VILLAGER_TYPE_TEX.as_slice()),
        TexTable::ZombieVillagerBabyType => copy_table(ZOMBIE_VILLAGER_BABY_TYPE_TEX.as_slice()),
        TexTable::ZombieVillagerProfession => copy_table(ZOMBIE_VILLAGER_PROFESSION_TEX.as_slice()),
        TexTable::ZombieVillagerLevel => copy_table(ZOMBIE_VILLAGER_LEVEL_TEX.as_slice()),
        TexTable::Wolf => copy_table(WOLF_TEX.as_slice()),
        TexTable::WolfBaby => copy_table(WOLF_BABY_TEX.as_slice()),
        TexTable::WolfCollar => copy_table(WOLF_COLLAR_TEX.as_slice()),
        TexTable::WolfCollarBaby => copy_table(WOLF_COLLAR_BABY_TEX.as_slice()),
        TexTable::Cat => copy_table(CAT_TEX.as_slice()),
        TexTable::CatBaby => copy_table(CAT_BABY_TEX.as_slice()),
        TexTable::CatCollar => copy_table(CAT_COLLAR_TEX.as_slice()),
        TexTable::CatCollarBaby => copy_table(CAT_COLLAR_BABY_TEX.as_slice()),
        TexTable::Ocelot => copy_table(OCELOT_TEX.as_slice()),
        TexTable::OcelotBaby => copy_table(OCELOT_BABY_TEX.as_slice()),
        TexTable::Rabbit => copy_table(RABBIT_TEX.as_slice()),
        TexTable::RabbitBaby => copy_table(RABBIT_BABY_TEX.as_slice()),
        TexTable::Horse => copy_table(HORSE_TEX.as_slice()),
        TexTable::HorseBaby => copy_table(HORSE_BABY_TEX.as_slice()),
        TexTable::HorseMarkings => copy_table(HORSE_MARKINGS_TEX.as_slice()),
        TexTable::HorseMarkingsBaby => copy_table(HORSE_MARKINGS_BABY_TEX.as_slice()),
        TexTable::Donkey => copy_table(DONKEY_TEX.as_slice()),
        TexTable::DonkeyBaby => copy_table(DONKEY_BABY_TEX.as_slice()),
        TexTable::Mule => copy_table(MULE_TEX.as_slice()),
        TexTable::MuleBaby => copy_table(MULE_BABY_TEX.as_slice()),
        TexTable::SkeletonHorse => copy_table(SKELETON_HORSE_TEX.as_slice()),
        TexTable::SkeletonHorseBaby => copy_table(SKELETON_HORSE_BABY_TEX.as_slice()),
        TexTable::ZombieHorse => copy_table(ZOMBIE_HORSE_TEX.as_slice()),
        TexTable::ZombieHorseBaby => copy_table(ZOMBIE_HORSE_BABY_TEX.as_slice()),
        TexTable::Squid => copy_table(SQUID_TEX.as_slice()),
        TexTable::SquidBaby => copy_table(SQUID_BABY_TEX.as_slice()),
        TexTable::GlowSquid => copy_table(GLOW_SQUID_TEX.as_slice()),
        TexTable::GlowSquidBaby => copy_table(GLOW_SQUID_BABY_TEX.as_slice()),
        TexTable::Bat => copy_table(BAT_TEX.as_slice()),
        TexTable::Cod => copy_table(COD_TEX.as_slice()),
        TexTable::Salmon => copy_table(SALMON_TEX.as_slice()),
        TexTable::Pufferfish => copy_table(PUFFERFISH_TEX.as_slice()),
        TexTable::IronGolem => copy_table(IRON_GOLEM_TEX.as_slice()),
        TexTable::IronGolemCrackiness => copy_table(IRON_GOLEM_CRACKINESS_TEX.as_slice()),
        TexTable::TropicalA => copy_table(TROPICAL_A_TEX.as_slice()),
        TexTable::TropicalB => copy_table(TROPICAL_B_TEX.as_slice()),
        TexTable::TropicalAPattern => copy_table(TROPICAL_A_PATTERN_TEX.as_slice()),
        TexTable::TropicalBPattern => copy_table(TROPICAL_B_PATTERN_TEX.as_slice()),
        TexTable::Skeleton => copy_table(SKELETON_TEX.as_slice()),
        TexTable::Stray => copy_table(STRAY_TEX.as_slice()),
        TexTable::StrayOverlay => copy_table(STRAY_OVERLAY_TEX.as_slice()),
        TexTable::Bogged => copy_table(BOGGED_TEX.as_slice()),
        TexTable::BoggedOverlay => copy_table(BOGGED_OVERLAY_TEX.as_slice()),
        TexTable::Creeper => copy_table(CREEPER_TEX.as_slice()),
        TexTable::CreeperArmor => copy_table(CREEPER_ARMOR_TEX.as_slice()),
        TexTable::Spider => copy_table(SPIDER_TEX.as_slice()),
        TexTable::SpiderEyes => copy_table(SPIDER_EYES_TEX.as_slice()),
        TexTable::Enderman => copy_table(ENDERMAN_TEX.as_slice()),
        TexTable::EndermanEyes => copy_table(ENDERMAN_EYES_TEX.as_slice()),
        TexTable::Slime => copy_table(SLIME_TEX.as_slice()),
        TexTable::Witch => copy_table(WITCH_TEX.as_slice()),
        TexTable::Villager => copy_table(VILLAGER_TEX.as_slice()),
        TexTable::VillagerBaby => copy_table(VILLAGER_BABY_TEX.as_slice()),
        TexTable::VillagerType => copy_table(VILLAGER_TYPE_TEX.as_slice()),
        TexTable::VillagerBabyType => copy_table(VILLAGER_BABY_TYPE_TEX.as_slice()),
        TexTable::VillagerProfession => copy_table(VILLAGER_PROFESSION_TEX.as_slice()),
        TexTable::VillagerLevel => copy_table(VILLAGER_LEVEL_TEX.as_slice()),
        TexTable::HorseSaddle => copy_table(HORSE_SADDLE_TEX.as_slice()),
    }
}

/// The mobs and their animations, in definition order.
pub const MOB_ANIMS: [(EntityKind, AnimationType); 35] = [
    (EntityKind::Pig, AnimationType::Quadruped),
    (EntityKind::Cow, AnimationType::Quadruped),
    (EntityKind::Chicken, AnimationType::Chicken),
    (EntityKind::Sheep, AnimationType::Quadruped),
    (EntityKind::Player, AnimationType::Humanoid),
    (EntityKind::Zombie, AnimationType::Zombie),
    (EntityKind::Husk, AnimationType::Zombie),
    (EntityKind::Drowned, AnimationType::Zombie),
    (EntityKind::ZombieVillager, AnimationType::Zombie),
    (EntityKind::Skeleton, AnimationType::Skeleton),
    (EntityKind::Stray, AnimationType::Skeleton),
    (EntityKind::Bogged, AnimationType::Skeleton),
    (EntityKind::Creeper, AnimationType::Quadruped),
    (EntityKind::Villager, AnimationType::Villager),
    (EntityKind::Spider, AnimationType::Spider),
    (EntityKind::Enderman, AnimationType::Enderman),
    (EntityKind::Slime, AnimationType::Static),
    (EntityKind::Witch, AnimationType::Witch),
    (EntityKind::Wolf, AnimationType::Wolf),
    (EntityKind::Cat, AnimationType::Feline),
    (EntityKind::Ocelot, AnimationType::Feline),
    (EntityKind::Rabbit, AnimationType::Rabbit),
    (EntityKind::Horse, AnimationType::Equine),
    (EntityKind::Donkey, AnimationType::Equine),
    (EntityKind::Mule, AnimationType::Equine),
    (EntityKind::SkeletonHorse, AnimationType::Equine),
    (EntityKind::ZombieHorse, AnimationType::Equine),
    (EntityKind::Squid, AnimationType::Squid),
    (EntityKind::GlowSquid, AnimationType::Squid),
    (EntityKind::Bat, AnimationType::Bat),
    (EntityKind::Cod, AnimationType::Fish),
    (EntityKind::Salmon, AnimationType::Fish),
    (EntityKind::TropicalFish, AnimationType::Fish),
    (EntityKind::Pufferfish, AnimationType::Fish),
    (EntityKind::IronGolem, AnimationType::Golem),
];

/// Every variant definition: mob, layer, mesh, textures, texture size and pass,
/// in definition order.
pub const MOB_ROWS: [(EntityKind, Layer, ModelId, TexTable, u32, OverlayKind); 98] = [
    (
        EntityKind::Pig,
        Layer::Adult,
        ModelId::Pig,
        TexTable::PigAdult,
        64,
        OverlayKind::Opaque,
    ),
    (
        EntityKind::Pig,
        Layer::Baby,
        ModelId::BabyPig,
        TexTable::PigBaby,
        32,
        OverlayKind::Opaque,
    ),
    (
        EntityKind::Cow,
        Layer::Adult,
        ModelId::Cow,
        TexTable::CowAdult,
        64,
        OverlayKind::Opaque,
    ),
    (
        EntityKind::Cow,
        Layer::Baby,
        ModelId::BabyCow,
        TexTable::CowBaby,
        64,
        OverlayKind::Opaque,
    ),
    (
        EntityKind::Chicken,
        Layer::Adult,
        ModelId::Chicken,
        TexTable::ChickenNormal,
        64,
        OverlayKind::Opaque,
    ),
    (
        EntityKind::Chicken,
        Layer::Adult,
        ModelId::ColdChicken,
        TexTable::ChickenCold,
        64,
        OverlayKind::Opaque,
    ),
    (
        EntityKind::Chicken,
        Layer::Baby,
        ModelId::BabyChicken,
        TexTable::ChickenBaby,
        16,
        OverlayKind::Opaque,
    ),
    (
        EntityKind::Sheep,
        Layer::Adult,
        ModelId::Sheep,
        TexTable::SheepAdult,
        64,
        OverlayKind::Opaque,
    ),
    (
        EntityKind::Sheep,
        Layer::Baby,
        ModelId::BabySheep,
        TexTable::SheepBaby,
        64,
        OverlayKind::Opaque,
    ),
    (
        EntityKind::Sheep,
        Layer::AdultOverlay,
        ModelId::SheepWoolUndercoat,
        TexTable::SheepWoolUndercoat,
        64,
        OverlayKind::Opaque,
    ),
    (
        EntityKind::Sheep,
        Layer::AdultOverlay,
        ModelId::SheepWool,
        TexTable::SheepWool,
        64,
        OverlayKind::Opaque,
    ),
    (
        EntityKind::Sheep,
        Layer::BabyOverlay,
        ModelId::BabySheepWool,
        TexTable::SheepBabyWool,
        64,
        OverlayKind::Opaque,
    ),
    (
        EntityKind::Player,
        Layer::Adult,
        ModelId::PlayerWide,
        TexTable::Player,
        64,
        OverlayKind::Opaque,
    ),
    (
        EntityKind::Player,
        Layer::Adult,
        ModelId::PlayerSlim,
        TexTable::Player,
        64,
        OverlayKind::Opaque,
    ),
    (
        EntityKind::Zombie,
        Layer::Adult,
        ModelId::Zombie,
        TexTable::Zombie,
        64,
        OverlayKind::Opaque,
    ),
    (
        EntityKind::Zombie,
        Layer::Baby,
        ModelId::BabyZombie,
        TexTable::ZombieBaby,
        64,
        OverlayKind::Opaque,
    ),
    (
        EntityKind::Husk,
        Layer::Adult,
        ModelId::Husk,
        TexTable::Husk,
        64,
        OverlayKind::Opaque,
    ),
    (
        EntityKind::Husk,
        Layer::Baby,
        ModelId::BabyZombie,
        TexTable::HuskBaby,
        64,
        OverlayKind::Opaque,
    ),
    (
        EntityKind::Drowned,
        Layer::Adult,
        ModelId::Drowned,
        TexTable::Drowned,
        64,
        OverlayKind::Opaque,
    ),
    (
        EntityKind::Drowned,
        Layer::Baby,
        ModelId::BabyZombie,
        TexTable::DrownedBaby,
        64,
        OverlayKind::Opaque,
    ),
    (
        EntityKind::Drowned,
        Layer::AdultOverlay,
        ModelId::DrownedOuter,
        TexTable::DrownedOuter,
        64,
        OverlayKind::Opaque,
    ),
    (
        EntityKind::Drowned,
        Layer::BabyOverlay,
        ModelId::BabyDrownedOuter,
        TexTable::DrownedOuterBaby,
        64,
        OverlayKind::Opaque,
    ),
    (
        EntityKind::ZombieVillager,
        Layer::Adult,
        ModelId::ZombieVillager,
        TexTable::ZombieVillager,
        64,
        OverlayKind::Opaque,
    ),
    (
        EntityKind::ZombieVillager,
        Layer::Baby,
        ModelId::BabyZombieVillager,
        TexTable::ZombieVillagerBaby,
        64,
        OverlayKind::Opaque,
    ),
    (
        EntityKind::ZombieVillager,
        Layer::AdultOverlay,
        ModelId::ZombieVillager,
        TexTable::ZombieVillagerType,
        64,
        OverlayKind::Opaque,
    ),
    (
        EntityKind::ZombieVillager,
        Layer::AdultOverlay,
        ModelId::ZombieVillagerNoHat,
        TexTable::ZombieVillagerType,
        64,
        OverlayKind::Opaque,
    ),
    (
        EntityKind::ZombieVillager,
        Layer::AdultOverlay,
        ModelId::ZombieVillager,
        TexTable::ZombieVillagerProfession,
        64,
        OverlayKind::Opaque,
    ),
    (
        EntityKind::ZombieVillager,
        Layer::AdultOverlay,
        ModelId::ZombieVillager,
        TexTable::ZombieVillagerLevel,
        64,
        OverlayKind::Opaque,
    ),
    (
        EntityKind::ZombieVillager,
        Layer::BabyOverlay,
        ModelId::BabyZombieVillager,
        TexTable::ZombieVillagerBabyType,
        64,
        OverlayKind::Opaque,
    ),
    (
        EntityKind::ZombieVillager,
        Layer::BabyOverlay,
        ModelId::BabyZombieVillagerNoHat,
        TexTable::ZombieVillagerBabyType,
        64,
        OverlayKind::Opaque,
    ),
    (
        EntityKind::Skeleton,
        Layer::Adult,
        ModelId::Skeleton,
        TexTable::Skeleton,
        64,
        OverlayKind::Opaque,
    ),
    (
        EntityKind::Stray,
        Layer::Adult,
        ModelId::Skeleton,
        TexTable::Stray,
        64,
        OverlayKind::Opaque,
    ),
    (
        EntityKind::Stray,
        Layer::AdultOverlay,
        ModelId::SkeletonClothing,
        TexTable::StrayOverlay,
        64,
        OverlayKind::Opaque,
    ),
    (
        EntityKind::Bogged,
        Layer::Adult,
        ModelId::Bogged,
        TexTable::Bogged,
        64,
        OverlayKind::Opaque,
    ),
    (
        EntityKind::Bogged,
        Layer::Adult,
        ModelId::BoggedSheared,
        TexTable::Bogged,
        64,
        OverlayKind::Opaque,
    ),
    (
        EntityKind::Bogged,
        Layer::AdultOverlay,
        ModelId::BoggedClothing,
        TexTable::BoggedOverlay,
        64,
        OverlayKind::Opaque,
    ),
    (
        EntityKind::Creeper,
        Layer::Adult,
        ModelId::Creeper,
        TexTable::Creeper,
        64,
        OverlayKind::Opaque,
    ),
    (
        EntityKind::Creeper,
        Layer::AdultOverlay,
        ModelId::Creeper,
        TexTable::CreeperArmor,
        64,
        OverlayKind::SwirlAdditive,
    ),
    (
        EntityKind::Villager,
        Layer::Adult,
        ModelId::Villager,
        TexTable::Villager,
        64,
        OverlayKind::Opaque,
    ),
    (
        EntityKind::Villager,
        Layer::Baby,
        ModelId::BabyVillager,
        TexTable::VillagerBaby,
        64,
        OverlayKind::Opaque,
    ),
    (
        EntityKind::Villager,
        Layer::AdultOverlay,
        ModelId::Villager,
        TexTable::VillagerType,
        64,
        OverlayKind::Opaque,
    ),
    (
        EntityKind::Villager,
        Layer::AdultOverlay,
        ModelId::VillagerNoHat,
        TexTable::VillagerType,
        64,
        OverlayKind::Opaque,
    ),
    (
        EntityKind::Villager,
        Layer::AdultOverlay,
        ModelId::Villager,
        TexTable::VillagerProfession,
        64,
        OverlayKind::Opaque,
    ),
    (
        EntityKind::Villager,
        Layer::AdultOverlay,
        ModelId::Villager,
        TexTable::VillagerLevel,
        64,
        OverlayKind::Opaque,
    ),
    (
        EntityKind::Villager,
        Layer::BabyOverlay,
        ModelId::BabyVillager,
        TexTable::VillagerBabyType,
        64,
        OverlayKind::Opaque,
    ),
    (
        EntityKind::Villager,
        Layer::BabyOverlay,
        ModelId::BabyVillagerNoHat,
        TexTable::VillagerBabyType,
        64,
        OverlayKind::Opaque,
    ),
    (
        EntityKind::Spider,
        Layer::Adult,
        ModelId::Spider,
        TexTable::Spider,
        64,
        OverlayKind::Opaque,
    ),
    (
        EntityKind::Spider,
        Layer::AdultOverlay,
        ModelId::Spider,
        TexTable::SpiderEyes,
        64,
        OverlayKind::EyesTranslucent,
    ),
    (
        EntityKind::Enderman,
        Layer::Adult,
        ModelId::Enderman,
        TexTable::Enderman,
        64,
        OverlayKind::Opaque,
    ),
    (
        EntityKind::Enderman,
        Layer::AdultOverlay,
        ModelId::Enderman,
        TexTable::EndermanEyes,
        64,
        OverlayKind::EyesTranslucent,
    ),
    (
        EntityKind::Slime,
        Layer::Adult,
        ModelId::SlimeInner,
        TexTable::Slime,
        64,
        OverlayKind::Opaque,
    ),
    (
        EntityKind::Slime,
        Layer::AdultOverlay,
        ModelId::SlimeOuter,
        TexTable::Slime,
        64,
        OverlayKind::BodyTranslucent,
    ),
    (
        EntityKind::Witch,
        Layer::Adult,
        ModelId::Witch,
        TexTable::Witch,
        64,
        OverlayKind::Opaque,
    ),
    (
        EntityKind::Wolf,
        Layer::Adult,
        ModelId::Wolf,
        TexTable::Wolf,
        64,
        OverlayKind::Opaque,
    ),
    (
        EntityKind::Wolf,
        Layer::Baby,
        ModelId::BabyWolf,
        TexTable::WolfBaby,
        32,
        OverlayKind::Opaque,
    ),
    (
        EntityKind::Wolf,
        Layer::AdultOverlay,
        ModelId::WolfCollar,
        TexTable::WolfCollar,
        64,
        OverlayKind::Opaque,
    ),
    (
        EntityKind::Wolf,
        Layer::BabyOverlay,
        ModelId::BabyWolf,
        TexTable::WolfCollarBaby,
        32,
        OverlayKind::Opaque,
    ),
    (
        EntityKind::Cat,
        Layer::Adult,
        ModelId::Cat,
        TexTable::Cat,
        64,
        OverlayKind::Opaque,
    ),
    (
        EntityKind::Cat,
        Layer::Baby,
        ModelId::BabyCat,
        TexTable::CatBaby,
        32,
        OverlayKind::Opaque,
    ),
    (
        EntityKind::Cat,
        Layer::AdultOverlay,
        ModelId::CatCollar,
        TexTable::CatCollar,
        64,
        OverlayKind::Opaque,
    ),
    (
        EntityKind::Cat,
        Layer::BabyOverlay,
        ModelId::BabyCatCollar,
        TexTable::CatCollarBaby,
        32,
        OverlayKind::Opaque,
    ),
    (
        EntityKind::Ocelot,
        Layer::Adult,
        ModelId::Ocelot,
        TexTable::Ocelot,
        64,
        OverlayKind::Opaque,
    ),
    (
        EntityKind::Ocelot,
        Layer::Baby,
        ModelId::BabyOcelot,
        TexTable::OcelotBaby,
        32,
        OverlayKind::Opaque,
    ),
    (
        EntityKind::Rabbit,
        Layer::Adult,
        ModelId::Rabbit,
        TexTable::Rabbit,
        64,
        OverlayKind::Opaque,
    ),
    (
        EntityKind::Rabbit,
        Layer::Baby,
        ModelId::BabyRabbit,
        TexTable::RabbitBaby,
        32,
        OverlayKind::Opaque,
    ),
    (
        EntityKind::Horse,
        Layer::Adult,
        ModelId::Horse,
        TexTable::Horse,
        64,
        OverlayKind::Opaque,
    ),
    (
        EntityKind::Horse,
        Layer::Baby,
        ModelId::BabyHorse,
        TexTable::HorseBaby,
        64,
        OverlayKind::Opaque,
    ),
    (
        EntityKind::Horse,
        Layer::AdultOverlay,
        ModelId::Horse,
        TexTable::HorseMarkings,
        64,
        OverlayKind::BodyTranslucent,
    ),
    (
        EntityKind::Horse,
        Layer::AdultOverlay,
        ModelId::HorseSaddle,
        TexTable::HorseSaddle,
        64,
        OverlayKind::Opaque,
    ),
    (
        EntityKind::Horse,
        Layer::BabyOverlay,
        ModelId::BabyHorse,
        TexTable::HorseMarkingsBaby,
        64,
        OverlayKind::BodyTranslucent,
    ),
    (
        EntityKind::Donkey,
        Layer::Adult,
        ModelId::Donkey,
        TexTable::Donkey,
        64,
        OverlayKind::Opaque,
    ),
    (
        EntityKind::Donkey,
        Layer::Adult,
        ModelId::DonkeyWithChest,
        TexTable::Donkey,
        64,
        OverlayKind::Opaque,
    ),
    (
        EntityKind::Donkey,
        Layer::Baby,
        ModelId::BabyDonkey,
        TexTable::DonkeyBaby,
        64,
        OverlayKind::Opaque,
    ),
    (
        EntityKind::Mule,
        Layer::Adult,
        ModelId::Mule,
        TexTable::Mule,
        64,
        OverlayKind::Opaque,
    ),
    (
        EntityKind::Mule,
        Layer::Adult,
        ModelId::MuleWithChest,
        TexTable::Mule,
        64,
        OverlayKind::Opaque,
    ),
    (
        EntityKind::Mule,
        Layer::Baby,
        ModelId::BabyDonkey,
        TexTable::MuleBaby,
        64,
        OverlayKind::Opaque,
    ),
    (
        EntityKind::SkeletonHorse,
        Layer::Adult,
        ModelId::UndeadHorse,
        TexTable::SkeletonHorse,
        64,
        OverlayKind::Opaque,
    ),
    (
        EntityKind::SkeletonHorse,
        Layer::Baby,
        ModelId::BabyHorse,
        TexTable::SkeletonHorseBaby,
        64,
        OverlayKind::Opaque,
    ),
    (
        EntityKind::ZombieHorse,
        Layer::Adult,
        ModelId::UndeadHorse,
        TexTable::ZombieHorse,
        64,
        OverlayKind::Opaque,
    ),
    (
        EntityKind::ZombieHorse,
        Layer::Baby,
        ModelId::BabyHorse,
        TexTable::ZombieHorseBaby,
        64,
        OverlayKind::Opaque,
    ),
    (
        EntityKind::Squid,
        Layer::Adult,
        ModelId::Squid,
        TexTable::Squid,
        64,
        OverlayKind::Opaque,
    ),
    (
        EntityKind::Squid,
        Layer::Baby,
        ModelId::BabySquid,
        TexTable::SquidBaby,
        32,
        OverlayKind::Opaque,
    ),
    (
        EntityKind::GlowSquid,
        Layer::Adult,
        ModelId::Squid,
        TexTable::GlowSquid,
        64,
        OverlayKind::Opaque,
    ),
    (
        EntityKind::GlowSquid,
        Layer::Baby,
        ModelId::BabySquid,
        TexTable::GlowSquidBaby,
        32,
        OverlayKind::Opaque,
    ),
    (
        EntityKind::Bat,
        Layer::Adult,
        ModelId::Bat,
        TexTable::Bat,
        32,
        OverlayKind::OpaqueCulled,
    ),
    (
        EntityKind::Cod,
        Layer::Adult,
        ModelId::Cod,
        TexTable::Cod,
        32,
        OverlayKind::Opaque,
    ),
    (
        EntityKind::Salmon,
        Layer::Adult,
        ModelId::SalmonSmall,
        TexTable::Salmon,
        32,
        OverlayKind::Opaque,
    ),
    (
        EntityKind::Salmon,
        Layer::Adult,
        ModelId::SalmonMedium,
        TexTable::Salmon,
        32,
        OverlayKind::Opaque,
    ),
    (
        EntityKind::Salmon,
        Layer::Adult,
        ModelId::SalmonLarge,
        TexTable::Salmon,
        32,
        OverlayKind::Opaque,
    ),
    (
        EntityKind::TropicalFish,
        Layer::Adult,
        ModelId::TropicalFishSmall,
        TexTable::TropicalA,
        32,
        OverlayKind::Opaque,
    ),
    (
        EntityKind::TropicalFish,
        Layer::Adult,
        ModelId::TropicalFishLarge,
        TexTable::TropicalB,
        32,
        OverlayKind::Opaque,
    ),
    (
        EntityKind::TropicalFish,
        Layer::AdultOverlay,
        ModelId::TropicalFishSmallPattern,
        TexTable::TropicalAPattern,
        32,
        OverlayKind::Opaque,
    ),
    (
        EntityKind::TropicalFish,
        Layer::AdultOverlay,
        ModelId::TropicalFishLargePattern,
        TexTable::TropicalBPattern,
        32,
        OverlayKind::Opaque,
    ),
    (
        EntityKind::Pufferfish,
        Layer::Adult,
        ModelId::PufferfishSmall,
        TexTable::Pufferfish,
        32,
        OverlayKind::Opaque,
    ),
    (
        EntityKind::Pufferfish,
        Layer::Adult,
        ModelId::PufferfishMedium,
        TexTable::Pufferfish,
        32,
        OverlayKind::Opaque,
    ),
    (
        EntityKind::Pufferfish,
        Layer::Adult,
        ModelId::PufferfishLarge,
        TexTable::Pufferfish,
        32,
        OverlayKind::Opaque,
    ),
    (
        EntityKind::IronGolem,
        Layer::Adult,
        ModelId::IronGolem,
        TexTable::IronGolem,
        128,
        OverlayKind::Opaque,
    ),
    (
        EntityKind::IronGolem,
        Layer::AdultOverlay,
        ModelId::IronGolem,
        TexTable::IronGolemCrackiness,
        128,
        OverlayKind::Opaque,
    ),
];

fn copy_table(table: &[&'static str]) -> (list: Vec<&'static str>)
    ensures
        list@ == table@,
{
    let mut list: Vec<&'static str> = Vec::new();
    let mut i: usize = 0;
    while i < table.len()
        invariant
            i <= table@.len(),
            list@ == table@.take(i as int),
        decreases table@.len() - i,
    {
        list.push(table[i]);
        i = i + 1;
        assert(list@ =~= table@.take(i as int));
    }
    assert(table@.take(table@.len() as int) =~= table@);
    list
}

/// The asset to try where `key` is missing.
pub fn fallback_key(key: &str) -> (other: Option<&'static str>)
    ensures
        match other {
            Some(o) => exists|i: int|
                0 <= i < FALLBACK_KEYS@.len() && (#[trigger] FALLBACK_KEYS[i]).0@ == key@
                    && FALLBACK_KEYS[i].1@ == o@,
            None => forall|i: int|
                0 <= i < FALLBACK_KEYS@.len() ==> (#[trigger] FALLBACK_KEYS[i]).0@ != key@,
        },
{
    let table = FALLBACK_KEYS;
    let mut i: usize = 0;
    while i < table.len()
        invariant
            table == FALLBACK_KEYS,
            i <= table@.len(),
            forall|j: int| 0 <= j < i ==> (#[trigger] FALLBACK_KEYS[j]).0@ != key@,
        decreases table@.len() - i,
    {
        if crate::text::same_text(table[i].0, key) {
            return Some(table[i].1);
        }
        i = i + 1;
    }
    None
}

/// One mesh with its texture list.
#[derive(Clone, Copy, Debug, PartialEq, Eq, Structural)]
pub struct VariantDef {
    pub model: ModelId,
    pub textures: TexTable,
    pub tex_size: u32,
    pub overlay_kind: OverlayKind,
}

/// Everything one mob is drawn with.
pub struct MobDef {
    pub kind: EntityKind,
    pub anim: AnimationType,
    pub adult: Vec<VariantDef>,
    pub baby: Option<VariantDef>,
    pub adult_overlays: Vec<VariantDef>,
    pub baby_overlays: Vec<VariantDef>,
}

/// A row's definition.
pub open spec fn row_def(i: int) -> VariantDef {
    VariantDef {
        model: MOB_ROWS[i].2,
        textures: MOB_ROWS[i].3,
        tex_size: MOB_ROWS[i].4,
        overlay_kind: MOB_ROWS[i].5,
    }
}

/// The definitions of one layer of a mob among the first `n` rows.
pub open spec fn layer_rows(kind: EntityKind, layer: Layer, n: int) -> Seq<VariantDef>
    decreases n,
{
    if n <= 0 {
        Seq::empty()
    } else if MOB_ROWS[n - 1].0 == kind && MOB_ROWS[n - 1].1 == layer {
        layer_rows(kind, layer, n - 1).push(row_def(n - 1))
    } else {
        layer_rows(kind, layer, n - 1)
    }
}

/// The definitions of one layer of a mob.
pub open spec fn layer_of(kind: EntityKind, layer: Layer) -> Seq<VariantDef> {
    layer_rows(kind, layer, 98)
}

fn layer_defs(kind: EntityKind, layer: Layer) -> (defs: Vec<VariantDef>)
    ensures
        defs@ == layer_of(kind, layer),
{
    let rows = MOB_ROWS;
    let mut defs: Vec<VariantDef> = Vec::new();
    let mut i: usize = 0;
    while i < 98
        invariant
            i <= 98,
            rows == MOB_ROWS,
            defs@ == layer_rows(kind, layer, i as int),
        decreases 98 - i,
    {
        if rows[i].0 == kind && rows[i].1 == layer {
            defs.push(
                VariantDef {
                    model: rows[i].2,
                    textures: rows[i].3,
                    tex_size: rows[i].4,
                    overlay_kind: rows[i].5,
                },
            );
        }
        i = i + 1;
    }
    defs
}

/// What the definition of the `i`-th mob holds.
pub open spec fn is_definition(def: MobDef, i: int) -> bool {
    let kind = MOB_ANIMS[i].0;
    &&& def.kind == kind
    &&& def.anim == MOB_ANIMS[i].1
    &&& def.adult@ == layer_of(kind, Layer::Adult)
    &&& def.adult_overlays@ == layer_of(kind, Layer::AdultOverlay)
    &&& def.baby_overlays@ == layer_of(kind, Layer::BabyOverlay)
    &&& match def.baby {
        Some(baby) => layer_of(kind, Layer::Baby).len() > 0 && baby == layer_of(kind, Layer::Baby)[0],
        None => layer_of(kind, Layer::Baby).len() == 0,
    }
}

pub fn mob_definitions() -> (defs: Vec<MobDef>)
    ensures
        defs@.len() == 35,
        forall|i: int| 0 <= i < 35 ==> is_definition(#[trigger] defs@[i], i),
{
    let mobs = MOB_ANIMS;
    let mut defs: Vec<MobDef> = Vec::new();
    let mut i: usize = 0;
    while i < 35
        invariant
            i <= 35,
            mobs == MOB_ANIMS,
            defs@.len() == i,
            forall|j: int| 0 <= j < i ==> is_definition(#[trigger] defs@[j], j),
        decreases 35 - i,
    {
        let kind = mobs[i].0;
        let babies = layer_defs(kind, Layer::Baby);
        let baby = if babies.len() > 0 {
            Some(babies[0])
        } else {
            None
        };
        defs.push(
            MobDef {
                kind,
                anim: mobs[i].1,
                adult: layer_defs(kind, Layer::Adult),
                baby,
                adult_overlays: layer_defs(kind, Layer::AdultOverlay),
                baby_overlays: layer_defs(kind, Layer::BabyOverlay),
            },
        );
        i = i + 1;
    }
    defs
}

/// The place of a mob in the definitions.
pub open spec fn mob_number(kind: EntityKind) -> int {
    match kind {
        EntityKind::Pig => 0,
        EntityKind::Cow => 1,
        EntityKind::Chicken => 2,
        EntityKind::Sheep => 3,
        EntityKind::Player => 4,
        EntityKind::Zombie => 5,
        EntityKind::Husk => 6,
        EntityKind::Drowned => 7,
        EntityKind::ZombieVillager => 8,
        EntityKind::Skeleton => 9,
        EntityKind::Stray => 10,
        EntityKind::Bogged => 11,
        EntityKind::Creeper => 12,
        EntityKind::Villager => 13,
        EntityKind::Spider => 14,
        EntityKind::Enderman => 15,
        EntityKind::Slime => 16,
        EntityKind::Witch => 17,
        EntityKind::Wolf => 18,
        EntityKind::Cat => 19,
        EntityKind::Ocelot => 20,
        EntityKind::Rabbit => 21,
        EntityKind::Horse => 22,
        EntityKind::Donkey => 23,
        EntityKind::Mule => 24,
        EntityKind::SkeletonHorse => 25,
        EntityKind::ZombieHorse => 26,
        EntityKind::Squid => 27,
        EntityKind::GlowSquid => 28,
        EntityKind::Bat => 29,
        EntityKind::Cod => 30,
        EntityKind::Salmon => 31,
        EntityKind::TropicalFish => 32,
        EntityKind::Pufferfish => 33,
        EntityKind::IronGolem => 34,
        _ => -1,
    }
}

pub proof fn lemma_number_range(kind: EntityKind)
    ensures
        -1 <= mob_number(kind) < 35,
{
}

pub proof fn lemma_number_names_kind(a: EntityKind, b: EntityKind)
    requires
        mob_number(a) == mob_number(b),
        mob_number(a) >= 0,
    ensures
        a == b,
{
}

/// No mob is defined twice.
pub proof fn law_mobs_are_distinct(i: int, j: int)
    requires
        0 <= i < j < 35,
    ensures
        MOB_ANIMS[i].0 != MOB_ANIMS[j].0,
{
    lemma_mob_numbers(i);
    lemma_mob_numbers(j);
}

proof fn lemma_mob_numbers(i: int)
    requires
        0 <= i < 35,
    ensures
        mob_number(MOB_ANIMS[i].0) == i,
{
    assert(MOB_ANIMS[0].0 == EntityKind::Pig);
    assert(MOB_ANIMS[1].0 == EntityKind::Cow);
    assert(MOB_ANIMS[2].0 == EntityKind::Chicken);
    assert(MOB_ANIMS[3].0 == EntityKind::Sheep);
    assert(MOB_ANIMS[4].0 == EntityKind::Player);
    assert(MOB_ANIMS[5].0 == EntityKind::Zombie);
    assert(MOB_ANIMS[6].0 == EntityKind::Husk);
    assert(MOB_ANIMS[7].0 == EntityKind::Drowned);
    assert(MOB_ANIMS[8].0 == EntityKind::ZombieVillager);
    assert(MOB_ANIMS[9].0 == EntityKind::Skeleton);
    assert(MOB_ANIMS[10].0 == EntityKind::Stray);
    assert(MOB_ANIMS[11].0 == EntityKind::Bogged);
    assert(MOB_ANIMS[12].0 == EntityKind::Creeper);
    assert(MOB_ANIMS[13].0 == EntityKind::Villager);
    assert(MOB_ANIMS[14].0 == EntityKind::Spider);
    assert(MOB_ANIMS[15].0 == EntityKind::Enderman);
    assert(MOB_ANIMS[16].0 == EntityKind::Slime);
    assert(MOB_ANIMS[17].0 == EntityKind::Witch);
    assert(MOB_ANIMS[18].0 == EntityKind::Wolf);
    assert(MOB_ANIMS[19].0 == EntityKind::Cat);
    assert(MOB_ANIMS[20].0 == EntityKind::Ocelot);
    assert(MOB_ANIMS[21].0 == EntityKind::Rabbit);
    assert(MOB_ANIMS[22].0 == EntityKind::Horse);
    assert(MOB_ANIMS[23].0 == EntityKind::Donkey);
    assert(MOB_ANIMS[24].0 == EntityKind::Mule);
    assert(MOB_ANIMS[25].0 == EntityKind::SkeletonHorse);
    assert(MOB_ANIMS[26].0 == EntityKind::ZombieHorse);
    assert(MOB_ANIMS[27].0 == EntityKind::Squid);
    assert(MOB_ANIMS[28].0 == EntityKind::GlowSquid);
    assert(MOB_ANIMS[29].0 == EntityKind::Bat);
    assert(MOB_ANIMS[30].0 == EntityKind::Cod);
    assert(MOB_ANIMS[31].0 == EntityKind::Salmon);
    assert(MOB_ANIMS[32].0 == EntityKind::TropicalFish);
    assert(MOB_ANIMS[33].0 == EntityKind::Pufferfish);
    assert(MOB_ANIMS[34].0 == EntityKind::IronGolem);
}

/// Texture variants of the definitions in a list.
pub open spec fn texture_total(defs: Seq<VariantDef>) -> nat
    decreases defs.len(),
{
    if defs.len() == 0 {
        0
    } else {
        texture_total(defs.drop_last()) + table_of(defs.last().textures).len()
    }
}

pub const CHICKEN_VARIANT_ORDER: [&'static str; 3] = ["temperate", "warm", "cold"];

pub const COW_VARIANT_ORDER: [&'static str; 3] = ["temperate", "cold", "warm"];

/// Each wolf variant has three state textures: wild, tame, angry.
pub const WOLF_VARIANT_ORDER: [&'static str; 9] = [
    "pale",
    "spotted",
    "snowy",
    "black",
    "ashen",
    "rusty",
    "woods",
    "chestnut",
    "striped",
];

pub const CAT_VARIANT_ORDER: [&'static str; 11] = [
    "all_black",
    "black",
    "british_shorthair",
    "calico",
    "jellie",
    "persian",
    "ragdoll",
    "red",
    "siamese",
    "tabby",
    "white",
];

/// Pool length a variant order asks for, for mobs whose variant index comes
/// from a synced registry.
pub open spec fn expected_count(kind: EntityKind) -> Option<nat> {
    match kind {
        EntityKind::Chicken => Some(CHICKEN_VARIANT_ORDER@.len()),
        EntityKind::Cow => Some(COW_VARIANT_ORDER@.len()),
        EntityKind::Wolf => Some(WOLF_VARIANT_ORDER@.len() * 3),
        EntityKind::Cat => Some(CAT_VARIANT_ORDER@.len()),
        _ => None,
    }
}

pub fn expected_variant_count(kind: EntityKind) -> (count: Option<usize>)
    ensures
        match count {
            Some(n) => expected_count(kind) == Some(n as nat),
            None => expected_count(kind) is None,
        },
{
    match kind {
        EntityKind::Chicken => Some(CHICKEN_VARIANT_ORDER.len()),
        EntityKind::Cow => Some(COW_VARIANT_ORDER.len()),
        EntityKind::Wolf => Some(WOLF_VARIANT_ORDER.len() * 3),
        EntityKind::Cat => Some(CAT_VARIANT_ORDER.len()),
        _ => None,
    }
}

/// Which mob a row belongs to: rows of one mob stand together.
pub open spec fn row_mob(i: int) -> int {
    if i < 2 {
        0
    } else if i < 4 {
        1
    } else if i < 7 {
        2
    } else if i < 12 {
        3
    } else if i < 14 {
        4
    } else if i < 16 {
        5
    } else if i < 18 {
        6
    } else if i < 22 {
        7
    } else if i < 30 {
        8
    } else if i < 31 {
        9
    } else if i < 33 {
        10
    } else if i < 36 {
        11
    } else if i < 38 {
        12
    } else if i < 46 {
        13
    } else if i < 48 {
        14
    } else if i < 50 {
        15
    } else if i < 52 {
        16
    } else if i < 53 {
        17
    } else if i < 57 {
        18
    } else if i < 61 {
        19
    } else if i < 63 {
        20
    } else if i < 65 {
        21
    } else if i < 70 {
        22
    } else if i < 73 {
        23
    } else if i < 76 {
        24
    } else if i < 78 {
        25
    } else if i < 80 {
        26
    } else if i < 82 {
        27
    } else if i < 84 {
        28
    } else if i < 85 {
        29
    } else if i < 86 {
        30
    } else if i < 89 {
        31
    } else if i < 93 {
        32
    } else if i < 96 {
        33
    } else {
        34
    }
}

proof fn lemma_row_mobs(i: int)
    requires
        0 <= i < 98,
    ensures
        mob_number(MOB_ROWS[i].0) == row_mob(i),
{
    assert(MOB_ROWS[0].0 == EntityKind::Pig);
    assert(MOB_ROWS[1].0 == EntityKind::Pig);
    assert(MOB_ROWS[2].0 == EntityKind::Cow);
    assert(MOB_ROWS[3].0 == EntityKind::Cow);
    assert(MOB_ROWS[4].0 == EntityKind::Chicken);
    assert(MOB_ROWS[5].0 == EntityKind::Chicken);
    assert(MOB_ROWS[6].0 == EntityKind::Chicken);
    assert(MOB_ROWS[7].0 == EntityKind::Sheep);
    assert(MOB_ROWS[8].0 == EntityKind::Sheep);
    assert(MOB_ROWS[9].0 == EntityKind::Sheep);
    assert(MOB_ROWS[10].0 == EntityKind::Sheep);
    assert(MOB_ROWS[11].0 == EntityKind::Sheep);
    assert(MOB_ROWS[12].0 == EntityKind::Player);
    assert(MOB_ROWS[13].0 == EntityKind::Player);
    assert(MOB_ROWS[14].0 == EntityKind::Zombie);
    assert(MOB_ROWS[15].0 == EntityKind::Zombie);
    assert(MOB_ROWS[16].0 == EntityKind::Husk);
    assert(MOB_ROWS[17].0 == EntityKind::Husk);
    assert(MOB_ROWS[18].0 == EntityKind::Drowned);
    assert(MOB_ROWS[19].0 == EntityKind::Drowned);
    assert(MOB_ROWS[20].0 == EntityKind::Drowned);
    assert(MOB_ROWS[21].0 == EntityKind::Drowned);
    assert(MOB_ROWS[22].0 == EntityKind::ZombieVillager);
    assert(MOB_ROWS[23].0 == EntityKind::ZombieVillager);
    assert(MOB_ROWS[24].0 == EntityKind::ZombieVillager);
    assert(MOB_ROWS[25].0 == EntityKind::ZombieVillager);
    assert(MOB_ROWS[26].0 == EntityKind::ZombieVillager);
    assert(MOB_ROWS[27].0 == EntityKind::ZombieVillager);
    assert(MOB_ROWS[28].0 == EntityKind::ZombieVillager);
    assert(MOB_ROWS[29].0 == EntityKind::ZombieVillager);
    assert(MOB_ROWS[30].0 == EntityKind::Skeleton);
    assert(MOB_ROWS[31].0 == EntityKind::Stray);
    assert(MOB_ROWS[32].0 == EntityKind::Stray);
    assert(MOB_ROWS[33].0 == EntityKind::Bogged);
    assert(MOB_ROWS[34].0 == EntityKind::Bogged);
    assert(MOB_ROWS[35].0 == EntityKind::Bogged);
    assert(MOB_ROWS[36].0 == EntityKind::Creeper);
    assert(MOB_ROWS[37].0 == EntityKind::Creeper);
    assert(MOB_ROWS[38].0 == EntityKind::Villager);
    assert(MOB_ROWS[39].0 == EntityKind::Villager);
    assert(MOB_ROWS[40].0 == EntityKind::Villager);
    assert(MOB_ROWS[41].0 == EntityKind::Villager);
    assert(MOB_ROWS[42].0 == EntityKind::Villager);
    assert(MOB_ROWS[43].0 == EntityKind::Villager);
    assert(MOB_ROWS[44].0 == EntityKind::Villager);
    assert(MOB_ROWS[45].0 == EntityKind::Villager);
    assert(MOB_ROWS[46].0 == EntityKind::Spider);
    assert(MOB_ROWS[47].0 == EntityKind::Spider);
    assert(MOB_ROWS[48].0 == EntityKind::Enderman);
    assert(MOB_ROWS[49].0 == EntityKind::Enderman);
    assert(MOB_ROWS[50].0 == EntityKind::Slime);
    assert(MOB_ROWS[51].0 == EntityKind::Slime);
    assert(MOB_ROWS[52].0 == EntityKind::Witch);
    assert(MOB_ROWS[53].0 == EntityKind::Wolf);
    assert(MOB_ROWS[54].0 == EntityKind::Wolf);
    assert(MOB_ROWS[55].0 == EntityKind::Wolf);
    assert(MOB_ROWS[56].0 == EntityKind::Wolf);
    assert(MOB_ROWS[57].0 == EntityKind::Cat);
    assert(MOB_ROWS[58].0 == EntityKind::Cat);
    assert(MOB_ROWS[59].0 == EntityKind::Cat);
    assert(MOB_ROWS[60].0 == EntityKind::Cat);
    assert(MOB_ROWS[61].0 == EntityKind::Ocelot);
    assert(MOB_ROWS[62].0 == EntityKind::Ocelot);
    assert(MOB_ROWS[63].0 == EntityKind::Rabbit);
    assert(MOB_ROWS[64].0 == EntityKind::Rabbit);
    assert(MOB_ROWS[65].0 == EntityKind::Horse);
    assert(MOB_ROWS[66].0 == EntityKind::Horse);
    assert(MOB_ROWS[67].0 == EntityKind::Horse);
    assert(MOB_ROWS[68].0 == EntityKind::Horse);
    assert(MOB_ROWS[69].0 == EntityKind::Horse);
    assert(MOB_ROWS[70].0 == EntityKind::Donkey);
    assert(MOB_ROWS[71].0 == EntityKind::Donkey);
    assert(MOB_ROWS[72].0 == EntityKind::Donkey);
    assert(MOB_ROWS[73].0 == EntityKind::Mule);
    assert(MOB_ROWS[74].0 == EntityKind::Mule);
    assert(MOB_ROWS[75].0 == EntityKind::Mule);
    assert(MOB_ROWS[76].0 == EntityKind::SkeletonHorse);
    assert(MOB_ROWS[77].0 == EntityKind::SkeletonHorse);
    assert(MOB_ROWS[78].0 == EntityKind::ZombieHorse);
    assert(MOB_ROWS[79].0 == EntityKind::ZombieHorse);
    assert(MOB_ROWS[80].0 == EntityKind::Squid);
    assert(MOB_ROWS[81].0 == EntityKind::Squid);
    assert(MOB_ROWS[82].0 == EntityKind::GlowSquid);
    assert(MOB_ROWS[83].0 == EntityKind::GlowSquid);
    assert(MOB_ROWS[84].0 == EntityKind::Bat);
    assert(MOB_ROWS[85].0 == EntityKind::Cod);
    assert(MOB_ROWS[86].0 == EntityKind::Salmon);
    assert(MOB_ROWS[87].0 == EntityKind::Salmon);
    assert(MOB_ROWS[88].0 == EntityKind::Salmon);
    assert(MOB_ROWS[89].0 == EntityKind::TropicalFish);
    assert(MOB_ROWS[90].0 == EntityKind::TropicalFish);
    assert(MOB_ROWS[91].0 == EntityKind::TropicalFish);
    assert(MOB_ROWS[92].0 == EntityKind::TropicalFish);
    assert(MOB_ROWS[93].0 == EntityKind::Pufferfish);
    assert(MOB_ROWS[94].0 == EntityKind::Pufferfish);
    assert(MOB_ROWS[95].0 == EntityKind::Pufferfish);
    assert(MOB_ROWS[96].0 == EntityKind::IronGolem);
    assert(MOB_ROWS[97].0 == EntityKind::IronGolem);
}

proof fn lemma_other_rows(kind: EntityKind, layer: Layer, from: int, to: int)
    requires
        0 <= from <= to <= 98,
        forall|i: int| from <= i < to ==> #[trigger] row_mob(i) != mob_number(kind),
    ensures
        layer_rows(kind, layer, to) == layer_rows(kind, layer, from),
    decreases to - from,
{
    if from < to {
        lemma_row_mobs(to - 1);
        assert(row_mob(to - 1) != mob_number(kind));
        lemma_other_rows(kind, layer, from, to - 1);
    }
}

/// The pools of registry-driven mobs are as long as their variant orders say.
pub proof fn law_registry_pools_line_up(kind: EntityKind)
    requires
        expected_count(kind) is Some,
    ensures
        texture_total(layer_of(kind, Layer::Adult)) == expected_count(kind)->0,
{
    reveal_with_fuel(texture_total, 3);
    match kind {
        EntityKind::Chicken => {
            lemma_other_rows(kind, Layer::Adult, 0, 4);
            assert(layer_rows(kind, Layer::Adult, 5) =~= seq![row_def(4)]);
            assert(layer_rows(kind, Layer::Adult, 6) =~= seq![row_def(4), row_def(5)]);
            assert(layer_rows(kind, Layer::Adult, 7) =~= seq![row_def(4), row_def(5)]);
            lemma_other_rows(kind, Layer::Adult, 7, 98);
            let pool = layer_of(kind, Layer::Adult);
            assert(pool =~= seq![row_def(4), row_def(5)]);
            assert(pool.drop_last() =~= seq![row_def(4)]);
            assert(pool.drop_last().drop_last() =~= Seq::empty());
        },
        EntityKind::Cow => {
            lemma_other_rows(kind, Layer::Adult, 0, 2);
            assert(layer_rows(kind, Layer::Adult, 3) =~= seq![row_def(2)]);
            assert(layer_rows(kind, Layer::Adult, 4) =~= seq![row_def(2)]);
            lemma_other_rows(kind, Layer::Adult, 4, 98);
            let pool = layer_of(kind, Layer::Adult);
            assert(pool =~= seq![row_def(2)]);
            assert(pool.drop_last() =~= Seq::empty());
        },
        EntityKind::Wolf => {
            lemma_other_rows(kind, Layer::Adult, 0, 53);
            assert(layer_rows(kind, Layer::Adult, 54) =~= seq![row_def(53)]);
            assert(layer_rows(kind, Layer::Adult, 55) =~= seq![row_def(53)]);
            assert(layer_rows(kind, Layer::Adult, 56) =~= seq![row_def(53)]);
            assert(layer_rows(kind, Layer::Adult, 57) =~= seq![row_def(53)]);
            lemma_other_rows(kind, Layer::Adult, 57, 98);
            let pool = layer_of(kind, Layer::Adult);
            assert(pool =~= seq![row_def(53)]);
            assert(pool.drop_last() =~= Seq::empty());
        },
        EntityKind::Cat => {
            lemma_other_rows(kind, Layer::Adult, 0, 57);
            assert(layer_rows(kind, Layer::Adult, 58) =~= seq![row_def(57)]);
            assert(layer_rows(kind, Layer::Adult, 59) =~= seq![row_def(57)]);
            assert(layer_rows(kind, Layer::Adult, 60) =~= seq![row_def(57)]);
            assert(layer_rows(kind, Layer::Adult, 61) =~= seq![row_def(57)]);
            lemma_other_rows(kind, Layer::Adult, 61, 98);
            let pool = layer_of(kind, Layer::Adult);
            assert(pool =~= seq![row_def(57)]);
            assert(pool.drop_last() =~= Seq::empty());
        },
        _ => {},
    }
}

/// A layer of a mob has the definitions of its rows, in their order, and none of another
/// mob or layer.
pub proof fn law_layers_hold_their_rows(kind: EntityKind, layer: Layer, n: int, i: int)
    requires
        0 <= n < 98,
    ensures
        layer_rows(kind, layer, 0).len() == 0,
        layer_of(kind, layer) == layer_rows(kind, layer, 98),
        ({
            let before = layer_rows(kind, layer, n);
            let after = layer_rows(kind, layer, n + 1);
            let row = MOB_ROWS[n];
            &&& row.0 != kind || row.1 != layer ==> after == before
            &&& row.0 == kind && row.1 == layer ==> {
                let last = after.last();
                &&& after.len() == before.len() + 1
                &&& 0 <= i < before.len() ==> after[i] == before[i]
                &&& (last.model, last.textures, last.tex_size, last.overlay_kind) == (
                    row.2,
                    row.3,
                    row.4,
                    row.5,
                )
            }
        }),
{
}

/// A pool of textures grows by those of each definition.
pub proof fn law_pools_add_up(defs: Seq<VariantDef>, def: VariantDef)
    ensures
        texture_total(Seq::<VariantDef>::empty()) == 0,
        texture_total(defs.push(def)) == texture_total(defs) + table_of(def.textures).len(),
{
    assert(defs.push(def).drop_last() =~= defs);
}

/// Of the mobs whose variant comes from a registry chickens and cows have three, cats
/// eleven, and wolves nine in three states each; no other has any.
pub proof fn law_registry_mobs_have_their_variants(kind: EntityKind)
    ensures
        expected_count(kind) is Some <==> kind == EntityKind::Chicken || kind == EntityKind::Cow
            || kind == EntityKind::Wolf || kind == EntityKind::Cat,
        kind == EntityKind::Chicken || kind == EntityKind::Cow ==> expected_count(kind) == Some(
            3nat,
        ),
        kind == EntityKind::Wolf ==> expected_count(kind) == Some(27nat),
        kind == EntityKind::Cat ==> expected_count(kind) == Some(11nat),
{
}

} // verus!
