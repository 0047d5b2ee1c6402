//! The sprites of the menus: their identities, assets and sizes.
use vstd::prelude::*;
use vstd::string::*;

use crate::pixels::crop_image;
use crate::pixels::locator_background;
use crate::pixels::missing_image;
use crate::pixels::trim_rows;
use crate::pixels::RgbaImage;
use crate::text::decimal_text;
use crate::text::join;

verus! {

/// Marks on maps.
#[derive(Clone, Copy, Debug, PartialEq, Eq, Hash, Structural)]
pub enum MapDecorationAsset {
    Player,
    Frame,
    RedMarker,
    BlueMarker,
    TargetX,
    TargetPoint,
    PlayerOffMap,
    PlayerOffLimits,
    WoodlandMansion,
    OceanMonument,
    WhiteBanner,
    OrangeBanner,
    MagentaBanner,
    LightBlueBanner,
    YellowBanner,
    LimeBanner,
    PinkBanner,
    GrayBanner,
    LightGrayBanner,
    CyanBanner,
    PurpleBanner,
    BlueBanner,
    BrownBanner,
    GreenBanner,
    RedBanner,
    BlackBanner,
    RedX,
    DesertVillage,
    PlainsVillage,
    SavannaVillage,
    SnowyVillage,
    TaigaVillage,
    JungleTemple,
    SwampHut,
    TrialChambers,
}

/// Everything the sprite atlas holds.
#[derive(Clone, Copy, Debug, PartialEq, Eq, Hash, Structural)]
pub enum SpriteId {
    MapDecoration(MapDecorationAsset),
    Hotbar,
    HotbarSelection,
    HeartContainer,
    HeartFull,
    HeartHalf,
    HeartAbsorbingFull,
    HeartAbsorbingHalf,
    HeartVehicleContainer,
    HeartVehicleFull,
    HeartVehicleHalf,
    FoodEmpty,
    FoodFull,
    FoodHalf,
    AirFull,
    AirBursting,
    AirEmpty,
    ArmorEmpty,
    ArmorHalf,
    ArmorFull,
    ExperienceBarBackground,
    ExperienceBarProgress,
    Crosshair,
    CrosshairAttackIndicatorFull,
    CrosshairAttackIndicatorBackground,
    CrosshairAttackIndicatorProgress,
    HotbarAttackIndicatorBackground,
    HotbarAttackIndicatorProgress,
    EffectBackground,
    EffectBackgroundAmbient,
    MobEffect(u8),
    BossBarBackground(u8),
    BossBarProgress(u8),
    BossBarNotchedBackground(u8),
    BossBarNotchedProgress(u8),
    ChatModified,
    ToastAdvancement,
    ToastRecipe,
    ToastTutorial,
    ToastMovementKeys,
    ToastMouse,
    ToastTree,
    ToastRecipeBook,
    ToastWoodenPlanks,
    ToastSocialInteractions,
    ToastRightClick,
    JumpBarBackground,
    JumpBarProgress,
    LocatorBarBackground,
    LocatorDotDefault0,
    LocatorDotDefault1,
    LocatorDotDefault2,
    LocatorDotDefault3,
    LocatorDotBowtie,
    LocatorDotMissing,
    LocatorArrowUp0,
    LocatorArrowUp1,
    LocatorArrowDown0,
    LocatorArrowDown1,
    GameModeSwitcherBackground,
    GameModeSwitcherSlot,
    GameModeSwitcherSelection,
    InventoryBackground,
    CraftingTableBackground,
    FurnaceBackground,
    BlastFurnaceBackground,
    SmokerBackground,
    Generic54Top,
    Generic54Bottom,
    ShulkerBoxBackground,
    AnvilBackground,
    AnvilTextField,
    AnvilTextFieldDisabled,
    AnvilError,
    EnchantingTableBackground,
    EnchantmentSlot,
    EnchantmentSlotDisabled,
    EnchantmentSlotHighlighted,
    EnchantmentLevel1,
    EnchantmentLevel2,
    EnchantmentLevel3,
    EnchantmentLevel1Disabled,
    EnchantmentLevel2Disabled,
    EnchantmentLevel3Disabled,
    EmptyLapisLazuli,
    FurnaceLitProgress,
    FurnaceBurnProgress,
    BlastFurnaceLitProgress,
    BlastFurnaceBurnProgress,
    SmokerLitProgress,
    SmokerBurnProgress,
    CreativeItemsBackground,
    CreativeSearchBackground,
    CreativeInventoryBackground,
    CreativeTabTopUnselected1,
    CreativeTabTopUnselected2,
    CreativeTabTopUnselected3,
    CreativeTabTopUnselected4,
    CreativeTabTopUnselected5,
    CreativeTabTopUnselected6,
    CreativeTabTopUnselected7,
    CreativeTabTopSelected1,
    CreativeTabTopSelected2,
    CreativeTabTopSelected3,
    CreativeTabTopSelected4,
    CreativeTabTopSelected5,
    CreativeTabTopSelected6,
    CreativeTabTopSelected7,
    CreativeTabBottomUnselected1,
    CreativeTabBottomUnselected2,
    CreativeTabBottomUnselected3,
    CreativeTabBottomUnselected4,
    CreativeTabBottomUnselected5,
    CreativeTabBottomUnselected6,
    CreativeTabBottomUnselected7,
    CreativeTabBottomSelected1,
    CreativeTabBottomSelected2,
    CreativeTabBottomSelected3,
    CreativeTabBottomSelected4,
    CreativeTabBottomSelected5,
    CreativeTabBottomSelected6,
    CreativeTabBottomSelected7,
    CreativeScroller,
    CreativeScrollerDisabled,
    EmptyHelmet,
    EmptyChestplate,
    EmptyLeggings,
    EmptyBoots,
    EmptyShield,
    SlotHighlightBack,
    SlotHighlightFront,
    RecipeBookButton,
    RecipeBookButtonHighlighted,
    ButtonNormal,
    ButtonHover,
    ButtonDisabled,
    SliderTrack,
    SliderTrackHover,
    SliderHandle,
    SliderHandleHover,
    HeaderSeparator,
    FooterSeparator,
    MenuBackground,
    TooltipBackground,
    TooltipFrame,
    Scroller,
    ScrollerBackground,
    WarningButton,
    WarningButtonHighlighted,
    Checkbox,
    CheckboxHighlighted,
    CheckboxSelected,
    CheckboxSelectedHighlighted,
    Ping1,
    Ping2,
    Ping3,
    Ping4,
    Ping5,
    PingUnknown,
    ServerJoin,
    ServerJoinHighlighted,
    Tab,
    TabHighlighted,
    TabSelected,
    TabSelectedHighlighted,
    WorldJoin,
    WorldJoinHighlighted,
    ServerMoveUp,
    ServerMoveUpHighlighted,
    ServerMoveDown,
    ServerMoveDownHighlighted,
    UnknownServer,
    Pinging1,
    Pinging2,
    Pinging3,
    Pinging4,
    Pinging5,
    Incompatible,
    Unreachable,
    SteveHead,
    PommeLogo,
    MinecraftLogo,
    MinecraftEdition,
    IconFriends,
    IconLanguage,
    IconAccessibility,
    FriendsBackground,
    FriendsTab,
    FriendsTabDisabled,
    FriendsTabHighlighted,
    FriendsIllustration,
    FriendsSend,
    FriendsRemove,
    FriendsAccept,
    FriendsReject,
    FriendsCancel,
    NetherPortal,
    SpectatorClose,
    SpectatorScrollLeft,
    SpectatorScrollRight,
    SpectatorTeleportToPlayer,
    SpectatorTeleportToTeam,
    TabHeartContainerBlinking,
    TabHeartFullBlinking,
    TabHeartHalfBlinking,
    TabHeartAbsorbingFullBlinking,
    TabHeartAbsorbingHalfBlinking,
}

/// Sprites drawn whole: identity, asset and nine-slice border.
pub const SPRITES: [(SpriteId, &'static str, u32); 149] = [
    (SpriteId::Hotbar, "minecraft/textures/gui/sprites/hud/hotbar.png", 0),
    (SpriteId::GameModeSwitcherBackground, "minecraft/textures/gui/container/gamemode_switcher.png", 0),
    (SpriteId::GameModeSwitcherSlot, "minecraft/textures/gui/sprites/gamemode_switcher/slot.png", 0),
    (SpriteId::GameModeSwitcherSelection, "minecraft/textures/gui/sprites/gamemode_switcher/selection.png", 0),
    (SpriteId::HotbarSelection, "minecraft/textures/gui/sprites/hud/hotbar_selection.png", 0),
    (SpriteId::EffectBackground, "minecraft/textures/gui/sprites/hud/effect_background.png", 0),
    (SpriteId::EffectBackgroundAmbient, "minecraft/textures/gui/sprites/hud/effect_background_ambient.png", 0),
    (SpriteId::SpectatorClose, "minecraft/textures/gui/sprites/spectator/close.png", 0),
    (SpriteId::SpectatorScrollLeft, "minecraft/textures/gui/sprites/spectator/scroll_left.png", 0),
    (SpriteId::SpectatorScrollRight, "minecraft/textures/gui/sprites/spectator/scroll_right.png", 0),
    (SpriteId::SpectatorTeleportToPlayer, "minecraft/textures/gui/sprites/spectator/teleport_to_player.png", 0),
    (SpriteId::SpectatorTeleportToTeam, "minecraft/textures/gui/sprites/spectator/teleport_to_team.png", 0),
    (SpriteId::HeartContainer, "minecraft/textures/gui/sprites/hud/heart/container.png", 0),
    (SpriteId::HeartFull, "minecraft/textures/gui/sprites/hud/heart/full.png", 0),
    (SpriteId::HeartHalf, "minecraft/textures/gui/sprites/hud/heart/half.png", 0),
    (SpriteId::HeartAbsorbingFull, "minecraft/textures/gui/sprites/hud/heart/absorbing_full.png", 0),
    (SpriteId::HeartAbsorbingHalf, "minecraft/textures/gui/sprites/hud/heart/absorbing_half.png", 0),
    (SpriteId::TabHeartContainerBlinking, "minecraft/textures/gui/sprites/hud/heart/container_blinking.png", 0),
    (SpriteId::TabHeartFullBlinking, "minecraft/textures/gui/sprites/hud/heart/full_blinking.png", 0),
    (SpriteId::TabHeartHalfBlinking, "minecraft/textures/gui/sprites/hud/heart/half_blinking.png", 0),
    (SpriteId::TabHeartAbsorbingFullBlinking, "minecraft/textures/gui/sprites/hud/heart/absorbing_full_blinking.png", 0),
    (SpriteId::TabHeartAbsorbingHalfBlinking, "minecraft/textures/gui/sprites/hud/heart/absorbing_half_blinking.png", 0),
    (SpriteId::HeartVehicleContainer, "minecraft/textures/gui/sprites/hud/heart/vehicle_container.png", 0),
    (SpriteId::HeartVehicleFull, "minecraft/textures/gui/sprites/hud/heart/vehicle_full.png", 0),
    (SpriteId::HeartVehicleHalf, "minecraft/textures/gui/sprites/hud/heart/vehicle_half.png", 0),
    (SpriteId::FoodEmpty, "minecraft/textures/gui/sprites/hud/food_empty.png", 0),
    (SpriteId::FoodFull, "minecraft/textures/gui/sprites/hud/food_full.png", 0),
    (SpriteId::FoodHalf, "minecraft/textures/gui/sprites/hud/food_half.png", 0),
    (SpriteId::AirFull, "minecraft/textures/gui/sprites/hud/air.png", 0),
    (SpriteId::AirBursting, "minecraft/textures/gui/sprites/hud/air_bursting.png", 0),
    (SpriteId::AirEmpty, "minecraft/textures/gui/sprites/hud/air_empty.png", 0),
    (SpriteId::ArmorEmpty, "minecraft/textures/gui/sprites/hud/armor_empty.png", 0),
    (SpriteId::ArmorHalf, "minecraft/textures/gui/sprites/hud/armor_half.png", 0),
    (SpriteId::ArmorFull, "minecraft/textures/gui/sprites/hud/armor_full.png", 0),
    (SpriteId::ExperienceBarBackground, "minecraft/textures/gui/sprites/hud/experience_bar_background.png", 0),
    (SpriteId::ExperienceBarProgress, "minecraft/textures/gui/sprites/hud/experience_bar_progress.png", 0),
    (SpriteId::Crosshair, "minecraft/textures/gui/sprites/hud/crosshair.png", 0),
    (SpriteId::CrosshairAttackIndicatorFull, "minecraft/textures/gui/sprites/hud/crosshair_attack_indicator_full.png", 0),
    (SpriteId::CrosshairAttackIndicatorBackground, "minecraft/textures/gui/sprites/hud/crosshair_attack_indicator_background.png", 0),
    (SpriteId::CrosshairAttackIndicatorProgress, "minecraft/textures/gui/sprites/hud/crosshair_attack_indicator_progress.png", 0),
    (SpriteId::HotbarAttackIndicatorBackground, "minecraft/textures/gui/sprites/hud/hotbar_attack_indicator_background.png", 0),
    (SpriteId::HotbarAttackIndicatorProgress, "minecraft/textures/gui/sprites/hud/hotbar_attack_indicator_progress.png", 0),
    (SpriteId::JumpBarBackground, "minecraft/textures/gui/sprites/hud/jump_bar_background.png", 0),
    (SpriteId::JumpBarProgress, "minecraft/textures/gui/sprites/hud/jump_bar_progress.png", 0),
    (SpriteId::LocatorDotDefault0, "minecraft/textures/gui/sprites/hud/locator_bar_dot/default_0.png", 0),
    (SpriteId::LocatorDotDefault1, "minecraft/textures/gui/sprites/hud/locator_bar_dot/default_1.png", 0),
    (SpriteId::LocatorDotDefault2, "minecraft/textures/gui/sprites/hud/locator_bar_dot/default_2.png", 0),
    (SpriteId::LocatorDotDefault3, "minecraft/textures/gui/sprites/hud/locator_bar_dot/default_3.png", 0),
    (SpriteId::LocatorDotBowtie, "minecraft/textures/gui/sprites/hud/locator_bar_dot/bowtie.png", 0),
    (SpriteId::EmptyHelmet, "minecraft/textures/gui/sprites/container/slot/helmet.png", 0),
    (SpriteId::EmptyChestplate, "minecraft/textures/gui/sprites/container/slot/chestplate.png", 0),
    (SpriteId::EmptyLeggings, "minecraft/textures/gui/sprites/container/slot/leggings.png", 0),
    (SpriteId::EmptyBoots, "minecraft/textures/gui/sprites/container/slot/boots.png", 0),
    (SpriteId::EmptyShield, "minecraft/textures/gui/sprites/container/slot/shield.png", 0),
    (SpriteId::SlotHighlightBack, "minecraft/textures/gui/sprites/container/slot_highlight_back.png", 0),
    (SpriteId::SlotHighlightFront, "minecraft/textures/gui/sprites/container/slot_highlight_front.png", 0),
    (SpriteId::AnvilTextField, "minecraft/textures/gui/sprites/container/anvil/text_field.png", 0),
    (SpriteId::AnvilTextFieldDisabled, "minecraft/textures/gui/sprites/container/anvil/text_field_disabled.png", 0),
    (SpriteId::AnvilError, "minecraft/textures/gui/sprites/container/anvil/error.png", 0),
    (SpriteId::EnchantmentSlot, "minecraft/textures/gui/sprites/container/enchanting_table/enchantment_slot.png", 0),
    (SpriteId::EnchantmentSlotDisabled, "minecraft/textures/gui/sprites/container/enchanting_table/enchantment_slot_disabled.png", 0),
    (SpriteId::EnchantmentSlotHighlighted, "minecraft/textures/gui/sprites/container/enchanting_table/enchantment_slot_highlighted.png", 0),
    (SpriteId::EnchantmentLevel1, "minecraft/textures/gui/sprites/container/enchanting_table/level_1.png", 0),
    (SpriteId::EnchantmentLevel2, "minecraft/textures/gui/sprites/container/enchanting_table/level_2.png", 0),
    (SpriteId::EnchantmentLevel3, "minecraft/textures/gui/sprites/container/enchanting_table/level_3.png", 0),
    (SpriteId::EnchantmentLevel1Disabled, "minecraft/textures/gui/sprites/container/enchanting_table/level_1_disabled.png", 0),
    (SpriteId::EnchantmentLevel2Disabled, "minecraft/textures/gui/sprites/container/enchanting_table/level_2_disabled.png", 0),
    (SpriteId::EnchantmentLevel3Disabled, "minecraft/textures/gui/sprites/container/enchanting_table/level_3_disabled.png", 0),
    (SpriteId::EmptyLapisLazuli, "minecraft/textures/gui/sprites/container/slot/lapis_lazuli.png", 0),
    (SpriteId::FurnaceLitProgress, "minecraft/textures/gui/sprites/container/furnace/lit_progress.png", 0),
    (SpriteId::FurnaceBurnProgress, "minecraft/textures/gui/sprites/container/furnace/burn_progress.png", 0),
    (SpriteId::BlastFurnaceLitProgress, "minecraft/textures/gui/sprites/container/blast_furnace/lit_progress.png", 0),
    (SpriteId::BlastFurnaceBurnProgress, "minecraft/textures/gui/sprites/container/blast_furnace/burn_progress.png", 0),
    (SpriteId::SmokerLitProgress, "minecraft/textures/gui/sprites/container/smoker/lit_progress.png", 0),
    (SpriteId::SmokerBurnProgress, "minecraft/textures/gui/sprites/container/smoker/burn_progress.png", 0),
    (SpriteId::RecipeBookButton, "minecraft/textures/gui/sprites/recipe_book/button.png", 0),
    (SpriteId::RecipeBookButtonHighlighted, "minecraft/textures/gui/sprites/recipe_book/button_highlighted.png", 0),
    (SpriteId::ButtonNormal, "minecraft/textures/gui/sprites/widget/button.png", 3),
    (SpriteId::ButtonHover, "minecraft/textures/gui/sprites/widget/button_highlighted.png", 3),
    (SpriteId::ButtonDisabled, "minecraft/textures/gui/sprites/widget/button_disabled.png", 1),
    (SpriteId::SliderTrack, "minecraft/textures/gui/sprites/widget/slider.png", 1),
    (SpriteId::SliderTrackHover, "minecraft/textures/gui/sprites/widget/slider_highlighted.png", 1),
    (SpriteId::SliderHandle, "minecraft/textures/gui/sprites/widget/slider_handle.png", 0),
    (SpriteId::SliderHandleHover, "minecraft/textures/gui/sprites/widget/slider_handle_highlighted.png", 0),
    (SpriteId::HeaderSeparator, "minecraft/textures/gui/inworld_header_separator.png", 0),
    (SpriteId::FooterSeparator, "minecraft/textures/gui/inworld_footer_separator.png", 0),
    (SpriteId::MenuBackground, "minecraft/textures/gui/inworld_menu_background.png", 0),
    (SpriteId::TooltipBackground, "minecraft/textures/gui/sprites/tooltip/background.png", 9),
    (SpriteId::TooltipFrame, "minecraft/textures/gui/sprites/tooltip/frame.png", 10),
    (SpriteId::Scroller, "minecraft/textures/gui/sprites/widget/scroller.png", 1),
    (SpriteId::ScrollerBackground, "minecraft/textures/gui/sprites/widget/scroller_background.png", 1),
    (SpriteId::WarningButton, "minecraft/textures/gui/sprites/dialog/warning_button.png", 0),
    (SpriteId::WarningButtonHighlighted, "minecraft/textures/gui/sprites/dialog/warning_button_highlighted.png", 0),
    (SpriteId::Checkbox, "minecraft/textures/gui/sprites/widget/checkbox.png", 0),
    (SpriteId::CheckboxHighlighted, "minecraft/textures/gui/sprites/widget/checkbox_highlighted.png", 0),
    (SpriteId::CheckboxSelected, "minecraft/textures/gui/sprites/widget/checkbox_selected.png", 0),
    (SpriteId::CheckboxSelectedHighlighted, "minecraft/textures/gui/sprites/widget/checkbox_selected_highlighted.png", 0),
    (SpriteId::FriendsBackground, "minecraft/textures/gui/sprites/friends/background.png", 8),
    (SpriteId::IconFriends, "minecraft/textures/gui/sprites/friends/friends.png", 0),
    (SpriteId::IconLanguage, "minecraft/textures/gui/sprites/icon/language.png", 0),
    (SpriteId::IconAccessibility, "minecraft/textures/gui/sprites/icon/accessibility.png", 0),
    (SpriteId::FriendsTab, "minecraft/textures/gui/sprites/friends/button.png", 3),
    (SpriteId::FriendsTabDisabled, "minecraft/textures/gui/sprites/friends/button_disabled.png", 1),
    (SpriteId::FriendsTabHighlighted, "minecraft/textures/gui/sprites/friends/button_highlighted.png", 3),
    (SpriteId::FriendsIllustration, "minecraft/textures/gui/sprites/friends/illustrations_00.png", 0),
    (SpriteId::FriendsSend, "minecraft/textures/gui/sprites/friends/send_request.png", 0),
    (SpriteId::FriendsRemove, "minecraft/textures/gui/sprites/friends/remove.png", 0),
    (SpriteId::FriendsAccept, "minecraft/textures/gui/sprites/friends/accept.png", 0),
    (SpriteId::FriendsReject, "minecraft/textures/gui/sprites/friends/reject.png", 0),
    (SpriteId::FriendsCancel, "minecraft/textures/gui/sprites/friends/cancel.png", 0),
    (SpriteId::Ping1, "minecraft/textures/gui/sprites/icon/ping_1.png", 0),
    (SpriteId::Ping2, "minecraft/textures/gui/sprites/icon/ping_2.png", 0),
    (SpriteId::Ping3, "minecraft/textures/gui/sprites/icon/ping_3.png", 0),
    (SpriteId::Ping4, "minecraft/textures/gui/sprites/icon/ping_4.png", 0),
    (SpriteId::Ping5, "minecraft/textures/gui/sprites/icon/ping_5.png", 0),
    (SpriteId::PingUnknown, "minecraft/textures/gui/sprites/icon/ping_unknown.png", 0),
    (SpriteId::ServerJoin, "minecraft/textures/gui/sprites/server_list/join.png", 0),
    (SpriteId::Tab, "minecraft/textures/gui/sprites/widget/tab.png", 2),
    (SpriteId::TabHighlighted, "minecraft/textures/gui/sprites/widget/tab_highlighted.png", 2),
    (SpriteId::TabSelected, "minecraft/textures/gui/sprites/widget/tab_selected.png", 2),
    (SpriteId::TabSelectedHighlighted, "minecraft/textures/gui/sprites/widget/tab_selected_highlighted.png", 2),
    (SpriteId::WorldJoin, "minecraft/textures/gui/sprites/world_list/join.png", 0),
    (SpriteId::WorldJoinHighlighted, "minecraft/textures/gui/sprites/world_list/join_highlighted.png", 0),
    (SpriteId::ServerJoinHighlighted, "minecraft/textures/gui/sprites/server_list/join_highlighted.png", 0),
    (SpriteId::ServerMoveUp, "minecraft/textures/gui/sprites/server_list/move_up.png", 0),
    (SpriteId::ServerMoveUpHighlighted, "minecraft/textures/gui/sprites/server_list/move_up_highlighted.png", 0),
    (SpriteId::ServerMoveDown, "minecraft/textures/gui/sprites/server_list/move_down.png", 0),
    (SpriteId::ServerMoveDownHighlighted, "minecraft/textures/gui/sprites/server_list/move_down_highlighted.png", 0),
    (SpriteId::UnknownServer, "minecraft/textures/misc/unknown_server.png", 0),
    (SpriteId::Pinging1, "minecraft/textures/gui/sprites/server_list/pinging_1.png", 0),
    (SpriteId::Pinging2, "minecraft/textures/gui/sprites/server_list/pinging_2.png", 0),
    (SpriteId::Pinging3, "minecraft/textures/gui/sprites/server_list/pinging_3.png", 0),
    (SpriteId::Pinging4, "minecraft/textures/gui/sprites/server_list/pinging_4.png", 0),
    (SpriteId::Pinging5, "minecraft/textures/gui/sprites/server_list/pinging_5.png", 0),
    (SpriteId::Incompatible, "minecraft/textures/gui/sprites/server_list/incompatible.png", 0),
    (SpriteId::Unreachable, "minecraft/textures/gui/sprites/server_list/unreachable.png", 0),
    (SpriteId::CreativeScroller, "minecraft/textures/gui/sprites/container/creative_inventory/scroller.png", 0),
    (SpriteId::CreativeScrollerDisabled, "minecraft/textures/gui/sprites/container/creative_inventory/scroller_disabled.png", 0),
    (SpriteId::ChatModified, "minecraft/textures/gui/sprites/icon/chat_modified.png", 0),
    (SpriteId::ToastAdvancement, "minecraft/textures/gui/sprites/toast/advancement.png", 0),
    (SpriteId::ToastRecipe, "minecraft/textures/gui/sprites/toast/recipe.png", 0),
    (SpriteId::ToastTutorial, "minecraft/textures/gui/sprites/toast/tutorial.png", 3),
    (SpriteId::ToastMovementKeys, "minecraft/textures/gui/sprites/toast/movement_keys.png", 0),
    (SpriteId::ToastMouse, "minecraft/textures/gui/sprites/toast/mouse.png", 0),
    (SpriteId::ToastTree, "minecraft/textures/gui/sprites/toast/tree.png", 0),
    (SpriteId::ToastRecipeBook, "minecraft/textures/gui/sprites/toast/recipe_book.png", 0),
    (SpriteId::ToastWoodenPlanks, "minecraft/textures/gui/sprites/toast/wooden_planks.png", 0),
    (SpriteId::ToastSocialInteractions, "minecraft/textures/gui/sprites/toast/social_interactions.png", 0),
    (SpriteId::ToastRightClick, "minecraft/textures/gui/sprites/toast/right_click.png", 0),
];

/// Sprites cut out of larger images: identity, asset, first row, and the largest
/// width and height kept.
pub const CROPS: [(SpriteId, &'static str, u32, u32, u32); 14] = [
    (SpriteId::InventoryBackground, "minecraft/textures/gui/container/inventory.png", 0, 176, 166),
    (SpriteId::CraftingTableBackground, "minecraft/textures/gui/container/crafting_table.png", 0, 176, 166),
    (SpriteId::FurnaceBackground, "minecraft/textures/gui/container/furnace.png", 0, 176, 166),
    (SpriteId::BlastFurnaceBackground, "minecraft/textures/gui/container/blast_furnace.png", 0, 176, 166),
    (SpriteId::SmokerBackground, "minecraft/textures/gui/container/smoker.png", 0, 176, 166),
    (SpriteId::Generic54Top, "minecraft/textures/gui/container/generic_54.png", 0, 176, 125),
    (SpriteId::Generic54Bottom, "minecraft/textures/gui/container/generic_54.png", 126, 176, 96),
    (SpriteId::ShulkerBoxBackground, "minecraft/textures/gui/container/shulker_box.png", 0, 176, 167),
    (SpriteId::AnvilBackground, "minecraft/textures/gui/container/anvil.png", 0, 176, 166),
    (SpriteId::EnchantingTableBackground, "minecraft/textures/gui/container/enchanting_table.png", 0, 176, 166),
    (SpriteId::CreativeItemsBackground, "minecraft/textures/gui/container/creative_inventory/tab_items.png", 0, 195, 136),
    (SpriteId::CreativeSearchBackground, "minecraft/textures/gui/container/creative_inventory/tab_item_search.png", 0, 195, 136),
    (SpriteId::CreativeInventoryBackground, "minecraft/textures/gui/container/creative_inventory/tab_inventory.png", 0, 195, 136),
    (SpriteId::NetherPortal, "minecraft/textures/block/nether_portal.png", 0, 16, 16),
];

/// Creative inventory tabs: row and state of each, then its column.
pub const CREATIVE_TABS: [SpriteId; 28] = [
    SpriteId::CreativeTabTopUnselected1,
    SpriteId::CreativeTabTopUnselected2,
    SpriteId::CreativeTabTopUnselected3,
    SpriteId::CreativeTabTopUnselected4,
    SpriteId::CreativeTabTopUnselected5,
    SpriteId::CreativeTabTopUnselected6,
    SpriteId::CreativeTabTopUnselected7,
    SpriteId::CreativeTabTopSelected1,
    SpriteId::CreativeTabTopSelected2,
    SpriteId::CreativeTabTopSelected3,
    SpriteId::CreativeTabTopSelected4,
    SpriteId::CreativeTabTopSelected5,
    SpriteId::CreativeTabTopSelected6,
    SpriteId::CreativeTabTopSelected7,
    SpriteId::CreativeTabBottomUnselected1,
    SpriteId::CreativeTabBottomUnselected2,
    SpriteId::CreativeTabBottomUnselected3,
    SpriteId::CreativeTabBottomUnselected4,
    SpriteId::CreativeTabBottomUnselected5,
    SpriteId::CreativeTabBottomUnselected6,
    SpriteId::CreativeTabBottomUnselected7,
    SpriteId::CreativeTabBottomSelected1,
    SpriteId::CreativeTabBottomSelected2,
    SpriteId::CreativeTabBottomSelected3,
    SpriteId::CreativeTabBottomSelected4,
    SpriteId::CreativeTabBottomSelected5,
    SpriteId::CreativeTabBottomSelected6,
    SpriteId::CreativeTabBottomSelected7,
];

/// The map decorations, in atlas order.
pub const MAP_DECORATIONS: [MapDecorationAsset; 35] = [
    MapDecorationAsset::Player,
    MapDecorationAsset::Frame,
    MapDecorationAsset::RedMarker,
    MapDecorationAsset::BlueMarker,
    MapDecorationAsset::TargetX,
    MapDecorationAsset::TargetPoint,
    MapDecorationAsset::PlayerOffMap,
    MapDecorationAsset::PlayerOffLimits,
    MapDecorationAsset::WoodlandMansion,
    MapDecorationAsset::OceanMonument,
    MapDecorationAsset::WhiteBanner,
    MapDecorationAsset::OrangeBanner,
    MapDecorationAsset::MagentaBanner,
    MapDecorationAsset::LightBlueBanner,
    MapDecorationAsset::YellowBanner,
    MapDecorationAsset::LimeBanner,
    MapDecorationAsset::PinkBanner,
    MapDecorationAsset::GrayBanner,
    MapDecorationAsset::LightGrayBanner,
    MapDecorationAsset::CyanBanner,
    MapDecorationAsset::PurpleBanner,
    MapDecorationAsset::BlueBanner,
    MapDecorationAsset::BrownBanner,
    MapDecorationAsset::GreenBanner,
    MapDecorationAsset::RedBanner,
    MapDecorationAsset::BlackBanner,
    MapDecorationAsset::RedX,
    MapDecorationAsset::DesertVillage,
    MapDecorationAsset::PlainsVillage,
    MapDecorationAsset::SavannaVillage,
    MapDecorationAsset::SnowyVillage,
    MapDecorationAsset::TaigaVillage,
    MapDecorationAsset::JungleTemple,
    MapDecorationAsset::SwampHut,
    MapDecorationAsset::TrialChambers,
];

/// Boss bar colours.
pub const BOSS_COLORS: [&'static str; 7] = [
    "pink",
    "blue",
    "red",
    "green",
    "yellow",
    "purple",
    "white",
];

/// Boss bar notches.
pub const BOSS_NOTCHES: [&'static str; 4] = ["notched_6", "notched_10", "notched_12", "notched_20"];

/// Title images: identity, asset, logical height and the part of it shown.
pub const LOGOS: [(SpriteId, &'static str, u32, u32); 2] = [
    (SpriteId::MinecraftLogo, "minecraft/textures/gui/title/minecraft.png", 64, 44),
    (SpriteId::MinecraftEdition, "minecraft/textures/gui/title/edition.png", 16, 14),
];

pub const STEVE_SKIN: &'static str = "minecraft/textures/entity/player/wide/steve.png";

pub const LOCATOR_BACKGROUND: &'static str = "minecraft/textures/gui/sprites/hud/locator_bar_background.png";

/// The arrow strips above and below the locator bar.
pub const LOCATOR_ARROWS: [&'static str; 2] = [
    "minecraft/textures/gui/sprites/hud/locator_bar_arrow_up.png",
    "minecraft/textures/gui/sprites/hud/locator_bar_arrow_down.png",
];

/// Size the project logo is scaled to.
pub const POMME_LOGO_SIZE: u32 = 256;

/// A sprite and the asset it is loaded from.
pub struct SpriteSource {
    pub id: SpriteId,
    pub key: String,
    pub border: u32,
}

/// What a [`SpriteSource`] holds.
pub type SourceView = (SpriteId, Seq<char>, u32);

pub open spec fn source_view(source: SpriteSource) -> SourceView {
    (source.id, source.key@, source.border)
}

/// The views of a list of sources.
pub open spec fn source_views(list: Seq<SpriteSource>) -> Seq<SourceView> {
    Seq::new(list.len(), |i: int| source_view(list[i]))
}

/// Sprites with a fixed asset.
pub open spec fn fixed_sources() -> Seq<SourceView> {
    Seq::new(149, |i: int| (SPRITES[i].0, SPRITES[i].1@, SPRITES[i].2))
}

/// One icon per mob effect.
pub open spec fn effect_sources(names: Seq<String>) -> Seq<SourceView> {
    Seq::new(
        names.len(),
        |i: int|
            (
                SpriteId::MobEffect(i as u8),
                "minecraft/textures/mob_effect/"@ + names[i]@ + ".png"@,
                0u32,
            ),
    )
}

/// The asset of a boss bar part.
pub open spec fn boss_key(name: Seq<char>, progress: bool) -> Seq<char> {
    "minecraft/textures/gui/sprites/boss_bar/"@ + name + (if progress {
        "_progress.png"@
    } else {
        "_background.png"@
    })
}

/// A background and a progress bar for each colour, then for each notching.
pub open spec fn boss_sources() -> Seq<SourceView> {
    Seq::new(
        22,
        |i: int|
            if i < 14 {
                (
                    if i % 2 == 0 {
                        SpriteId::BossBarBackground((i / 2) as u8)
                    } else {
                        SpriteId::BossBarProgress((i / 2) as u8)
                    },
                    boss_key(BOSS_COLORS[i / 2]@, i % 2 == 1),
                    0u32,
                )
            } else {
                (
                    if i % 2 == 0 {
                        SpriteId::BossBarNotchedBackground(((i - 14) / 2) as u8)
                    } else {
                        SpriteId::BossBarNotchedProgress(((i - 14) / 2) as u8)
                    },
                    boss_key(BOSS_NOTCHES[(i - 14) / 2]@, i % 2 == 1),
                    0u32,
                )
            },
    )
}

/// One sprite per map decoration; `keys` are the decorations' asset names.
pub open spec fn decoration_sources(keys: Seq<String>) -> Seq<SourceView> {
    Seq::new(
        35,
        |i: int|
            (
                SpriteId::MapDecoration(MAP_DECORATIONS[i]),
                "minecraft/textures/map/decorations/"@ + keys[i]@ + ".png"@,
                0u32,
            ),
    )
}

fn path_of(prefix: &str, name: &str, suffix: &str) -> (key: String)
    ensures
        key@ == prefix@ + name@ + suffix@,
{
    let stem = join(prefix, name);
    join(stem.as_str(), suffix)
}

fn push_source(list: &mut Vec<SpriteSource>, id: SpriteId, key: String, border: u32)
    ensures
        source_views(final(list)@) == source_views(old(list)@).push((id, key@, border)),
{
    let ghost before = list@;
    list.push(SpriteSource { id, key, border });
    assert(source_views(list@) =~= source_views(before).push((id, key@, border)));
}

fn push_boss(list: &mut Vec<SpriteSource>, name: &str, back: SpriteId, front: SpriteId)
    ensures
        source_views(final(list)@) == source_views(old(list)@).push(
            (back, boss_key(name@, false), 0u32),
        ).push((front, boss_key(name@, true), 0u32)),
{
    push_source(
        list,
        back,
        path_of("minecraft/textures/gui/sprites/boss_bar/", name, "_background.png"),
        0,
    );
    push_source(
        list,
        front,
        path_of("minecraft/textures/gui/sprites/boss_bar/", name, "_progress.png"),
        0,
    );
}

/// The sprites loaded one to an asset, in atlas order.
pub fn sprite_sources(effect_names: &Vec<String>, decoration_keys: &Vec<String>) -> (list: Vec<
    SpriteSource,
>)
    requires
        effect_names@.len() <= 256,
        decoration_keys@.len() == 35,
    ensures
        source_views(list@) == fixed_sources() + effect_sources(effect_names@) + boss_sources()
            + decoration_sources(decoration_keys@),
{
    let fixed = SPRITES;
    let colors = BOSS_COLORS;
    let notches = BOSS_NOTCHES;
    let decorations = MAP_DECORATIONS;
    let mut list: Vec<SpriteSource> = Vec::new();
    let mut i: usize = 0;
    assert(source_views(list@) =~= fixed_sources().take(0));
    while i < 149
        invariant
            i <= 149,
            fixed == SPRITES,
            source_views(list@) == fixed_sources().take(i as int),
        decreases 149 - i,
    {
        push_source(&mut list, fixed[i].0, fixed[i].1.to_owned(), fixed[i].2);
        i = i + 1;
        assert(source_views(list@) =~= fixed_sources().take(i as int));
    }
    let ghost part1 = fixed_sources();
    assert(fixed_sources().take(149) =~= part1);
    i = 0;
    assert(source_views(list@) =~= part1 + effect_sources(effect_names@).take(0));
    while i < effect_names.len()
        invariant
            i <= effect_names@.len() <= 256,
            source_views(list@) == part1 + effect_sources(effect_names@).take(i as int),
        decreases effect_names@.len() - i,
    {
        let key = path_of("minecraft/textures/mob_effect/", effect_names[i].as_str(), ".png");
        push_source(&mut list, SpriteId::MobEffect(i as u8), key, 0);
        i = i + 1;
        assert(source_views(list@) =~= part1 + effect_sources(effect_names@).take(i as int));
    }
    let ghost part2 = part1 + effect_sources(effect_names@);
    assert(effect_sources(effect_names@).take(effect_names@.len() as int) =~= effect_sources(
        effect_names@,
    ));
    i = 0;
    assert(source_views(list@) =~= part2 + boss_sources().take(0));
    while i < 7
        invariant
            i <= 7,
            colors == BOSS_COLORS,
            source_views(list@) == part2 + boss_sources().take(2 * i),
        decreases 7 - i,
    {
        push_boss(
            &mut list,
            colors[i],
            SpriteId::BossBarBackground(i as u8),
            SpriteId::BossBarProgress(i as u8),
        );
        i = i + 1;
        assert(source_views(list@) =~= part2 + boss_sources().take(2 * i));
    }
    i = 0;
    while i < 4
        invariant
            i <= 4,
            notches == BOSS_NOTCHES,
            source_views(list@) == part2 + boss_sources().take(14 + 2 * i),
        decreases 4 - i,
    {
        push_boss(
            &mut list,
            notches[i],
            SpriteId::BossBarNotchedBackground(i as u8),
            SpriteId::BossBarNotchedProgress(i as u8),
        );
        i = i + 1;
        assert(source_views(list@) =~= part2 + boss_sources().take(14 + 2 * i));
    }
    let ghost part3 = part2 + boss_sources();
    assert(boss_sources().take(22) =~= boss_sources());
    i = 0;
    assert(source_views(list@) =~= part3 + decoration_sources(decoration_keys@).take(0));
    while i < 35
        invariant
            i <= 35,
            decoration_keys@.len() == 35,
            decorations == MAP_DECORATIONS,
            source_views(list@) == part3 + decoration_sources(decoration_keys@).take(i as int),
        decreases 35 - i,
    {
        let key = path_of(
            "minecraft/textures/map/decorations/",
            decoration_keys[i].as_str(),
            ".png",
        );
        push_source(&mut list, SpriteId::MapDecoration(decorations[i]), key, 0);
        i = i + 1;
        assert(source_views(list@) =~= part3 + decoration_sources(decoration_keys@).take(i as int));
    }
    assert(decoration_sources(decoration_keys@).take(35) =~= decoration_sources(decoration_keys@));
    list
}

/// The asset of a creative tab: `tab` counts rows, states and columns.
pub open spec fn tab_key(tab: int) -> Seq<char> {
    "minecraft/textures/gui/sprites/container/creative_inventory/tab_"@ + (if tab < 14 {
        "top_"@
    } else {
        "bottom_"@
    }) + (if tab % 14 < 7 {
        "unselected_"@
    } else {
        "selected_"@
    }) + crate::text::decimal((tab % 7 + 1) as nat) + ".png"@
}

pub fn creative_tab_key(tab: usize) -> (key: String)
    requires
        tab < 28,
    ensures
        key@ == tab_key(tab as int),
{
    let mut key = "minecraft/textures/gui/sprites/container/creative_inventory/tab_".to_owned();
    if tab < 14 {
        key.append("top_");
    } else {
        key.append("bottom_");
    }
    if tab % 14 < 7 {
        key.append("unselected_");
    } else {
        key.append("selected_");
    }
    let column = decimal_text((tab % 7 + 1) as u32);
    key.append(column.as_str());
    key.append(".png");
    key
}

/// A sprite ready to be packed.
pub struct SpriteImage {
    pub id: SpriteId,
    pub image: RgbaImage,
    pub border: u32,
}

/// What a [`SpriteImage`] holds.
#[verifier::ext_equal]
pub struct SpriteView {
    pub id: SpriteId,
    pub width: u32,
    pub height: u32,
    pub pixels: Seq<u8>,
    pub border: u32,
}

pub open spec fn sprite_view(sprite: SpriteImage) -> SpriteView {
    SpriteView {
        id: sprite.id,
        width: sprite.image.width,
        height: sprite.image.height,
        pixels: sprite.image.pixels@,
        border: sprite.border,
    }
}

/// The views of a list of sprites.
pub open spec fn sprite_views(list: Seq<SpriteImage>) -> Seq<SpriteView> {
    Seq::new(list.len(), |i: int| sprite_view(list[i]))
}

/// The placeholder under an identity.
pub open spec fn missing_sprite(id: SpriteId) -> SpriteView {
    SpriteView { id, width: 1, height: 1, pixels: crate::pixels::magenta(), border: 0 }
}

/// An image as a sprite.
pub open spec fn whole_sprite(id: SpriteId, image: RgbaImage, border: u32) -> SpriteView {
    SpriteView { id, width: image.width, height: image.height, pixels: image.pixels@, border }
}

/// A loaded sprite; one that did not load is a placeholder without border.
pub open spec fn loaded_sprite(id: SpriteId, image: Option<RgbaImage>, border: u32) -> SpriteView {
    match image {
        Some(i) => whole_sprite(id, i, border),
        None => missing_sprite(id),
    }
}

/// A face extracted from a skin, or the placeholder.
pub open spec fn face_sprite(face: Option<Vec<u8>>) -> SpriteView {
    match face {
        Some(f) => SpriteView {
            id: SpriteId::SteveHead,
            width: 8,
            height: 8,
            pixels: f@,
            border: 0,
        },
        None => missing_sprite(SpriteId::SteveHead),
    }
}

/// The locator bar, tiled out if it has the usual size.
pub open spec fn locator_sprite(image: Option<RgbaImage>) -> SpriteView {
    match image {
        Some(i) => if i.width == 12 && i.height == 5 {
            SpriteView {
                id: SpriteId::LocatorBarBackground,
                width: 182,
                height: 5,
                pixels: crate::pixels::locator_tiled(i.pixels@),
                border: 0,
            }
        } else {
            whole_sprite(SpriteId::LocatorBarBackground, i, 0)
        },
        None => missing_sprite(SpriteId::LocatorBarBackground),
    }
}

/// One frame of an arrow strip.
pub open spec fn arrow_sprite(id: SpriteId, image: Option<RgbaImage>, second: bool) -> SpriteView {
    match image {
        Some(i) => if i.width == 7 && i.height == 10 {
            SpriteView {
                id,
                width: 7,
                height: 5,
                pixels: if second {
                    i.pixels@.skip(140)
                } else {
                    i.pixels@.take(140)
                },
                border: 0,
            }
        } else {
            missing_sprite(id)
        },
        None => missing_sprite(id),
    }
}

/// The `i`-th cut-out sprite.
pub open spec fn crop_sprite(i: int, image: Option<RgbaImage>) -> SpriteView {
    let row = CROPS[i];
    match image {
        Some(img) => {
            let w = crate::pixels::least(row.3 as int, img.width as int);
            let h = crate::pixels::least(
                row.4 as int,
                crate::pixels::rows_from(img.height as int, row.2 as int),
            );
            SpriteView {
                id: row.0,
                width: w as u32,
                height: h as u32,
                pixels: crate::pixels::cropped(img.pixels@, img.width as int, row.2 as int, w, h),
                border: 0,
            }
        },
        None => missing_sprite(row.0),
    }
}

/// The `i`-th title image.
pub open spec fn logo_sprite(i: int, image: Option<RgbaImage>) -> SpriteView {
    let row = LOGOS[i];
    match image {
        Some(img) => {
            let h = crate::pixels::used_rows(img.height as int, row.2 as int, row.3 as int);
            SpriteView {
                id: row.0,
                width: img.width,
                height: h as u32,
                pixels: img.pixels@.take(img.width * h * 4),
                border: 0,
            }
        },
        None => missing_sprite(row.0),
    }
}

/// The images that were loaded for the atlas, in the order of their tables.
pub struct SpriteInputs {
    /// One for each source.
    pub whole: Vec<Option<RgbaImage>>,
    /// The face cut out of the default skin.
    pub face: Option<Vec<u8>>,
    pub locator: Option<RgbaImage>,
    pub arrow_up: Option<RgbaImage>,
    pub arrow_down: Option<RgbaImage>,
    pub crops: Vec<Option<RgbaImage>>,
    pub tabs: Vec<Option<RgbaImage>>,
    pub logos: Vec<Option<RgbaImage>>,
    /// The project logo, scaled to its atlas size.
    pub pomme: Option<RgbaImage>,
}

/// An image whose bytes fill its size.
pub open spec fn usable(image: Option<RgbaImage>) -> bool {
    match image {
        Some(i) => i.wf(),
        None => true,
    }
}

/// The rows of the `i`-th title image can be counted in 32 bits.
pub open spec fn trimmable(i: int, image: Option<RgbaImage>) -> bool {
    match image {
        Some(img) => img.height * LOGOS[i].3 <= u32::MAX,
        None => true,
    }
}

/// Every image of a list is usable.
pub open spec fn all_usable(list: Seq<Option<RgbaImage>>) -> bool {
    forall|i: int| 0 <= i < list.len() ==> usable(#[trigger] list[i])
}

impl SpriteInputs {
    /// One image for each table row, all of them consistent.
    pub open spec fn wf(self, sources: Seq<SpriteSource>) -> bool {
        &&& self.whole@.len() == sources.len()
        &&& self.crops@.len() == 14
        &&& self.tabs@.len() == 28
        &&& self.logos@.len() == 2
        &&& self.face matches Some(f) ==> f@.len() == 256
        &&& all_usable(self.whole@)
        &&& all_usable(self.crops@)
        &&& all_usable(self.tabs@)
        &&& all_usable(self.logos@)
        &&& trimmable(0, self.logos@[0])
        &&& trimmable(1, self.logos@[1])
        &&& usable(self.locator)
        &&& usable(self.arrow_up)
        &&& usable(self.arrow_down)
        &&& usable(self.pomme)
    }
}

/// The whole sprites of a list of sources.
pub open spec fn whole_views(sources: Seq<SpriteSource>, images: Seq<Option<RgbaImage>>) -> Seq<SpriteView> {
    Seq::new(
        sources.len(),
        |i: int| loaded_sprite(sources[i].id, images[i], sources[i].border),
    )
}

/// The head, the locator bar and its arrows, and the mark of an unknown waypoint.
pub open spec fn special_views(inputs: SpriteInputs) -> Seq<SpriteView> {
    seq![
        face_sprite(inputs.face),
        locator_sprite(inputs.locator),
        arrow_sprite(SpriteId::LocatorArrowUp0, inputs.arrow_up, false),
        arrow_sprite(SpriteId::LocatorArrowUp1, inputs.arrow_up, true),
        arrow_sprite(SpriteId::LocatorArrowDown0, inputs.arrow_down, false),
        arrow_sprite(SpriteId::LocatorArrowDown1, inputs.arrow_down, true),
        missing_sprite(SpriteId::LocatorDotMissing),
    ]
}

/// The cut-out sprites.
pub open spec fn crop_views(images: Seq<Option<RgbaImage>>) -> Seq<SpriteView> {
    Seq::new(14, |i: int| crop_sprite(i, images[i]))
}

/// The creative tabs.
pub open spec fn tab_views(images: Seq<Option<RgbaImage>>) -> Seq<SpriteView> {
    Seq::new(28, |i: int| loaded_sprite(CREATIVE_TABS[i], images[i], 0))
}

/// The title images.
pub open spec fn logo_views(images: Seq<Option<RgbaImage>>) -> Seq<SpriteView> {
    Seq::new(2, |i: int| logo_sprite(i, images[i]))
}

/// The project logo; it is left out where it did not decode.
pub open spec fn pomme_views(image: Option<RgbaImage>) -> Seq<SpriteView> {
    match image {
        Some(i) => seq![whole_sprite(SpriteId::PommeLogo, i, 0)],
        None => Seq::empty(),
    }
}

/// All sprites of the atlas, in packing order.
pub open spec fn atlas_views(sources: Seq<SpriteSource>, inputs: SpriteInputs) -> Seq<SpriteView> {
    whole_views(sources, inputs.whole@) + special_views(inputs) + crop_views(inputs.crops@)
        + tab_views(inputs.tabs@) + logo_views(inputs.logos@) + pomme_views(inputs.pomme)
}

/// Every sprite's bytes fill its size.
pub open spec fn sprites_wf(list: Seq<SpriteImage>) -> bool {
    forall|i: int| 0 <= i < list.len() ==> (#[trigger] list[i]).image.wf()
}

fn push_sprite(list: &mut Vec<SpriteImage>, id: SpriteId, image: RgbaImage, border: u32)
    requires
        sprites_wf(old(list)@),
        image.wf(),
    ensures
        sprites_wf(final(list)@),
        sprite_views(final(list)@) == sprite_views(old(list)@).push(
            whole_sprite(id, image, border),
        ),
{
    let ghost before = list@;
    list.push(SpriteImage { id, image, border });
    assert(sprite_views(list@) =~= sprite_views(before).push(whole_sprite(id, image, border)));
}

fn push_loaded(list: &mut Vec<SpriteImage>, id: SpriteId, image: Option<RgbaImage>, border: u32)
    requires
        sprites_wf(old(list)@),
        usable(image),
    ensures
        sprites_wf(final(list)@),
        sprite_views(final(list)@) == sprite_views(old(list)@).push(
            loaded_sprite(id, image, border),
        ),
{
    match image {
        Some(i) => push_sprite(list, id, i, border),
        None => push_sprite(list, id, missing_image(), 0),
    }
}

fn take_slot(list: &mut Vec<Option<RgbaImage>>, i: usize) -> (image: Option<RgbaImage>)
    requires
        i < old(list)@.len(),
    ensures
        image == old(list)@[i as int],
        final(list)@.len() == old(list)@.len(),
        forall|j: int| 0 <= j < old(list)@.len() && j != i ==> final(list)@[j] == old(list)@[j],
{
    let slot = &mut list[i];
    slot.take()
}

fn push_face(list: &mut Vec<SpriteImage>, face: Option<Vec<u8>>)
    requires
        sprites_wf(old(list)@),
        face matches Some(f) ==> f@.len() == 256,
    ensures
        sprites_wf(final(list)@),
        sprite_views(final(list)@) == sprite_views(old(list)@).push(face_sprite(face)),
{
    match face {
        Some(pixels) => {
            let image = RgbaImage { pixels, width: 8, height: 8 };
            assert(image.width * image.height == 64) by (nonlinear_arith)
                requires
                    image.width == 8,
                    image.height == 8,
            ;
            push_sprite(list, SpriteId::SteveHead, image, 0)
        },
        None => push_sprite(list, SpriteId::SteveHead, missing_image(), 0),
    }
}

fn push_arrows(list: &mut Vec<SpriteImage>, first: SpriteId, second: SpriteId, strip: Option<RgbaImage>)
    requires
        sprites_wf(old(list)@),
        usable(strip),
    ensures
        sprites_wf(final(list)@),
        sprite_views(final(list)@) == sprite_views(old(list)@).push(
            arrow_sprite(first, strip, false),
        ).push(arrow_sprite(second, strip, true)),
{
    let frames = match &strip {
        Some(image) => crate::pixels::arrow_frames(image),
        None => None,
    };
    match frames {
        Some((a, b)) => {
            let one = RgbaImage { pixels: a, width: 7, height: 5 };
            let two = RgbaImage { pixels: b, width: 7, height: 5 };
            proof {
                let s = strip->0;
                assert(s.width * s.height == 70) by (nonlinear_arith)
                    requires
                        s.width == 7,
                        s.height == 10,
                ;
                assert(one.width * one.height == 35) by (nonlinear_arith)
                    requires
                        one.width == 7,
                        one.height == 5,
                ;
                assert(two.width * two.height == 35) by (nonlinear_arith)
                    requires
                        two.width == 7,
                        two.height == 5,
                ;
            }
            push_sprite(list, first, one, 0);
            push_sprite(list, second, two, 0);
        },
        None => {
            push_sprite(list, first, missing_image(), 0);
            push_sprite(list, second, missing_image(), 0);
        },
    }
}

fn push_locator(list: &mut Vec<SpriteImage>, image: Option<RgbaImage>)
    requires
        sprites_wf(old(list)@),
        usable(image),
    ensures
        sprites_wf(final(list)@),
        sprite_views(final(list)@) == sprite_views(old(list)@).push(locator_sprite(image)),
{
    match image {
        Some(i) => push_sprite(list, SpriteId::LocatorBarBackground, locator_background(i), 0),
        None => push_sprite(list, SpriteId::LocatorBarBackground, missing_image(), 0),
    }
}

fn push_crop(list: &mut Vec<SpriteImage>, i: usize, image: Option<RgbaImage>)
    requires
        sprites_wf(old(list)@),
        usable(image),
        i < 14,
    ensures
        sprites_wf(final(list)@),
        sprite_views(final(list)@) == sprite_views(old(list)@).push(crop_sprite(i as int, image)),
{
    let table = CROPS;
    let row = table[i];
    match image {
        Some(img) => push_sprite(list, row.0, crop_image(&img, row.2, row.3, row.4), 0),
        None => push_sprite(list, row.0, missing_image(), 0),
    }
}

fn push_logo(list: &mut Vec<SpriteImage>, i: usize, image: Option<RgbaImage>)
    requires
        sprites_wf(old(list)@),
        usable(image),
        i < 2,
        trimmable(i as int, image),
    ensures
        sprites_wf(final(list)@),
        sprite_views(final(list)@) == sprite_views(old(list)@).push(logo_sprite(i as int, image)),
{
    let table = LOGOS;
    let row = table[i];
    match image {
        Some(img) => {
            assert(row == LOGOS[i as int]);
            assert(row.2 > 0);
            push_sprite(list, row.0, trim_rows(img, row.2, row.3), 0)
        },
        None => push_sprite(list, row.0, missing_image(), 0),
    }
}

/// Prepares every sprite of the atlas from what was loaded.
pub fn collect_sprites(sources: &Vec<SpriteSource>, inputs: SpriteInputs) -> (list: Vec<SpriteImage>)
    requires
        inputs.wf(sources@),
    ensures
        sprites_wf(list@),
        sprite_views(list@) == atlas_views(sources@, inputs),
{
    let ghost given = inputs;
    let tabs_table = CREATIVE_TABS;
    let mut whole = inputs.whole;
    let mut crops = inputs.crops;
    let mut tabs = inputs.tabs;
    let mut logos = inputs.logos;
    let mut list: Vec<SpriteImage> = Vec::new();
    let mut i: usize = 0;
    let ghost part = whole_views(sources@, given.whole@);
    assert(sprite_views(list@) =~= part.take(0));
    while i < sources.len()
        invariant
            i <= sources@.len(),
            given.wf(sources@),
            part == whole_views(sources@, given.whole@),
            whole@.len() == sources@.len(),
            forall|j: int| i <= j < sources@.len() ==> whole@[j] == given.whole@[j],
            sprites_wf(list@),
            sprite_views(list@) == part.take(i as int),
        decreases sources@.len() - i,
    {
        assert(usable(given.whole@[i as int]));
        let image = take_slot(&mut whole, i);
        push_loaded(&mut list, sources[i].id, image, sources[i].border);
        i = i + 1;
        assert(sprite_views(list@) =~= part.take(i as int));
    }
    assert(part.take(sources@.len() as int) =~= part);
    let ghost done1 = part;
    push_face(&mut list, inputs.face);
    push_locator(&mut list, inputs.locator);
    push_arrows(
        &mut list,
        SpriteId::LocatorArrowUp0,
        SpriteId::LocatorArrowUp1,
        inputs.arrow_up,
    );
    push_arrows(
        &mut list,
        SpriteId::LocatorArrowDown0,
        SpriteId::LocatorArrowDown1,
        inputs.arrow_down,
    );
    push_sprite(&mut list, SpriteId::LocatorDotMissing, missing_image(), 0);
    let ghost done2 = done1 + special_views(given);
    assert(sprite_views(list@) =~= done2);
    let ghost part = crop_views(given.crops@);
    i = 0;
    assert(sprite_views(list@) =~= done2 + part.take(0));
    while i < 14
        invariant
            i <= 14,
            given.wf(sources@),
            part == crop_views(given.crops@),
            crops@.len() == 14,
            forall|j: int| i <= j < 14 ==> crops@[j] == given.crops@[j],
            sprites_wf(list@),
            sprite_views(list@) == done2 + part.take(i as int),
        decreases 14 - i,
    {
        assert(usable(given.crops@[i as int]));
        let image = take_slot(&mut crops, i);
        push_crop(&mut list, i, image);
        i = i + 1;
        assert(sprite_views(list@) =~= done2 + part.take(i as int));
    }
    assert(part.take(14) =~= part);
    let ghost done3 = done2 + part;
    let ghost part = tab_views(given.tabs@);
    i = 0;
    assert(sprite_views(list@) =~= done3 + part.take(0));
    while i < 28
        invariant
            i <= 28,
            given.wf(sources@),
            tabs_table == CREATIVE_TABS,
            part == tab_views(given.tabs@),
            tabs@.len() == 28,
            forall|j: int| i <= j < 28 ==> tabs@[j] == given.tabs@[j],
            sprites_wf(list@),
            sprite_views(list@) == done3 + part.take(i as int),
        decreases 28 - i,
    {
        assert(usable(given.tabs@[i as int]));
        let image = take_slot(&mut tabs, i);
        push_loaded(&mut list, tabs_table[i], image, 0);
        i = i + 1;
        assert(sprite_views(list@) =~= done3 + part.take(i as int));
    }
    assert(part.take(28) =~= part);
    let ghost done4 = done3 + part;
    let ghost part = logo_views(given.logos@);
    i = 0;
    assert(sprite_views(list@) =~= done4 + part.take(0));
    while i < 2
        invariant
            i <= 2,
            given.wf(sources@),
            part == logo_views(given.logos@),
            logos@.len() == 2,
            forall|j: int| i <= j < 2 ==> logos@[j] == given.logos@[j],
            sprites_wf(list@),
            sprite_views(list@) == done4 + part.take(i as int),
        decreases 2 - i,
    {
        assert(usable(given.logos@[i as int]));
        let image = take_slot(&mut logos, i);
        push_logo(&mut list, i, image);
        i = i + 1;
        assert(sprite_views(list@) =~= done4 + part.take(i as int));
    }
    assert(part.take(2) =~= part);
    if let Some(image) = inputs.pomme {
        push_sprite(&mut list, SpriteId::PommeLogo, image, 0);
    }
    assert(sprite_views(list@) =~= atlas_views(sources@, given));
    list
}

/// A line of a tooltip.
pub struct TooltipLine {
    pub spans: Vec<crate::mc_text::TextSpan>,
    pub right_align: bool,
}

impl TooltipLine {
    pub fn new(spans: Vec<crate::mc_text::TextSpan>) -> (line: Self)
        ensures
            line.spans == spans,
            !line.right_align,
    {
        TooltipLine { spans, right_align: false }
    }

    pub fn right_aligned(spans: Vec<crate::mc_text::TextSpan>) -> (line: Self)
        ensures
            line.spans == spans,
            line.right_align,
    {
        TooltipLine { spans, right_align: true }
    }
}

/// The icon of an effect comes from the asset named after it.
pub proof fn law_effects_are_named_after_themselves(names: Seq<String>, i: int)
    requires
        0 <= i < names.len() <= 256,
    ensures
        effect_sources(names).len() == names.len(),
        effect_sources(names)[i].0 == SpriteId::MobEffect(i as u8),
        effect_sources(names)[i].1 == "minecraft/textures/mob_effect/"@ + (names[i]@ + ".png"@),
        effect_sources(names)[i].2 == 0,
{
    assert("minecraft/textures/mob_effect/"@ + names[i]@ + ".png"@
        =~= "minecraft/textures/mob_effect/"@ + (names[i]@ + ".png"@));
}

/// Every colour and every notching of a boss bar has its background before its progress,
/// from the assets named after it.
pub proof fn law_boss_bars_come_in_pairs(k: int)
    requires
        0 <= k < 11,
    ensures
        ({
            let all = boss_sources();
            let name = if k < 7 {
                BOSS_COLORS[k]@
            } else {
                BOSS_NOTCHES[k - 7]@
            };
            let folder = "minecraft/textures/gui/sprites/boss_bar/"@;
            &&& all.len() == 22
            &&& all[2 * k].1 == folder + (name + "_background.png"@)
            &&& all[2 * k + 1].1 == folder + (name + "_progress.png"@)
            &&& k < 7 ==> all[2 * k].0 == SpriteId::BossBarBackground(k as u8) && all[2 * k + 1].0
                == SpriteId::BossBarProgress(k as u8)
            &&& k >= 7 ==> all[2 * k].0 == SpriteId::BossBarNotchedBackground((k - 7) as u8)
                && all[2 * k + 1].0 == SpriteId::BossBarNotchedProgress((k - 7) as u8)
        }),
{
    let name = if k < 7 {
        BOSS_COLORS[k]@
    } else {
        BOSS_NOTCHES[k - 7]@
    };
    let folder = "minecraft/textures/gui/sprites/boss_bar/"@;
    assert((2 * k) % 2 == 0 && (2 * k) / 2 == k);
    assert((2 * k + 1) % 2 == 1 && (2 * k + 1) / 2 == k);
    assert((2 * k - 14) / 2 == k - 7 && (2 * k + 1 - 14) / 2 == k - 7);
    assert(folder + name + "_background.png"@ =~= folder + (name + "_background.png"@));
    assert(folder + name + "_progress.png"@ =~= folder + (name + "_progress.png"@));
}

/// The sprite of a map decoration comes from the asset with its key.
pub proof fn law_decorations_have_their_key(keys: Seq<String>, i: int)
    requires
        keys.len() == 35,
        0 <= i < 35,
    ensures
        decoration_sources(keys).len() == 35,
        decoration_sources(keys)[i].0 == SpriteId::MapDecoration(MAP_DECORATIONS[i]),
        decoration_sources(keys)[i].1 == "minecraft/textures/map/decorations/"@ + (keys[i]@
            + ".png"@),
{
    assert("minecraft/textures/map/decorations/"@ + keys[i]@ + ".png"@
        =~= "minecraft/textures/map/decorations/"@ + (keys[i]@ + ".png"@));
}

/// The tabs come row by row, the top one first, unselected before selected, seven columns
/// each, counted from one.
pub proof fn law_tabs_count_their_columns(bottom: bool, selected: bool, col: int)
    requires
        0 <= col < 7,
    ensures
        ({
            let tab = (if bottom {
                14int
            } else {
                0
            }) + (if selected {
                7int
            } else {
                0
            }) + col;
            let name = (if bottom {
                "bottom_"@
            } else {
                "top_"@
            }) + (if selected {
                "selected_"@
            } else {
                "unselected_"@
            });
            tab_key(tab) == "minecraft/textures/gui/sprites/container/creative_inventory/tab_"@
                + name + crate::text::decimal((col + 1) as nat) + ".png"@
        }),
{
    let folder = "minecraft/textures/gui/sprites/container/creative_inventory/tab_"@;
    let tab = (if bottom {
        14int
    } else {
        0
    }) + (if selected {
        7int
    } else {
        0
    }) + col;
    let a = if bottom {
        "bottom_"@
    } else {
        "top_"@
    };
    let b = if selected {
        "selected_"@
    } else {
        "unselected_"@
    };
    assert(tab % 7 == col);
    assert(folder + a + b =~= folder + (a + b));
}

/// A sprite that was loaded keeps its size, its pixels and its border under its own
/// identity; one that was not is a single magenta pixel without border.
pub proof fn law_sprites_show_their_image(
    sources: Seq<SpriteSource>,
    inputs: SpriteInputs,
    i: int,
)
    requires
        inputs.wf(sources),
        0 <= i < sources.len(),
    ensures
        ({
            let view = atlas_views(sources, inputs)[i];
            &&& view.id == sources[i].id
            &&& match inputs.whole@[i] {
                Some(image) => view.width == image.width && view.height == image.height
                    && view.pixels == image.pixels@ && view.border == sources[i].border,
                None => view.width == 1 && view.height == 1 && view.pixels == seq![
                    255u8,
                    0u8,
                    255u8,
                    255u8,
                ] && view.border == 0,
            }
        }),
{
}

/// The two frames of an arrow strip are its upper and its lower half, and the arrows that
/// point up come from the strip for those.
pub proof fn law_arrows_are_halves_of_their_strip(
    sources: Seq<SpriteSource>,
    inputs: SpriteInputs,
    down: bool,
    second: bool,
    x: int,
    y: int,
    channel: int,
)
    requires
        inputs.wf(sources),
        ({
            let strip = if down {
                inputs.arrow_down
            } else {
                inputs.arrow_up
            };
            strip is Some && strip->0.width == 7 && strip->0.height == 10
        }),
        0 <= x < 7,
        0 <= y < 5,
        0 <= channel < 4,
    ensures
        ({
            let strip = if down {
                inputs.arrow_down->0
            } else {
                inputs.arrow_up->0
            };
            let view = special_views(inputs)[2 + (if down {
                2int
            } else {
                0
            }) + (if second {
                1int
            } else {
                0
            })];
            &&& view.id == (match (down, second) {
                (false, false) => SpriteId::LocatorArrowUp0,
                (false, true) => SpriteId::LocatorArrowUp1,
                (true, false) => SpriteId::LocatorArrowDown0,
                (true, true) => SpriteId::LocatorArrowDown1,
            })
            &&& view.width == 7 && view.height == 5 && view.border == 0
            &&& view.pixels[4 * (7 * y + x) + channel] == strip.pixels@[4 * (7 * (y + (if second {
                5int
            } else {
                0
            })) + x) + channel]
        }),
{
    let strip = if down {
        inputs.arrow_down->0
    } else {
        inputs.arrow_up->0
    };
    assert(strip.width * strip.height == 70) by (nonlinear_arith)
        requires
            strip.width == 7,
            strip.height == 10,
    ;
    assert(strip.pixels@.len() == 280);
}

/// The head, the locator bar and the mark of an unknown waypoint stand beside the arrows:
/// the head as the eight pixels a side cut out of the skin, the mark always magenta.
pub proof fn law_special_sprites_are_their_own(inputs: SpriteInputs)
    ensures
        ({
            let views = special_views(inputs);
            &&& views.len() == 7
            &&& views[0].id == SpriteId::SteveHead
            &&& inputs.face matches Some(f) ==> views[0].width == 8 && views[0].height == 8
                && views[0].pixels == f@
            &&& views[1].id == SpriteId::LocatorBarBackground
            &&& inputs.locator matches Some(image) ==> if image.width == 12 && image.height == 5 {
                views[1].width == 182 && views[1].height == 5
            } else {
                views[1].width == image.width && views[1].height == image.height
                    && views[1].pixels == image.pixels@
            }
            &&& views[6].id == SpriteId::LocatorDotMissing
            &&& views[6].width == 1 && views[6].height == 1 && views[6].pixels == seq![
                255u8,
                0u8,
                255u8,
                255u8,
            ]
        }),
{
}

/// A cut-out sprite shows its part of the image: from the row its table gives down, and no
/// larger than the table allows.
pub proof fn law_cut_outs_show_their_part(
    images: Seq<Option<RgbaImage>>,
    i: int,
    x: int,
    y: int,
    channel: int,
)
    requires
        images.len() == 14,
        0 <= i < 14,
        images[i] is Some,
        0 <= x < crop_views(images)[i].width,
        0 <= y < crop_views(images)[i].height,
        0 <= channel < 4,
    ensures
        ({
            let view = crop_views(images)[i];
            let image = images[i]->0;
            let (id, _, top, w, h) = CROPS[i];
            &&& view.id == id
            &&& view.width <= w && view.height <= h
            &&& view.width <= image.width && top + view.height <= image.height
            &&& view.width == w || view.width == image.width
            &&& view.height == h || top + view.height == image.height
            &&& view.pixels[4 * (y * view.width + x) + channel] == image.pixels@[4 * ((top + y)
                * image.width + x) + channel]
        }),
{
    let view = crop_views(images)[i];
    let image = images[i]->0;
    crate::pixels::law_crops_keep_their_pixels(
        image.pixels@,
        image.width as int,
        CROPS[i].2 as int,
        view.width as int,
        view.height as int,
        x,
        y,
        channel,
    );
}

} // verus!
