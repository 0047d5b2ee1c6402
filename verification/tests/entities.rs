use pomme_renderer::glyph_quads::GlyphShape;
use pomme_renderer::sign_text::draw_sign_text;
use pomme_renderer::sign_text::is_black;
use pomme_renderer::sign_text::sign_sides;
use pomme_renderer::sign_text::Dye;
use pomme_renderer::sign_text::SidePick;
use pomme_renderer::sign_text::SignGlyph;
use pomme_renderer::sign_text::SignGlyphQuad;
use pomme_renderer::sign_text::SignItem;
use pomme_renderer::sign_text::SignSide;
use pomme_renderer::sign_text::MAX_SIGN_QUADS;
use pomme_renderer::block_entity::chest_partner_offset;
use pomme_renderer::block_entity::descriptor_pool;
use pomme_renderer::block_entity::is_christmas;
use pomme_renderer::block_entity::kind_definitions;
use pomme_renderer::block_entity::lid_anim;
use pomme_renderer::block_entity::LidPart;
use pomme_renderer::block_entity::sign_pool;
use pomme_renderer::block_entity::variant_for_block;
use pomme_renderer::block_entity::yaw_for_block;
use pomme_renderer::block_entity::BlockEntityKind;
use pomme_renderer::block_entity::BlockYaw;
use pomme_renderer::block_entity::SIXTEENTH;
use pomme_renderer::block_entity_draw::entry_index;
use pomme_renderer::block_entity_draw::first_loaded;
use pomme_renderer::block_entity_draw::fit_line;
use pomme_renderer::block_entity_draw::plan_draws;
use pomme_renderer::block_entity_draw::plan_sign_line;
use pomme_renderer::block_entity_draw::rebase_models;
use pomme_renderer::block_entity_draw::sign_ink;
use pomme_renderer::block_entity_draw::BakedModel;
use pomme_renderer::block_entity_draw::DrawCommand;
use pomme_renderer::block_entity_draw::DrawItem;
use pomme_renderer::block_entity_draw::GlyphSize;
use pomme_renderer::block_entity_draw::KindEntry;
use pomme_renderer::block_entity_draw::PartRange;
use pomme_renderer::entity::death_fall;
use pomme_renderer::entity::dye_color_tint;
use pomme_renderer::entity::entity_bounds;
use pomme_renderer::entity::fallback_texture;
use pomme_renderer::entity::jeb_sheep_tint;
use pomme_renderer::entity::parts_match;
use pomme_renderer::entity::repeats_texture;
use pomme_renderer::entity::rgb;
use pomme_renderer::entity::wool_color_tint;
use pomme_renderer::entity::MobEntry;
use pomme_renderer::entity::MobVariant;
use pomme_renderer::entity_draw::instance_count;
use pomme_renderer::entity_draw::plan_frame;
use pomme_renderer::entity_draw::record_pass;
use pomme_renderer::entity_draw::shown_entities;
use pomme_renderer::entity_draw::texture_sets;
use pomme_renderer::entity_draw::vis_entities;
use pomme_renderer::entity_draw::vis_entity;
use pomme_renderer::entity_draw::EntityLook;
use pomme_renderer::entity_draw::OverlayUse;
use pomme_renderer::entity_draw::PassCommand;
use pomme_renderer::entity_draw::Shown;
use pomme_renderer::entity_draw::VisEntity;
use pomme_renderer::entity_draw::MAX_INSTANCES;
use pomme_renderer::mobs::expected_variant_count;
use pomme_renderer::mobs::fallback_key;
use pomme_renderer::mobs::mob_definitions;
use pomme_renderer::mobs::table_textures;
use pomme_renderer::mobs::AnimationType;
use pomme_renderer::mobs::EntityKind;
use pomme_renderer::mobs::OverlayKind;
use pomme_renderer::skins::SkinCache;
use pomme_renderer::skins::SkinUpdate;
use pomme_renderer::skins::MAX_PLAYER_SKINS;

#[test]
fn sign_board_geometry_is_not_drawn_as_block_entity_geometry() {
    assert!(kind_definitions(false)
        .iter()
        .all(|definition| definition.kind != BlockEntityKind::Sign));
    assert!(kind_definitions(true)
        .iter()
        .all(|definition| definition.kind != BlockEntityKind::Sign));
}

/// The fall in degrees of an entity dead for `ticks`.
fn death_fall_degrees(ticks: f32, kind: EntityKind) -> f32 {
    let (flip, squared) = death_fall((ticks * 1_000_000.0) as i64, kind);
    (squared as f32 / 100_000_000.0).sqrt() * flip as f32
}

#[test]
fn death_fall_matches_vanilla_boundaries_and_flip_overrides() {
    assert_eq!(death_fall_degrees(0.0, EntityKind::Zombie), 0.0);
    assert_eq!(death_fall_degrees(1.0, EntityKind::Zombie), 0.0);
    assert!(
        (death_fall_degrees(6.0, EntityKind::Zombie) - (0.4_f32.sqrt() * 90.0)).abs() < 1e-5
    );
    assert_eq!(death_fall_degrees(20.0, EntityKind::Zombie), 90.0);
    assert_eq!(death_fall_degrees(200.0, EntityKind::Zombie), 90.0);

    for kind in [
        EntityKind::Spider,
        EntityKind::CaveSpider,
        EntityKind::Endermite,
        EntityKind::Silverfish,
    ] {
        assert_eq!(
            death_fall_degrees(20.0, kind),
            180.0,
            "vanilla renderer override must use a 180-degree death flip for {kind:?}"
        );
    }
    for kind in [EntityKind::Squid, EntityKind::GlowSquid] {
        assert_eq!(
            death_fall_degrees(20.0, kind),
            0.0,
            "Vanilla SquidRenderer bypasses LivingEntityRenderer.setupRotations for {kind:?}"
        );
    }
}

#[test]
fn all_mob_meshes_bake() {
    let defs = mob_definitions();
    assert_eq!(defs.len(), 35);
    for def in &defs {
        assert!(!def.adult.is_empty());
        for variant in def.adult.iter().chain(&def.baby).chain(&def.adult_overlays) {
            assert!(!table_textures(variant.textures).is_empty());
        }
    }
    assert!(texture_sets(&defs) > MAX_PLAYER_SKINS as u32);
}

#[test]
fn renamed_textures_have_a_second_key() {
    assert_eq!(
        fallback_key("minecraft/textures/entity/cow/cow_temperate.png"),
        Some("minecraft/textures/entity/cow/cow.png")
    );
    assert_eq!(fallback_key("minecraft/textures/entity/bat.png"), None);
    assert_eq!(expected_variant_count(EntityKind::Wolf), Some(27));
    assert_eq!(expected_variant_count(EntityKind::Cat), Some(11));
    assert_eq!(expected_variant_count(EntityKind::Bat), None);
}

#[test]
fn chest_halves_find_each_other() {
    for facing in ["north", "south", "east", "west"] {
        let (lx, lz) = chest_partner_offset(facing, "left").unwrap();
        let (rx, rz) = chest_partner_offset(facing, "right").unwrap();
        assert_eq!((lx + rx, lz + rz), (0, 0));
    }
    assert_eq!(chest_partner_offset("north", "left"), Some((1, 0)));
    assert_eq!(chest_partner_offset("north", "single"), None);
    assert_eq!(chest_partner_offset("up", "left"), None);
}

#[test]
fn block_variants_follow_names() {
    let chest = BlockEntityKind::Chest;
    assert_eq!(variant_for_block(chest, "chest", None), 0);
    assert_eq!(variant_for_block(chest, "chest", Some("left")), 1);
    assert_eq!(variant_for_block(chest, "waxed_exposed_copper_chest", Some("right")), 8);
    let trapped = BlockEntityKind::TrappedChest;
    assert_eq!(variant_for_block(trapped, "trapped_chest", None), 0);
    assert_eq!(variant_for_block(trapped, "trapped_chest", Some("left")), 1);
    assert_eq!(variant_for_block(trapped, "trapped_chest", Some("right")), 2);
    let shulker = BlockEntityKind::ShulkerBox;
    assert_eq!(variant_for_block(shulker, "shulker_box", None), 16);
    assert_eq!(variant_for_block(shulker, "white_shulker_box", None), 0);
    assert_eq!(variant_for_block(shulker, "odd_shulker_box", None), 16);
    assert_eq!(variant_for_block(BlockEntityKind::Sign, "oak_wall_sign", None), 0);
    assert_eq!(variant_for_block(BlockEntityKind::EnderChest, "ender_chest", Some("left")), 0);
}

/// The yaw in degrees.
fn degrees(yaw: BlockYaw) -> f32 {
    match yaw {
        BlockYaw::Quarters(n) => n as f32 * 90.0,
        BlockYaw::Sixteenths(bits) => f32::from_bits(bits) * (SIXTEENTH as f32 / 10.0),
    }
}

#[test]
fn signs_turn_in_sixteenths() {
    let rotation = |text: &str| text.parse::<f32>().ok().map(f32::to_bits);
    let sign = BlockEntityKind::Sign;
    assert_eq!(degrees(yaw_for_block(sign, rotation("3"), None)), 67.5);
    assert_eq!(degrees(yaw_for_block(sign, rotation("2.5"), Some("west"))), 56.25);
    assert_eq!(
        yaw_for_block(sign, rotation("north"), Some("west")),
        yaw_for_block(BlockEntityKind::Chest, None, Some("west"))
    );
    assert_eq!(
        yaw_for_block(BlockEntityKind::Chest, rotation("3"), Some("west")),
        yaw_for_block(BlockEntityKind::Chest, None, Some("west"))
    );
    assert_eq!(
        yaw_for_block(BlockEntityKind::Other, rotation("3"), Some("west")),
        BlockYaw::Quarters(0)
    );
}

#[test]
fn chests_are_wrapped_at_christmas() {
    assert!(is_christmas(12, 24) && is_christmas(12, 25) && is_christmas(12, 26));
    assert!(!is_christmas(12, 23) && !is_christmas(12, 27) && !is_christmas(11, 25));
    let plain = kind_definitions(false);
    let wrapped = kind_definitions(true);
    assert_eq!(plain.len(), 4);
    assert!(wrapped[0].tex_variants[0].contains("christmas"));
    assert!(!plain[0].tex_variants[0].contains("christmas"));
    let pool = descriptor_pool(&plain);
    assert_eq!(pool.uniforms, 2);
    assert_eq!(pool.max_sets, pool.samplers + 2);
    assert_eq!(sign_pool().samplers, 4);
}

#[test]
fn models_share_one_buffer() {
    let model = |count| BakedModel {
        vertex_count: count,
        parts: vec![PartRange { start: 0, count: 6 }],
    };
    let mut models = vec![model(36), model(12), model(6)];
    assert_eq!(rebase_models(&mut models), 54);
    let starts: Vec<u32> = models.iter().map(|m| m.parts[0].start).collect();
    assert_eq!(starts, vec![0, 36, 48]);
}

fn kind_entry(models: usize, textures: usize) -> KindEntry {
    let mut list = Vec::new();
    for m in 0..models {
        list.push(BakedModel {
            vertex_count: 6,
            parts: vec![PartRange { start: 6 * m as u32, count: 6 }],
        });
    }
    KindEntry { models: list, textures }
}

#[test]
fn block_entities_bind_only_what_changes() {
    let entries = vec![
        kind_entry(3, 15),
        kind_entry(3, 3),
        kind_entry(1, 1),
        kind_entry(1, 17),
        kind_entry(4, 4),
    ];
    let shulker = |variant| DrawItem { kind: BlockEntityKind::ShulkerBox, variant, statue_pose: None };
    let sign = DrawItem { kind: BlockEntityKind::Sign, variant: 0, statue_pose: None };
    let out = plan_draws(&entries, &[shulker(2), sign, shulker(2), shulker(3)]);
    assert_eq!(
        out,
        vec![
            DrawCommand::BindVertices { entry: 3 },
            DrawCommand::BindTexture { entry: 3, slot: 2 },
            DrawCommand::Draw { item: 0, model: 0, part: 0, start: 0, count: 6 },
            DrawCommand::Draw { item: 2, model: 0, part: 0, start: 0, count: 6 },
            DrawCommand::BindTexture { entry: 3, slot: 3 },
            DrawCommand::Draw { item: 3, model: 0, part: 0, start: 0, count: 6 },
        ]
    );
    assert_eq!(entry_index(BlockEntityKind::Sign), None);
    assert_eq!(entry_index(BlockEntityKind::CopperGolemStatue), Some(4));
}

#[test]
fn sign_lines_are_fitted_and_outlined() {
    assert_eq!(fit_line(&[6, 6, 6, 6], 18), (3, 18));
    assert_eq!(fit_line(&[6, 6], 90), (2, 12));
    assert_eq!(fit_line(&[100], 90), (0, 0));
    let glyphs = [GlyphSize { width: 5, height: 8 }, GlyphSize { width: 0, height: 8 }];
    assert_eq!(plan_sign_line(&glyphs, false, 0).len(), 1);
    assert_eq!(plan_sign_line(&glyphs, true, 0).len(), 9);
    let ink = sign_ink(true, true, false);
    assert!(ink.pale_dark && ink.full_bright && ink.outline);
    let ink = sign_ink(false, true, false);
    assert!(!ink.pale_dark && ink.full_bright && !ink.outline);
    assert_eq!(first_loaded(&[false, true, true]), Some(1));
    assert_eq!(first_loaded(&[false]), None);
}

#[test]
fn tints_unpack_and_fade() {
    assert_eq!(rgb(0x12_34_56), [0x12, 0x34, 0x56]);
    assert_eq!(dye_color_tint(16), dye_color_tint(0));
    let start = jeb_sheep_tint(0, 0);
    let white = wool_color_tint(0);
    assert_eq!(start, [25 * white[0] as u32, 25 * white[1] as u32, 25 * white[2] as u32]);
    let next = wool_color_tint(1);
    assert_eq!(
        jeb_sheep_tint(0, 10)[0],
        15 * white[0] as u32 + 10 * next[0] as u32
    );
}

#[test]
fn babies_have_smaller_boxes() {
    let (w, h) = entity_bounds(EntityKind::Cow, false);
    let (bw, bh) = entity_bounds(EntityKind::Cow, true);
    assert!(bw < w && bh < h);
    let (pixels, pw, ph) = fallback_texture(2);
    assert_eq!((pw, ph), (2, 2));
    assert_eq!(pixels, [219, 148, 148, 255].repeat(4));
}

fn mob_variant(mesh: usize, kind: OverlayKind) -> MobVariant {
    MobVariant { mesh, set: 100 + mesh as u64, kind }
}

fn mob(kind: EntityKind) -> MobEntry {
    let base = |mesh| mob_variant(mesh, OverlayKind::Opaque);
    MobEntry {
        kind,
        anim: AnimationType::Humanoid,
        adult: vec![base(0), base(1), base(2)],
        baby: None,
        adult_overlays: vec![
            vec![base(3), base(4)],
            vec![mob_variant(5, OverlayKind::EyesTranslucent)],
        ],
        baby_overlays: vec![],
    }
}

fn look(kind: EntityKind, player: Option<u128>, is_baby: bool, variant_index: u32) -> EntityLook {
    EntityLook {
        kind,
        player,
        is_baby,
        variant_index,
        red: false,
        skip_cull: false,
        overlay_variants: [9, 0, 0, 0],
        tinted: [true, false, true, true],
    }
}

#[test]
fn entities_are_drawn_with_their_variants() {
    let zombie = mob(EntityKind::Zombie);
    let mut skins = SkinCache::new();
    skins.update_player_skin(1, 50, 7, true);
    let v = vis_entity(&look(EntityKind::Zombie, Some(1), false, 2), &zombie, &skins);
    assert_eq!((v.base_variant, v.base_set, v.red), (2, 102, false));
    let overlay = |variant, kind, tinted| OverlayUse {
        variant,
        set: 100 + variant as u64,
        kind,
        tinted,
    };
    assert_eq!(
        v.overlays,
        [overlay(4, OverlayKind::Opaque, true), overlay(5, OverlayKind::EyesTranslucent, false)]
    );
    assert!(vis_entity(&look(EntityKind::Zombie, None, true, 0), &zombie, &skins).overlays.is_empty());

    let player = mob(EntityKind::Player);
    let slim = vis_entity(&look(EntityKind::Player, Some(1), false, 2), &player, &skins);
    assert_eq!((slim.base_variant, slim.base_set), (1, 7));
    let unknown = vis_entity(&look(EntityKind::Player, Some(2), false, 2), &player, &skins);
    assert_eq!((unknown.base_variant, unknown.base_set), (2, 102));
}

#[test]
fn entities_in_sight_of_a_known_mob_are_shown() {
    let mobs = vec![mob(EntityKind::Zombie), mob(EntityKind::Player), mob(EntityKind::Zombie)];
    let mut own = look(EntityKind::Player, None, false, 0);
    own.skip_cull = true;
    let looks = vec![
        look(EntityKind::Zombie, None, false, 0),
        look(EntityKind::Pig, None, false, 0),
        own,
        look(EntityKind::Zombie, None, false, 1),
    ];
    let shown = shown_entities(&looks, &mobs, &vec![false, true, false, true]);
    assert_eq!(shown, [Shown { entity: 2, mob: 1 }, Shown { entity: 3, mob: 0 }]);
    let vis = vis_entities(&looks, &mobs, &SkinCache::new(), &shown);
    let bases: Vec<_> = vis.iter().map(|v| v.base_variant).collect();
    assert_eq!(bases, [0, 1]);
}

#[test]
fn pools_stand_in_for_missing_babies() {
    let mut entry = mob(EntityKind::Zombie);
    assert_eq!(entry.base_variant(true, 1).mesh, 1);
    assert_eq!(entry.base_variant(false, 2).mesh, 2);
    assert_eq!(entry.base_variant(false, 7).mesh, 2);
    assert_eq!(entry.overlays(true).len(), 0);
    assert_eq!(entry.overlay_variant(false, 0, 1).mesh, 4);
    entry.baby = Some(vec![mob_variant(8, OverlayKind::Opaque)]);
    assert_eq!(entry.base_variant(true, 1).mesh, 8);
    assert!(parts_match(&vec!["head".to_string()], &vec!["head".to_string()]));
    assert!(!parts_match(&vec!["head".to_string()], &vec!["body".to_string()]));
    assert!(repeats_texture(OverlayKind::SwirlAdditive));
    assert!(!repeats_texture(OverlayKind::EyesTranslucent));
}

#[test]
fn entities_of_one_variant_share_their_draws() {
    let cow = || VisEntity {
        base_variant: 0,
        base_set: 10,
        base_kind: OverlayKind::Opaque,
        red: false,
        overlays: vec![],
    };
    let spider = VisEntity {
        base_variant: 1,
        base_set: 11,
        base_kind: OverlayKind::Opaque,
        red: false,
        overlays: vec![OverlayUse {
            variant: 1,
            set: 12,
            kind: OverlayKind::EyesTranslucent,
            tinted: true,
        }],
    };
    let meshes = vec![
        vec![PartRange { start: 0, count: 36 }, PartRange { start: 36, count: 36 }],
        vec![PartRange { start: 0, count: 12 }],
    ];
    let plan = plan_frame(&vec![cow(), spider, cow()], &meshes);
    assert_eq!(plan.instances.len(), 6);
    assert_eq!(plan.opaque.len(), 3);
    assert_eq!((plan.opaque[0].first_instance, plan.opaque[0].instance_count), (0, 2));
    assert_eq!((plan.opaque[1].first_instance, plan.opaque[1].instance_count), (2, 2));
    assert_eq!(plan.eyes.len(), 1);
    assert!(plan.culled.is_empty() && plan.body.is_empty() && plan.swirl.is_empty());
    let commands = record_pass(&plan.opaque, plan.instances.len());
    assert_eq!(commands.len(), 5);
    assert_eq!(commands[0], PassCommand::Bind { variant: 0, set: 10 });
    assert_eq!(commands[3], PassCommand::Bind { variant: 1, set: 11 });
    assert_eq!(instance_count(MAX_INSTANCES + 1), MAX_INSTANCES);
    assert_eq!(instance_count(3), 3);
}

#[test]
fn skins_keep_their_set_and_their_limit() {
    let mut skins = SkinCache::new();
    let player = EntityKind::Player;
    assert!(matches!(skins.update_player_skin(1, 100, 7, true), SkinUpdate::Added));
    assert!(matches!(skins.update_player_skin(1, 101, 8, false), SkinUpdate::Replaced(100)));
    assert_eq!(skins.player_texture_set(player, Some(1), 99), 7);
    assert_eq!(skins.player_texture_set(player, Some(2), 99), 99);
    assert_eq!(skins.player_texture_set(EntityKind::Zombie, Some(1), 99), 99);
    assert_eq!(skins.player_texture_set(player, None, 99), 99);
    for id in 2..=MAX_PLAYER_SKINS as u128 {
        assert!(matches!(skins.update_player_skin(id, id as u64, 9, false), SkinUpdate::Added));
    }
    assert!(matches!(skins.update_player_skin(9_999, 1, 1, false), SkinUpdate::Refused));
    assert_eq!(skins.remove_player_skin(1).unwrap().texture, 101);
    assert!(skins.remove_player_skin(1).is_none());
    skins.clear_player_skins();
    assert_eq!(skins.set_for(5), None);
}

#[test]
fn lids_move_only_when_open() {
    let swing = |part: usize| LidPart { part, x_degrees: -90, y_degrees: 0, lift: 0 };
    assert_eq!(lid_anim(BlockEntityKind::EnderChest, true), vec![swing(1), swing(2)]);
    assert_eq!(
        lid_anim(BlockEntityKind::ShulkerBox, true),
        vec![LidPart { part: 0, x_degrees: 0, y_degrees: 270, lift: -8 }]
    );
    assert!(lid_anim(BlockEntityKind::Chest, false).is_empty());
    assert!(lid_anim(BlockEntityKind::Sign, true).is_empty());
}

fn sign_glyph(w: u32, advance: i64) -> SignGlyph {
    SignGlyph {
        shape: GlyphShape {
            layer: 0,
            colored: false,
            x: 0,
            y: 0,
            w,
            h: 8,
            left: 0,
            top: 0,
            draw_w: 5 * 256,
            draw_h: 8 * 256,
            bold_offset: 256,
            shadow_offset: 256,
        },
        advance,
    }
}

fn dye(r: f32, g: f32, b: f32) -> Dye {
    Dye { r: r.to_bits(), g: g.to_bits(), b: b.to_bits() }
}

fn sign_side(lines: Vec<Vec<SignGlyph>>, dye: Dye, glowing: bool) -> Option<SignSide> {
    Some(SignSide { lines, dye, glowing })
}

fn sign(front: Option<SignSide>, back: Option<SignSide>, near: bool) -> SignItem {
    SignItem { kind: BlockEntityKind::Sign, front, back, near }
}

#[test]
fn the_black_dye_is_told_by_its_color() {
    let (r, b) = (29.0 / 255.0, 33.0 / 255.0);
    assert!(is_black(dye(r, r, b)));
    assert!(!is_black(dye(0.0, 0.0, 0.0)));
    assert!(!is_black(dye(r, r, r)));
    assert!(!is_black(dye(r, b, b)));
    assert!(!is_black(dye(f32::NAN, r, b)));
}

#[test]
fn sides_with_text_are_drawn_front_before_back() {
    let white = dye(1.0, 1.0, 1.0);
    let text = || sign_side(vec![vec![sign_glyph(5, 6 * 256)]], white, false);
    let chest = SignItem {
        kind: BlockEntityKind::Chest,
        front: text(),
        back: text(),
        near: true,
    };
    let items = vec![
        chest,
        sign(text(), text(), false),
        sign(None, text(), false),
        sign(sign_side(Vec::new(), white, true), None, true),
        sign(text(), None, false),
    ];
    let pick = |item: usize, front: bool| SidePick { item, front };
    let picks =
        vec![pick(1, true), pick(1, false), pick(2, false), pick(3, true), pick(4, true)];
    assert_eq!(sign_sides(&items), picks);
    let drawn = draw_sign_text(&items);
    assert_eq!(drawn.sides, picks);
    let faces: Vec<usize> = drawn.quads.iter().map(|q| q.face).collect();
    assert_eq!(faces, [0, 1, 2, 4]);
}

#[test]
fn glyphs_may_step_back() {
    assert_eq!(fit_line(&[6, -2, 6], 10), (3, 10));
    assert_eq!(fit_line(&[6, 6, -6], 10), (1, 6));
    assert_eq!(fit_line(&[-4], 10), (1, -4));
}

#[test]
fn sign_lines_are_centred_and_outlined() {
    let line = vec![sign_glyph(5, 6 * 256), sign_glyph(0, 4 * 256), sign_glyph(5, 6 * 256)];
    let face = |glowing: bool, near: bool| {
        let lines = vec![Vec::new(), line.clone()];
        sign(sign_side(lines, dye(1.0, 0.5, 0.25), glowing), None, near)
    };
    let quad = |f: usize, glyph: usize, x: i64, y: i64, dark: bool| SignGlyphQuad {
        face: f,
        row: 1,
        glyph,
        x: x * 256,
        y: y * 256,
        dark,
    };
    assert_eq!(
        draw_sign_text(&vec![face(false, true)]).quads,
        vec![quad(0, 0, -16, -20, true), quad(0, 2, 4, -20, true)]
    );
    let lit = draw_sign_text(&vec![face(true, false), face(true, true)]).quads;
    assert_eq!(lit.len(), 2 + 18);
    assert_eq!(lit[0], quad(0, 0, -16, -20, false));
    assert_eq!(lit[2], quad(1, 0, -17, -21, true));
    assert_eq!(lit[18], quad(1, 0, -16, -20, false));
}

#[test]
fn sign_lines_stop_at_their_width_and_at_the_buffer() {
    let wide: Vec<SignGlyph> = (0..20).map(|_| sign_glyph(5, 6 * 256)).collect();
    let black = dye(29.0 / 255.0, 29.0 / 255.0, 33.0 / 255.0);
    let face = || sign(None, sign_side(vec![wide.clone(); 4], black, true), false);
    assert_eq!(draw_sign_text(&vec![face()]).quads.len(), 4 * 15 * 9);
    let many: Vec<SignItem> = (0..30).map(|_| face()).collect();
    assert_eq!(draw_sign_text(&many).quads.len(), MAX_SIGN_QUADS);
}
