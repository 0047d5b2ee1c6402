use pomme_renderer::block_entity_draw::sign_draw_len;
use pomme_renderer::block_entity_draw::PartRange;
use pomme_renderer::entity::compute_anim;
use pomme_renderer::entity::flip_degrees;
use pomme_renderer::entity::solid_image;
use pomme_renderer::entity::AnimCall;
use pomme_renderer::entity::AnimInputs;
use pomme_renderer::entity::link_overlays;
use pomme_renderer::entity::Gait;
use pomme_renderer::entity::PartPose;
use pomme_renderer::entity::VariantParts;
use pomme_renderer::entity_draw::collect_layers;
use pomme_renderer::entity_draw::collect_overlays;
use pomme_renderer::entity_draw::layer_look;
use pomme_renderer::entity_draw::plan_frame;
use pomme_renderer::entity_draw::OverlayUse;
use pomme_renderer::entity_draw::VisEntity;
use pomme_renderer::gpu::is_bgra;
use pomme_renderer::gpu::single_set_pool;
use pomme_renderer::gpu::Format;
use pomme_renderer::gpu::PoolPlan;
use pomme_renderer::menu_draw::flush_draw_op;
use pomme_renderer::menu_draw::DrawOp;
use pomme_renderer::mobs::AnimationType;
use pomme_renderer::mobs::EntityKind;
use pomme_renderer::mobs::OverlayKind;
use pomme_renderer::pixels::blank_pixels;
use pomme_renderer::pixels::image_or_missing;
use pomme_renderer::pixels::missing_image;
use pomme_renderer::pixels::RgbaImage;
use pomme_renderer::random::JavaRandom;
use pomme_renderer::random::ObfuscationRng;
use pomme_renderer::skins::SkinCache;
use pomme_renderer::text::decimal_text;
use pomme_renderer::text::join;
use pomme_renderer::text::name_index;
use pomme_renderer::text::same_text;
use pomme_renderer::text::strip_prefix_or_all;
use pomme_renderer::text::strip_suffix;

#[test]
fn text_is_taken_apart_and_joined() {
    assert_eq!(name_index(&["oak", "birch", "oak"], "oak"), Some(0));
    assert_eq!(name_index(&["oak", "birch"], "birch"), Some(1));
    assert_eq!(name_index(&["oak", "birch"], "bir"), None);
    assert!(same_text("pale_oak", "pale_oak"));
    assert!(!same_text("pale_oak", "pale"));
    assert_eq!(strip_suffix("oak_sign", "_sign"), Some("oak".to_string()));
    assert_eq!(strip_suffix("oak_sign", "_bed"), None);
    assert_eq!(strip_suffix("_sign", "_sign"), Some(String::new()));
    assert_eq!(strip_prefix_or_all("minecraft:stone", "minecraft:"), "stone");
    assert_eq!(strip_prefix_or_all("stone", "minecraft:"), "stone");
    assert_eq!(decimal_text(0), "0");
    assert_eq!(decimal_text(40_960), "40960");
    assert_eq!(decimal_text(u32::MAX), "4294967295");
    assert_eq!(join("item/", "stone"), "item/stone");
}

#[test]
fn draws_follow_the_generator() {
    let mut bits = ObfuscationRng::new(0);
    assert_eq!(bits.next_bits(32), 3_139_482_720);
    let mut fraction = JavaRandom::new(0);
    assert_eq!(fraction.next_double(), 6_583_972_509_698_697);
    let mut point = JavaRandom::new(0);
    assert_eq!(point.next_point(), (2_080_372_882_328_201, -2_337_040_203_396_219));
    let mut again = JavaRandom::new(0);
    again.next_double();
    again.next_double();
    assert_eq!(point.next(31), again.next(31));
}

#[test]
fn formats_and_pools_are_told_apart() {
    assert!(is_bgra(Format::B8G8R8A8Srgb));
    assert!(is_bgra(Format::B8G8R8A8Unorm));
    assert!(!is_bgra(Format::R8G8B8A8Srgb));
    assert_eq!(single_set_pool(3), PoolPlan { uniforms: 1, samplers: 3, max_sets: 2 });
}

#[test]
fn textures_that_fail_to_load_are_magenta() {
    let missing = missing_image();
    assert_eq!((missing.width, missing.height), (1, 1));
    assert_eq!(missing.pixels, vec![255, 0, 255, 255]);
    assert_eq!(image_or_missing(None).pixels, missing.pixels);
    let loaded = RgbaImage { pixels: vec![1, 2, 3, 4, 5, 6, 7, 8], width: 2, height: 1 };
    let kept = image_or_missing(Some(loaded));
    assert_eq!((kept.pixels, kept.width, kept.height), (vec![1, 2, 3, 4, 5, 6, 7, 8], 2, 1));
    assert_eq!(blank_pixels(3), vec![0, 0, 0]);
    assert_eq!(solid_image([9, 8, 7, 6], 2), vec![9, 8, 7, 6, 9, 8, 7, 6]);
}

#[test]
fn sign_vertices_are_drawn_in_whole_quads() {
    assert_eq!(sign_draw_len(0), 0);
    assert_eq!(sign_draw_len(13), 12);
    assert_eq!(sign_draw_len(65_536), 65_532);
    assert_eq!(sign_draw_len(1_000_000), 65_532);
}

#[test]
fn empty_batches_are_dropped() {
    let mut ops: Vec<DrawOp> = Vec::new();
    let mut start: u32 = 6;
    flush_draw_op(&mut ops, &mut start, 6, None, false, false);
    assert!(ops.is_empty());
    flush_draw_op(&mut ops, &mut start, 18, None, true, false);
    assert_eq!(start, 18);
    assert_eq!(
        ops,
        vec![DrawOp { start: 6, count: 12, scissor: None, invert: true, depth_test: false }]
    );
}

#[test]
fn spiders_die_on_their_backs() {
    assert_eq!(flip_degrees(EntityKind::Spider), 180);
    assert_eq!(flip_degrees(EntityKind::Silverfish), 180);
    assert_eq!(flip_degrees(EntityKind::Cow), 90);
}

#[test]
fn a_slim_skin_picks_the_slim_model() {
    let mut skins = SkinCache::new();
    skins.update_player_skin(1, 100, 7, true);
    skins.update_player_skin(2, 101, 8, false);
    assert_eq!(skins.effective_variant_index(EntityKind::Player, Some(1), 5), 1);
    assert_eq!(skins.effective_variant_index(EntityKind::Player, Some(2), 5), 0);
    assert_eq!(skins.effective_variant_index(EntityKind::Player, Some(3), 5), 5);
    assert_eq!(skins.effective_variant_index(EntityKind::Zombie, Some(1), 5), 5);
    assert_eq!(skins.player_skin(EntityKind::Player, Some(2)).unwrap().texture, 101);
    assert!(skins.player_skin(EntityKind::Player, None).is_none());
}

fn anim_inputs() -> AnimInputs {
    AnimInputs {
        kind: EntityKind::Zombie,
        is_baby: false,
        is_crouching: true,
        is_sprinting: false,
        is_sitting: false,
        is_angry: false,
        is_unhappy: false,
        is_creepy: false,
        is_holding_item: false,
        is_in_water: false,
        aggressive: true,
        animate_tail: false,
        bat_resting: false,
        head_x_rot: 1,
        local_head_y: 2,
        head_y_offset: 3,
        head_x_rot_override: Some(4),
        walk_pos: 5,
        walk_speed: 6,
        age: 7,
        attack_time: 8,
        flap: 9,
        flap_speed: 10,
        nose_wobble_speed: 11,
        tail_angle: 12,
        head_roll: 13,
        shake: 14,
        lie_down: 15,
        lie_down_tail: 16,
        relax: 17,
        hop_elapsed: None,
        eat: 18,
        stand: 19,
        feeding: 20,
        tentacle_angle: 21,
        bat_elapsed: None,
        golem_attack: 22,
        golem_flower: 23,
    }
}

#[test]
fn animations_read_their_own_inputs() {
    let info = anim_inputs();
    let gait = Gait { head_x_rot: 1, local_head_y: 2, walk_pos: 5, walk_speed: 6 };
    assert_eq!(
        compute_anim(AnimationType::Zombie, &info),
        AnimCall::Zombie { gait, aggressive: true, age: 7, attack_time: 8 }
    );
    assert_eq!(
        compute_anim(AnimationType::Chicken, &info),
        AnimCall::Chicken { gait, flap: 9, flap_speed: 10 }
    );
    assert_eq!(
        compute_anim(AnimationType::Humanoid, &info),
        AnimCall::Humanoid { gait, crouching: true }
    );
    assert_eq!(
        compute_anim(AnimationType::Quadruped, &info),
        AnimCall::Quadruped { gait, head_y_offset: 3, head_x_rot_override: Some(4) }
    );
}

#[test]
fn layers_are_collected_by_pass() {
    let vis = vec![
        VisEntity {
            base_variant: 0,
            base_set: 10,
            base_kind: OverlayKind::Opaque,
            red: false,
            overlays: vec![OverlayUse {
                variant: 2,
                set: 12,
                kind: OverlayKind::EyesTranslucent,
                tinted: true,
            }],
        },
        VisEntity {
            base_variant: 1,
            base_set: 11,
            base_kind: OverlayKind::OpaqueCulled,
            red: false,
            overlays: vec![],
        },
        VisEntity {
            base_variant: 0,
            base_set: 10,
            base_kind: OverlayKind::Opaque,
            red: false,
            overlays: vec![],
        },
    ];
    let opaque = collect_layers(&vis, false);
    assert_eq!(opaque.groups.len(), 1);
    assert_eq!((opaque.groups[0].variant, opaque.groups[0].set), (0, 10));
    assert_eq!(opaque.groups[0].members.len(), 2);
    assert_eq!(opaque.groups[0].members[1].entity, 2);
    let culled = collect_layers(&vis, true);
    assert_eq!(culled.groups.len(), 1);
    assert_eq!(culled.groups[0].members[0].entity, 1);
    let eyes = collect_overlays(&vis, OverlayKind::EyesTranslucent);
    assert_eq!((eyes.groups.len(), eyes.groups[0].set), (1, 12));
    assert_eq!(eyes.groups[0].members[0].slot, Some(0));
    let meshes = vec![
        vec![PartRange { start: 0, count: 36 }, PartRange { start: 36, count: 24 }],
        vec![],
        vec![],
    ];
    let mut instances = Vec::new();
    let records = opaque.emit(&meshes, &mut instances);
    assert_eq!(instances.len(), 4);
    assert_eq!(records.len(), 2);
    assert_eq!((records[1].part_start, records[1].part_count), (36, 24));
    assert_eq!((records[1].first_instance, records[1].instance_count), (2, 2));
}

#[test]
fn glowing_layers_do_not_flash() {
    assert_eq!(layer_look(None, true), (true, false));
    assert_eq!(layer_look(None, false), (false, false));
    assert_eq!(layer_look(Some(OverlayKind::BodyTranslucent), true), (true, false));
    assert_eq!(layer_look(Some(OverlayKind::EyesTranslucent), true), (false, false));
    assert_eq!(layer_look(Some(OverlayKind::SwirlAdditive), true), (false, true));
    let layer = |kind: OverlayKind, set: u64| OverlayUse { variant: 0, set, kind, tinted: true };
    let hurt = VisEntity {
        base_variant: 0,
        base_set: 1,
        base_kind: OverlayKind::Opaque,
        red: true,
        overlays: vec![
            layer(OverlayKind::Opaque, 2),
            layer(OverlayKind::EyesTranslucent, 3),
            layer(OverlayKind::SwirlAdditive, 4),
        ],
    };
    let plan = plan_frame(&vec![hurt], &vec![vec![PartRange { start: 0, count: 6 }]]);
    let looks: Vec<_> = plan.instances.iter().map(|i| (i.member.red, i.member.scrolls)).collect();
    assert_eq!(looks, vec![(true, false), (true, false), (false, false), (false, true)]);
}

#[test]
fn overlays_that_hang_otherwise_get_their_own_pivots() {
    let parts = |x: u32| VariantParts {
        names: vec!["head".to_string()],
        poses: vec![PartPose { x, y: 0, z: 0, x_rot: 0, y_rot: 0, z_rot: 0 }],
    };
    assert_eq!(link_overlays(&vec![parts(1)], &vec![parts(1), parts(2)]), vec![false, true]);
    assert_eq!(link_overlays(&vec![], &vec![parts(2)]), vec![false]);
    assert!(link_overlays(&vec![parts(1)], &vec![]).is_empty());
}
