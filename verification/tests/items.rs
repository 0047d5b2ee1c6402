use pomme_renderer::draw_trace::is_watched;
use pomme_renderer::draw_trace::plan_shadows;
use pomme_renderer::draw_trace::traced_draw;
use pomme_renderer::draw_trace::HeldDraws;
use pomme_renderer::draw_trace::ShadowTrace;
use pomme_renderer::draw_trace::TraceSettings;
use std::collections::HashMap;

use pomme_renderer::activation::attachments;
use pomme_renderer::activation::external_dependencies;
use pomme_renderer::activation::ActivationTargets;
use pomme_renderer::activation::DepthTarget;
use pomme_renderer::activation::ImageLayout;
use pomme_renderer::activation::LoadOp;
use pomme_renderer::activation::Release;
use pomme_renderer::activation::Subpass;
use pomme_renderer::activation::ACCESS_COLOR_ATTACHMENT_WRITE;
use pomme_renderer::activation::ACCESS_DEPTH_STENCIL_ATTACHMENT_WRITE;
use pomme_renderer::activation::STAGE_COLOR_ATTACHMENT_OUTPUT;
use pomme_renderer::activation::STAGE_EARLY_FRAGMENT_TESTS;
use pomme_renderer::activation::STAGE_LATE_FRAGMENT_TESTS;
use pomme_renderer::gpu::Format;
use pomme_renderer::hand::build_arm_vertices;
use pomme_renderer::hand::fallback_skin;
use pomme_renderer::hand::ArmVertex;
use pomme_renderer::item_display::resolve_item_model_path;
use pomme_renderer::item_display::DisplayResolver;
use pomme_renderer::item_display::winning_pack;
use pomme_renderer::item_display::DisplayWalk;
use pomme_renderer::item_display::WalkStep;
use pomme_renderer::item_extrude::build_extruded_item_mask;
use pomme_renderer::item_extrude::build_flat_quad;
use pomme_renderer::item_extrude::AlphaMask;
use pomme_renderer::item_extrude::SpriteVertex;
use pomme_renderer::item_mesh::gui_item_quad_order_key;
use pomme_renderer::item_mesh::mesh_corners;
use pomme_renderer::item_mesh::pack_light_tint;
use pomme_renderer::item_mesh::quad_order;
use pomme_renderer::item_mesh::tint_rgbs;
use pomme_renderer::item_mesh::Direction;
use pomme_renderer::item_mesh::QuadFaces;
use pomme_renderer::items::bake_to_slot;
use pomme_renderer::items::shadow_ambient;
use pomme_renderer::items::shadow_vertices;
use pomme_renderer::items::world_pipeline;
use pomme_renderer::items::HeldKind;
use pomme_renderer::items::ItemCommand;
use pomme_renderer::items::ItemMeshes;
use pomme_renderer::items::MeshBounds;
use pomme_renderer::items::MeshEntry;
use pomme_renderer::items::MeshPlan;
use pomme_renderer::map_quads::texture_pool;
use pomme_renderer::map_quads::MapQuads;
use pomme_renderer::pipeline_state::PipelineKind;

/// A sprite's place on an atlas.
#[derive(Clone, Copy)]
struct Region {
    u_min: f32,
    v_min: f32,
    u_max: f32,
    v_max: f32,
}

fn unit_region() -> Region {
    Region { u_min: 0.0, v_min: 0.0, u_max: 1.0, v_max: 1.0 }
}

fn opaque_pixel() -> AlphaMask {
    AlphaMask { width: 1, height: 1, frames: vec![vec![true]] }
}

fn uv(vertex: &SpriteVertex, mask: &AlphaMask, region: Region) -> [f32; 2] {
    [
        region.u_min + vertex.u as f32 / (10 * mask.width) as f32 * (region.u_max - region.u_min),
        region.v_min + vertex.v as f32 / (10 * mask.height) as f32 * (region.v_max - region.v_min),
    ]
}

fn position(vertex: &SpriteVertex, mask: &AlphaMask) -> [f32; 3] {
    [
        vertex.x as f32 / (2 * mask.width) as f32,
        vertex.y as f32 / (2 * mask.height) as f32,
        vertex.z as f32 / 32.0,
    ]
}

fn assert_uvs_near(vertices: &[SpriteVertex], mask: &AlphaMask, region: Region, expected: &[[f32; 2]]) {
    assert_eq!(vertices.len(), expected.len());
    for (vertex, expected) in vertices.iter().zip(expected) {
        let actual = uv(vertex, mask, region);
        assert!(
            (actual[0] - expected[0]).abs() <= f32::EPSILON
                && (actual[1] - expected[1]).abs() <= f32::EPSILON,
            "UV {actual:?} differs from expected {expected:?}"
        );
    }
}

fn faces(direction: Direction, cullface: Option<Direction>) -> QuadFaces {
    QuadFaces { cullface, shade_face: Some(direction) }
}

#[test]
fn gui_translucent_quad_order_matches_vanilla_buckets() {
    let quads = vec![
        faces(Direction::Down, Some(Direction::Down)),
        faces(Direction::East, None),
        faces(Direction::South, Some(Direction::South)),
        faces(Direction::Up, None),
        faces(Direction::North, Some(Direction::North)),
        faces(Direction::West, None),
    ];
    let order: Vec<_> = quad_order(&quads, true)
        .iter()
        .map(|&i| (quads[i].cullface.is_some(), quads[i].shade_face.unwrap()))
        .collect();
    assert_eq!(
        order,
        vec![
            (false, Direction::Up),
            (false, Direction::West),
            (false, Direction::East),
            (true, Direction::North),
            (true, Direction::South),
            (true, Direction::Down),
        ]
    );
}

#[test]
fn quads_of_one_bucket_keep_their_order() {
    let quads = vec![
        faces(Direction::Up, None),
        QuadFaces { cullface: None, shade_face: None },
        faces(Direction::Down, None),
        faces(Direction::Up, None),
    ];
    assert_eq!(quad_order(&quads, true), vec![2, 0, 1, 3]);
    assert_eq!(quad_order(&quads, false), vec![0, 1, 2, 3]);
    assert_eq!(gui_item_quad_order_key(&quads[1]), (0, 1));
    assert_eq!(gui_item_quad_order_key(&faces(Direction::Up, Some(Direction::West))), (1, 3));
}

#[test]
fn meshes_take_two_triangles_of_each_quad() {
    assert_eq!(
        mesh_corners(&vec![1, 0]),
        vec![
            (1, 0),
            (1, 1),
            (1, 2),
            (1, 2),
            (1, 3),
            (1, 0),
            (0, 0),
            (0, 1),
            (0, 2),
            (0, 2),
            (0, 3),
            (0, 0)
        ]
    );
}

#[test]
fn extruded_item_uses_item_rgb_for_front_back_and_mask_faces() {
    let vertices = build_extruded_item_mask(&opaque_pixel(), (124, 189, 107));
    assert_eq!(vertices.len(), 36);
    for vertex in vertices {
        assert_eq!(
            [
                ((vertex.light_tint >> 8) & 0xff) as u8,
                ((vertex.light_tint >> 16) & 0xff) as u8,
                ((vertex.light_tint >> 24) & 0xff) as u8,
            ],
            [124, 189, 107]
        );
    }
}

#[test]
fn extruded_item_side_faces_wind_outward() {
    let mask = opaque_pixel();
    let vertices = build_extruded_item_mask(&mask, (255, 255, 255));
    let expected_normals = [[0.0, 1.0, 0.0], [0.0, -1.0, 0.0], [-1.0, 0.0, 0.0], [1.0, 0.0, 0.0]];
    assert_eq!(vertices.len(), 36);
    for (face, expected) in vertices[12..].chunks(6).zip(expected_normals) {
        let p: Vec<[f32; 3]> = face.iter().map(|v| position(v, &mask)).collect();
        let a = [p[1][0] - p[0][0], p[1][1] - p[0][1], p[1][2] - p[0][2]];
        let b = [p[2][0] - p[0][0], p[2][1] - p[0][1], p[2][2] - p[0][2]];
        let normal = [
            a[1] * b[2] - a[2] * b[1],
            a[2] * b[0] - a[0] * b[2],
            a[0] * b[1] - a[1] * b[0],
        ];
        let dot: f32 = (0..3).map(|i| normal[i] * expected[i]).sum();
        assert!(dot > 0.0, "side face normal {normal:?} points away from {expected:?}");
    }
}

#[test]
fn extruded_item_carries_vanilla_cardinal_normals() {
    let vertices = build_extruded_item_mask(&opaque_pixel(), (255, 255, 255));
    let expected = [
        Direction::South,
        Direction::North,
        Direction::Up,
        Direction::Down,
        Direction::West,
        Direction::East,
    ];
    assert_eq!(vertices.len(), 36);
    for (face, expected) in vertices.chunks(6).zip(expected) {
        for vertex in face {
            assert_eq!(vertex.normal, expected);
        }
    }
}

#[test]
fn animated_extrusion_unions_exposed_edges_per_frame() {
    let mask = AlphaMask {
        width: 2,
        height: 1,
        frames: vec![vec![true, false], vec![false, true]],
    };
    let vertices = build_extruded_item_mask(&mask, (255, 255, 255));
    assert_eq!(vertices.len(), 12 + 8 * 6);
}

#[test]
fn extruded_item_back_face_preserves_sprite_orientation() {
    let mask = opaque_pixel();
    let vertices = build_extruded_item_mask(&mask, (255, 255, 255));
    assert_uvs_near(
        &vertices[6..12],
        &mask,
        unit_region(),
        &[[1.0, 1.0], [0.0, 1.0], [0.0, 0.0], [1.0, 1.0], [0.0, 0.0], [1.0, 0.0]],
    );
}

#[test]
fn extruded_item_front_and_back_use_true_sprite_bounds() {
    let mask = opaque_pixel();
    let region = Region {
        u_min: 16.0 / 64.0,
        v_min: 8.0 / 64.0,
        u_max: 32.0 / 64.0,
        v_max: 24.0 / 64.0,
    };
    let vertices = build_extruded_item_mask(&mask, (255, 255, 255));
    assert_uvs_near(
        &vertices[..12],
        &mask,
        region,
        &[
            [region.u_min, region.v_max],
            [region.u_max, region.v_max],
            [region.u_max, region.v_min],
            [region.u_min, region.v_max],
            [region.u_max, region.v_min],
            [region.u_min, region.v_min],
            [region.u_max, region.v_max],
            [region.u_min, region.v_max],
            [region.u_min, region.v_min],
            [region.u_max, region.v_max],
            [region.u_min, region.v_min],
            [region.u_max, region.v_min],
        ],
    );
}

#[test]
fn extruded_item_side_faces_match_vanilla_pixel_inset_uvs() {
    let mask = opaque_pixel();
    let vertices = build_extruded_item_mask(&mask, (255, 255, 255));
    let expected = [
        // UP
        [0.1, 0.1],
        [0.1, 0.9],
        [0.9, 0.9],
        [0.1, 0.1],
        [0.9, 0.9],
        [0.9, 0.1],
        // DOWN
        [0.9, 0.9],
        [0.9, 0.1],
        [0.1, 0.1],
        [0.9, 0.9],
        [0.1, 0.1],
        [0.1, 0.9],
        // LEFT / west-facing geometry
        [0.9, 0.9],
        [0.1, 0.9],
        [0.1, 0.1],
        [0.9, 0.9],
        [0.1, 0.1],
        [0.9, 0.1],
        // RIGHT / east-facing geometry
        [0.1, 0.1],
        [0.9, 0.1],
        [0.9, 0.9],
        [0.1, 0.1],
        [0.9, 0.9],
        [0.1, 0.9],
    ];
    assert_uvs_near(&vertices[12..], &mask, unit_region(), &expected);
}

#[test]
fn hidden_sprites_keep_their_planes() {
    let mask = AlphaMask { width: 2, height: 2, frames: vec![vec![false; 4]] };
    assert_eq!(build_extruded_item_mask(&mask, (1, 2, 3)).len(), 12);
    let full = AlphaMask { width: 2, height: 2, frames: vec![vec![true; 4]] };
    assert_eq!(build_extruded_item_mask(&full, (1, 2, 3)).len(), 12 + 8 * 6);
    assert!(full.has_exposed_edge(0, 0, -1, 0));
    assert!(!full.has_exposed_edge(0, 0, 1, 0));
    assert!(!mask.has_exposed_edge(0, 0, -1, 0));
    let flat = build_flat_quad((9, 8, 7));
    assert_eq!(flat.len(), 6);
    assert!(flat.iter().all(|v| v.z == 0 && v.normal == Direction::South));
    assert_eq!((flat[1].x, flat[1].y, flat[1].u, flat[1].v), (1, -1, 10, 10));
}

#[test]
fn tints_are_listed_once() {
    let red = pack_light_tint(3, (255, 0, 0));
    let blue = pack_light_tint(255, (0, 0, 255));
    assert_eq!(red, 0x0000_ff03);
    assert_eq!(blue, 0xff00_00ff);
    assert_eq!(
        tint_rgbs(&[red, blue, red | 0xff, blue]),
        vec![(255, 0, 0), (0, 0, 255)]
    );
    assert!(tint_rgbs(&[]).is_empty());
}

fn entry(buffer: u64, gui_buffer: Option<u64>, translucent: bool) -> MeshEntry {
    MeshEntry {
        buffer,
        gui_buffer,
        vertex_count: buffer as u32 * 10,
        is_3d_model: translucent,
        translucent,
        bounds: MeshBounds { low: [1, 2, 3], high: [4, 5, 6] },
        tint_rgbs: vec![],
    }
}

#[test]
fn meshes_are_built_once_and_only_when_there_is_something() {
    let mut meshes = ItemMeshes::new();
    assert_eq!(meshes.plan_mesh("ice", 6, true), MeshPlan::Build { gui_order: true });
    assert_eq!(meshes.plan_mesh("stone", 6, false), MeshPlan::Build { gui_order: false });
    assert_eq!(meshes.plan_mesh("air", 0, true), MeshPlan::Keep);
    assert_eq!(meshes.plan_flat_mesh("stick", true, 36), MeshPlan::Build { gui_order: false });
    assert_eq!(meshes.plan_flat_mesh("stick", false, 36), MeshPlan::Keep);
    meshes.insert_mesh("ice", entry(7, Some(8), true));
    assert_eq!(meshes.plan_mesh("ice", 6, true), MeshPlan::Keep);
    assert!(meshes.contains("ice"));
    assert_eq!(meshes.mesh_handle("ice"), Some((7, 70)));
    assert_eq!(meshes.gui_mesh_handle("ice"), Some((8, 70)));
    assert!(meshes.mesh_is_translucent("ice"));
    assert!(meshes.mesh_info("ice").unwrap().is_block_model);
    assert_eq!(meshes.mesh_handle("snow"), None);
    assert!(meshes.mesh_info("snow").is_none());
    let freed = meshes.clear_meshes();
    assert_eq!(freed.len(), 1);
    assert!(!meshes.contains("ice"));
}

#[test]
fn cutout_items_are_drawn_before_translucent_ones() {
    let mut meshes = ItemMeshes::new();
    meshes.insert_mesh("ice", entry(1, Some(2), true));
    meshes.insert_mesh("stone", entry(3, None, false));
    let items = vec![
        "ice".to_string(),
        "stone".to_string(),
        "unknown".to_string(),
        "ice".to_string(),
        "stone".to_string(),
    ];
    assert_eq!(
        meshes.plan_draws(&items),
        vec![
            ItemCommand::Bind { translucent: false },
            ItemCommand::Draw { item: 1, buffer: 3, vertex_count: 30 },
            ItemCommand::Draw { item: 4, buffer: 3, vertex_count: 30 },
            ItemCommand::Bind { translucent: true },
            ItemCommand::Draw { item: 0, buffer: 1, vertex_count: 10 },
            ItemCommand::Draw { item: 3, buffer: 1, vertex_count: 10 },
        ]
    );
    assert!(meshes.plan_draws(&vec![]).is_empty());
    let baked = bake_to_slot(&meshes, "ice").unwrap();
    assert_eq!(baked.buffer, 2);
    assert_eq!(baked.pipeline, PipelineKind::GuiItemTranslucent);
    let baked = bake_to_slot(&meshes, "stone").unwrap();
    assert_eq!(baked.buffer, 3);
    assert_eq!(baked.pipeline, PipelineKind::GuiItem);
    assert!(bake_to_slot(&meshes, "unknown").is_none());
    assert_eq!(world_pipeline(true), PipelineKind::ItemTranslucent);
    assert_eq!(world_pipeline(false), PipelineKind::ItemCutout);
}

#[test]
fn shadows_are_capped() {
    assert_eq!(shadow_vertices(0), None);
    assert_eq!(shadow_vertices(3), Some(18));
    assert_eq!(shadow_vertices(16), Some(96));
    assert_eq!(shadow_vertices(500), Some(96));
}

#[test]
fn held_items_and_activations_differ() {
    assert_eq!(HeldKind::FirstPerson.display_key(), "firstperson_righthand");
    assert_eq!(HeldKind::Activation.display_key(), "fixed");
    assert_eq!(HeldKind::FirstPerson.label(), "held_item");
    assert_eq!(HeldKind::Activation.label(), "totem_activation");
    assert!(!HeldKind::FirstPerson.follows_resources());
    assert!(HeldKind::Activation.follows_resources());
}

fn asset_key(name: &str, dir: &str) -> String {
    let (namespace, path) = name.split_once(':').unwrap_or(("minecraft", name));
    format!("{namespace}/{dir}/{path}.json")
}

/// The model a parsed definition names first.
fn first_ref(definition: &String) -> Option<String> {
    let mut value: serde_json::Value = serde_json::from_str(definition).ok()?;
    loop {
        match value.get_mut("model")?.take() {
            serde_json::Value::String(path) => return Some(path),
            inner => value = inner,
        }
    }
}

/// Walks over files held in memory: the game's own, then the packs over them.
fn walk(packs: &[&HashMap<String, String>], item: &str, key: &str) -> Option<String> {
    let read = |asset: &str| {
        let holds: Vec<bool> = packs[1..].iter().map(|p| p.contains_key(asset)).collect();
        let from = winning_pack(&holds).map_or(0, |i| i + 1);
        packs[from].get(asset).cloned()
    };
    let definition = read(&asset_key(item, "items"));
    let model = resolve_item_model_path(definition.as_deref(), first_ref);
    let (mut walk, mut step) = DisplayWalk::begin(model, key);
    loop {
        match step {
            WalkStep::Read(name) => {
                step = walk.feed(read(&asset_key(&name, "models")).as_deref());
            }
            WalkStep::Found(json) => return Some(json),
            WalkStep::Nothing => return None,
        }
    }
}

fn scale(resolver: &mut DisplayResolver<f64>, packs: &[&HashMap<String, String>]) -> f64 {
    let found = match resolver.cached("totem_of_undying") {
        Some(_) => None,
        None => walk(packs, "totem_of_undying", resolver.key).map(|json| {
            let value: serde_json::Value = serde_json::from_str(&json).unwrap();
            value["scale"][0].as_f64().unwrap()
        }),
    };
    resolver.resolve("totem_of_undying", found, 1.0)
}

fn put(pack: &mut HashMap<String, String>, key: &str, json: &str) {
    pack.insert(key.to_string(), json.to_string());
}

#[test]
fn reload_uses_pack_item_parent_priority_and_recreated_context() {
    let mut jar = HashMap::new();
    put(&mut jar, "minecraft/items/totem_of_undying.json", r#"{"model":"minecraft:item/base"}"#);
    put(&mut jar, "minecraft/models/item/base.json", r#"{"display":{"fixed":{"scale":[1,1,1]}}}"#);
    let mut resolver = DisplayResolver::new("fixed");
    assert_eq!(scale(&mut resolver, &[&jar]), 1.0);

    let mut low = HashMap::new();
    let mut high = HashMap::new();
    put(&mut low, "minecraft/items/totem_of_undying.json", r#"{"model":"minecraft:item/child"}"#);
    put(&mut low, "minecraft/models/item/child.json", r#"{"parent":"minecraft:item/parent"}"#);
    put(&mut low, "minecraft/models/item/parent.json", r#"{"display":{"fixed":{"scale":[2,2,2]}}}"#);
    put(&mut high, "minecraft/models/item/parent.json", "{ invalid json");
    resolver.clear_cache();
    assert_eq!(
        scale(&mut resolver, &[&jar, &low, &high]),
        1.0,
        "invalid winning JSON does not fall through"
    );

    put(&mut high, "minecraft/models/item/parent.json", r#"{"display":{"fixed":{"scale":[3,3,3]}}}"#);
    assert_eq!(scale(&mut resolver, &[&jar, &low, &high]), 1.0, "the cache holds until cleared");
    resolver.clear_cache();
    assert_eq!(scale(&mut resolver, &[&jar, &low, &high]), 3.0, "higher-priority parent model wins");

    put(&mut high, "minecraft/models/item/parent.json", r#"{"display":{"fixed":{"scale":[4,4,4]}}}"#);
    resolver.clear_cache();
    assert_eq!(
        scale(&mut resolver, &[&jar, &low, &high]),
        4.0,
        "same-directory content changes clear cache"
    );

    resolver.clear_cache();
    assert_eq!(
        scale(&mut resolver, &[&jar, &low]),
        2.0,
        "removing high-priority pack reveals lower pack"
    );
    resolver.clear_cache();
    assert_eq!(scale(&mut resolver, &[&jar]), 1.0, "removing packs returns to base");

    let mut recreated = DisplayResolver::new("fixed");
    recreated.clear_cache();
    assert_eq!(
        scale(&mut recreated, &[&jar, &low, &high]),
        4.0,
        "new pipeline can receive retained context"
    );
}

#[test]
fn walks_stop_after_sixteen_models() {
    let mut pack = HashMap::new();
    put(&mut pack, "minecraft/items/chain.json", r#"{"model":"item/m1"}"#);
    for i in 1..20 {
        let body = if i == 17 {
            r#"{"display":{"gui":{"scale":[5,5,5]}}}"#.to_string()
        } else {
            format!(r#"{{"parent":"minecraft:item/m{}"}}"#, i + 1)
        };
        put(&mut pack, &format!("minecraft/models/item/m{i}.json"), &body);
    }
    assert_eq!(walk(&[&pack], "chain", "gui"), None);
    put(&mut pack, "minecraft/models/item/m16.json", r#"{"display":{"gui":{"scale":[6,6,6]}}}"#);
    assert_eq!(walk(&[&pack], "chain", "gui"), Some(r#"{"scale":[6,6,6]}"#.to_string()));
    assert_eq!(walk(&[&pack], "chain", "fixed"), None);
}

#[test]
fn a_display_that_is_no_object_is_passed_over() {
    let mut pack = HashMap::new();
    put(&mut pack, "minecraft/items/i.json", r#"{"model":{"type":"minecraft:model","model":"a:m"}}"#);
    put(&mut pack, "a/models/m.json", r#"{"display":{"gui":3},"parent":"b:n"}"#);
    put(&mut pack, "b/models/n.json", r#"{"display":{"gui":{}}}"#);
    assert_eq!(walk(&[&pack], "i", "gui"), Some("{}".to_string()));
    assert_eq!(walk(&[&pack], "other", "gui"), None);
}

#[test]
fn item_models_come_from_the_definition_that_was_read() {
    assert_eq!(
        resolve_item_model_path(Some(r#"{"model":"minecraft:item/base"}"#), first_ref).as_deref(),
        Some("minecraft:item/base")
    );
    assert_eq!(
        resolve_item_model_path(Some(r#"{"model":{"model":"x:y"}}"#), first_ref).as_deref(),
        Some("x:y")
    );
    let written = |value: &String| Some(value.clone());
    assert_eq!(
        resolve_item_model_path(Some(r#" { "model" : "x:y" } "#), written).as_deref(),
        Some(r#"{"model":"x:y"}"#),
        "definitions are handed on as they are written out"
    );
    let any = |_: &String| Some("x:y".to_string());
    assert_eq!(resolve_item_model_path(Some("{}"), any).as_deref(), Some("x:y"));
    assert_eq!(resolve_item_model_path(Some("{ invalid json"), any), None);
    assert_eq!(resolve_item_model_path(Some(""), any), None);
    assert_eq!(resolve_item_model_path(None, any), None);
}

#[test]
fn broken_definitions_and_models_do_not_fall_through() {
    let (mut low, mut high) = (HashMap::new(), HashMap::new());
    let jar = HashMap::new();
    put(&mut low, "minecraft/items/i.json", r#"{"model":"item/m"}"#);
    put(&mut low, "minecraft/models/item/m.json", r#"{"display":{"gui":{"scale":[2,2,2]}}}"#);
    assert!(walk(&[&jar, &low, &high], "i", "gui").is_some());
    put(&mut high, "minecraft/items/i.json", "{ invalid json");
    assert_eq!(walk(&[&jar, &low, &high], "i", "gui"), None);
    high.clear();
    put(&mut high, "minecraft/models/item/m.json", "[");
    assert_eq!(walk(&[&jar, &low, &high], "i", "gui"), None);
}

#[test]
fn walks_ask_for_models_by_name() {
    let (mut walk, step) = DisplayWalk::begin(Some("minecraft:item/a".to_string()), "gui");
    let WalkStep::Read(name) = step else { panic!("the model is read") };
    assert_eq!(name, "minecraft:item/a");
    let WalkStep::Read(name) = walk.feed(Some(r#"{"parent":"minecraft:item/b"}"#)) else {
        panic!("the parent is read")
    };
    assert_eq!(name, "item/b");
    assert!(matches!(walk.feed(None), WalkStep::Nothing));
    assert!(matches!(DisplayWalk::begin(None, "gui").1, WalkStep::Nothing));
}

#[test]
fn only_the_nether_lights_shadows() {
    assert_eq!(shadow_ambient("minecraft:the_nether"), 1);
    assert_eq!(shadow_ambient("minecraft:overworld"), 0);
    assert_eq!(shadow_ambient("the_nether"), 0);
}

#[test]
fn external_dependencies_cover_early_and_late_depth_writes() {
    let [incoming, outgoing] = external_dependencies();
    let depth_stages = STAGE_EARLY_FRAGMENT_TESTS | STAGE_LATE_FRAGMENT_TESTS;
    let depth_write = ACCESS_DEPTH_STENCIL_ATTACHMENT_WRITE;
    assert_eq!(incoming.src_stage_mask & depth_stages, depth_stages);
    assert_eq!(outgoing.src_stage_mask & depth_stages, depth_stages);
    assert!(incoming.src_access_mask & depth_write == depth_write);
    assert!(outgoing.src_access_mask & depth_write == depth_write);
    assert!(incoming.src_stage_mask & STAGE_COLOR_ATTACHMENT_OUTPUT != 0);
    assert!(incoming.src_access_mask & ACCESS_COLOR_ATTACHMENT_WRITE != 0);
    assert!(outgoing.src_stage_mask & STAGE_COLOR_ATTACHMENT_OUTPUT != 0);
    assert!(outgoing.src_access_mask & ACCESS_COLOR_ATTACHMENT_WRITE != 0);
    assert_eq!(incoming.src_subpass, Subpass::External);
    assert_eq!(outgoing.dst_subpass, Subpass::External);
}

#[test]
fn activation_keeps_the_frame_and_clears_depth() {
    let [color, depth] = attachments(Format::B8G8R8A8Srgb);
    assert_eq!(color.color, Some(Format::B8G8R8A8Srgb));
    assert_eq!(color.load, LoadOp::Load);
    assert!(color.store);
    assert_eq!(color.final_layout, ImageLayout::PresentSrc);
    assert_eq!(depth.color, None);
    assert_eq!(depth.load, LoadOp::Clear);
    assert!(!depth.store);
    let mut targets = ActivationTargets::new(5, 640, 480);
    targets.framebuffers.push(11);
    targets.framebuffers.push(12);
    targets.depth_targets.push(DepthTarget { image: 1, view: 2 });
    assert_eq!(targets.begin_activation(1), 12);
    assert_eq!(
        targets.destroy(),
        vec![
            Release::Framebuffer(11),
            Release::Framebuffer(12),
            Release::Depth(DepthTarget { image: 1, view: 2 }),
            Release::RenderPass(5),
        ]
    );
    assert!(targets.destroy().is_empty());
}

#[test]
fn map_pools_grow_and_are_kept() {
    let mut quads = MapQuads::new();
    for i in 0..256 {
        let taken = quads.draw(0);
        assert_eq!((taken.pool, taken.create), (0, false), "map {i}");
    }
    let taken = quads.draw(0);
    assert_eq!((taken.pool, taken.create), (1, true));
    let taken = quads.draw(1);
    assert_eq!((taken.pool, taken.create), (0, false));
    assert_eq!(quads.begin_frame(0), 2);
    for _ in 0..257 {
        assert!(!quads.draw(0).create);
    }
    assert_eq!(texture_pool().max_sets, 256);
}

#[test]
fn arms_are_boxes_on_the_skin() {
    let wide = build_arm_vertices(false);
    assert_eq!(wide.len(), 36);
    assert_eq!(wide[0], ArmVertex { x: 1, y: -2, z: 2, u: 48, v: 16 });
    assert_eq!(wide[2], ArmVertex { x: -3, y: -2, z: -2, u: 44, v: 20 });
    assert_eq!(wide[6], ArmVertex { x: 1, y: 10, z: -2, u: 52, v: 20 });
    assert_eq!(wide[35], ArmVertex { x: -3, y: 10, z: 2, u: 56, v: 32 });
    let slim = build_arm_vertices(true);
    assert_eq!(slim[0], ArmVertex { x: 1, y: -2, z: 2, u: 47, v: 16 });
    assert_eq!(slim[35], ArmVertex { x: -2, y: 10, z: 2, u: 54, v: 32 });
}

#[test]
fn fallback_skin_is_one_colour() {
    let (pixels, w, h) = fallback_skin();
    assert_eq!((w, h), (64, 64));
    assert_eq!(pixels.len(), 64 * 64 * 4);
    assert!(pixels.chunks(4).all(|p| p == [196, 161, 125, 255]));
}

const WATCHED: u128 = 0x67e5_5044_10b1_426f_9247_bb68_0e5f_e0c8;

fn watching(shadows_disabled: bool) -> TraceSettings {
    TraceSettings {
        tracing: true,
        target: Some("67e55044-10b1-426f-9247-bb680e5fe0c8".to_string()),
        shadows_disabled,
    }
}

#[test]
fn one_entity_is_watched_by_its_id() {
    let s = watching(false);
    assert!(is_watched(&s, Some(WATCHED)));
    assert!(!is_watched(&s, Some(WATCHED + 1)));
    assert!(!is_watched(&s, None));
    assert!(!is_watched(&TraceSettings { tracing: false, ..watching(false) }, Some(WATCHED)));
    assert!(!is_watched(&TraceSettings { target: None, ..watching(false) }, Some(WATCHED)));
    let nil = TraceSettings {
        target: Some("00000000-0000-0000-0000-000000000000".to_string()),
        ..watching(false)
    };
    assert!(is_watched(&nil, Some(0)));
    let upper = TraceSettings {
        target: Some("67E55044-10B1-426F-9247-BB680E5FE0C8".to_string()),
        ..watching(false)
    };
    assert!(!is_watched(&upper, Some(WATCHED)));
}

#[test]
fn watched_shadows_can_be_turned_off() {
    let ids = vec![Some(1), Some(WATCHED), None];
    let plan = plan_shadows(&watching(false), &ids, &vec![2, 3, 4]);
    assert_eq!(plan.kept, vec![2, 3, 4]);
    assert_eq!(plan.vertices, Some(54));
    assert_eq!(
        plan.trace,
        Some(ShadowTrace { item: 1, disabled: false, pieces: 3, emitted: 30, submitted: true })
    );
    let plan = plan_shadows(&watching(true), &ids, &vec![0, 3, 0]);
    assert_eq!(plan.kept, vec![0, 0, 0]);
    assert_eq!(plan.vertices, None);
    assert_eq!(
        plan.trace,
        Some(ShadowTrace { item: 1, disabled: true, pieces: 0, emitted: 0, submitted: false })
    );
    let plan = plan_shadows(&watching(true), &vec![None], &vec![20]);
    assert_eq!(plan.vertices, Some(96));
    assert_eq!(plan.trace, None);
}

#[test]
fn the_last_watched_draw_is_remembered() {
    let draw = |item: usize| ItemCommand::Draw { item, buffer: 7, vertex_count: 36 };
    let ids = vec![Some(WATCHED), Some(2)];
    let list = vec![
        ItemCommand::Bind { translucent: false },
        draw(0),
        draw(1),
        ItemCommand::Bind { translucent: true },
        draw(0),
        draw(1),
    ];
    assert_eq!(traced_draw(&watching(false), &ids, &list), Some(4));
    assert_eq!(traced_draw(&watching(false), &vec![None, None], &list), None);
    assert_eq!(traced_draw(&watching(false), &ids, &vec![]), None);
}

#[test]
fn held_draws_are_remembered_until_cleared() {
    let mut meshes = ItemMeshes::new();
    meshes.insert_mesh("stone", entry(4, None, false));
    let mut held = HeldDraws::new(HeldKind::FirstPerson);
    assert!(held.probe_draw_trace().is_none());
    assert_eq!(held.update_and_draw(1, "stone", &meshes), Some((4, 40)));
    let trace = held.probe_draw_trace().unwrap();
    assert_eq!((trace.item.as_str(), trace.frame, trace.vertices), ("stone", 1, Some(40)));
    assert_eq!(held.update_and_draw(0, "air", &meshes), None);
    let trace = held.probe_draw_trace().unwrap();
    assert_eq!((trace.item.as_str(), trace.frame, trace.vertices), ("air", 0, None));
    held.clear_probe_trace();
    assert!(held.probe_draw_trace().is_none());
    let mut totem = HeldDraws::new(HeldKind::Activation);
    assert_eq!(totem.update_activation_and_draw(1, "stone", &meshes), Some((4, 40)));
    assert_eq!(totem.probe_draw_trace().unwrap().vertices, Some(40));
}

#[test]
fn meshes_report_how_they_are_drawn() {
    let mut meshes = ItemMeshes::new();
    let tinted = MeshEntry { tint_rgbs: vec![(1, 2, 3)], ..entry(2, None, true) };
    meshes.insert_mesh("glass", tinted);
    meshes.insert_mesh("stone", entry(3, None, false));
    let glass = meshes.debug_mesh("glass").unwrap();
    assert_eq!((glass.vertex_count, glass.packed_rgb), (20, vec![(1, 2, 3)]));
    assert!(glass.translucent && !glass.gui_depth_write);
    assert_eq!(glass.render_path, "ItemEntityPipeline::translucent");
    assert_eq!(glass.gui_alpha_blend, "one,one-minus-src-alpha");
    let stone = meshes.debug_mesh("stone").unwrap();
    assert_eq!((stone.blend, stone.gui_alpha_blend), ("disabled", "one,zero"));
    assert!(meshes.debug_mesh("air").is_none());
}

#[test]
fn the_last_pack_with_a_file_wins() {
    assert_eq!(winning_pack(&vec![]), None);
    assert_eq!(winning_pack(&vec![false, false]), None);
    assert_eq!(winning_pack(&vec![true, false]), Some(0));
    assert_eq!(winning_pack(&vec![true, false, true, false]), Some(2));
}
