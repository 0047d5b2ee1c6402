use pomme_renderer::atlas::assemble_sprites;
use pomme_renderer::atlas::compose_camera_overlay;
use pomme_renderer::favicons::build_favicon_atlas;
use pomme_renderer::favicons::columns_for;
use pomme_renderer::favicons::Favicon;
use pomme_renderer::favicons::IconCell;
use pomme_renderer::font_atlas::atlas_chars;
use pomme_renderer::font_atlas::pack_glyphs;
use pomme_renderer::font_atlas::GlyphBitmap;
use pomme_renderer::font_atlas::GlyphPlace;
use pomme_renderer::font_atlas::ICON_UNIVERSAL_ACCESS;
use pomme_renderer::font_atlas::ICON_USER;
use pomme_renderer::gpu::Format;
use pomme_renderer::pixels::arrow_frames;
use pomme_renderer::pixels::blit_image;
use pomme_renderer::pixels::crop_image;
use pomme_renderer::pixels::decode_logo;
use pomme_renderer::pixels::extract_face_8x8;
use pomme_renderer::pixels::extract_face_8x8_with_hat;
use pomme_renderer::pixels::load_overlay_rgba;
use pomme_renderer::pixels::locator_background;
use pomme_renderer::pixels::trim_rows;
use pomme_renderer::pixels::RgbaImage;
use pomme_renderer::screenshot::encode_screenshot;
use pomme_renderer::screenshot::queued_result;
use pomme_renderer::screenshot::readback_size;
use pomme_renderer::screenshot::to_rgb;
use pomme_renderer::screenshot::NameSearch;
use pomme_renderer::screenshot::ScreenshotCapture;
use pomme_renderer::sprites::collect_sprites;
use pomme_renderer::sprites::creative_tab_key;
use pomme_renderer::sprites::sprite_sources;
use pomme_renderer::sprites::MapDecorationAsset;
use pomme_renderer::sprites::SpriteId;
use pomme_renderer::sprites::SpriteImage;
use pomme_renderer::sprites::SpriteInputs;
use pomme_renderer::text_map::TextMap;

fn solid(width: u32, height: u32, pixel: [u8; 4]) -> RgbaImage {
    RgbaImage { pixels: pixel.repeat((width * height) as usize), width, height }
}

fn pixel(image: &[u8], stride: usize, x: usize, y: usize) -> [u8; 4] {
    let at = (y * stride + x) * 4;
    [image[at], image[at + 1], image[at + 2], image[at + 3]]
}

#[test]
fn screenshots_decode_to_what_was_shown() {
    let shown = [3, 2, 1, 255];
    let png = encode_screenshot(&shown, 1, 1, true).unwrap();
    let image = decode_logo(&png).unwrap();
    assert_eq!((image.width, image.height), (1, 1));
    assert_eq!(image.pixels, vec![1, 2, 3, 255]);
    let png = encode_screenshot(&shown, 1, 1, false).unwrap();
    assert_eq!(decode_logo(&png).unwrap().pixels, vec![3, 2, 1, 255]);
    assert!(encode_screenshot(&shown, 2, 1, false).is_err());
    assert!(encode_screenshot(&[], 0, 0, false).is_err());
    assert_eq!(to_rgb(&[1, 2, 3, 4, 5, 6, 7, 8], false), vec![1, 2, 3, 5, 6, 7]);
    assert_eq!(readback_size(1920, 1080), 1920 * 1080 * 4);
}

#[test]
fn probe_png_atomic_success_failure_and_f2_name() {
    let pixel = [3, 2, 1, 255];
    let bytes = encode_screenshot(&pixel, 1, 1, true).unwrap();
    let image = image::load_from_memory(&bytes).unwrap().to_rgb8();
    assert_eq!(image.as_raw(), &[1, 2, 3]);
    assert!(encode_screenshot(&pixel, 1, 2, false).is_err());
    let mut search = NameSearch::new("2024-01-02_03.04.05".to_string());
    assert_eq!(search.name(), "2024-01-02_03.04.05.png");
    search.taken();
    assert_eq!(search.name(), "2024-01-02_03.04.05_2.png");
    search.taken();
    assert_eq!(search.name(), "2024-01-02_03.04.05_3.png");
}

#[test]
fn one_capture_at_a_time() {
    let mut capture = ScreenshotCapture::new();
    assert!(!capture.saving());
    assert!(!capture.record_if_armed(0, 1, 2, 2, Format::B8G8R8A8Srgb));
    capture.arm_to("a.png".to_string()).unwrap();
    assert_eq!(
        capture.arm_to("b.png".to_string()),
        Err("Another screenshot is in flight".to_string())
    );
    assert!(capture.record_if_armed(1, 9, 640, 480, Format::B8G8R8A8Srgb));
    assert!(!capture.record_if_armed(0, 9, 640, 480, Format::B8G8R8A8Srgb));
    assert!(capture.collect_ready(0).is_empty());
    let ready = capture.collect_ready(1);
    assert_eq!(ready.len(), 1);
    assert!(ready[0].bgra);
    assert_eq!(ready[0].target.as_deref(), Some("a.png"));
    assert!(capture.saving());
    let results = capture.drain_results(vec![None]);
    assert!(results.is_empty());
    assert!(!capture.saving());
    capture.arm();
    assert!(capture.record_if_armed(0, 9, 640, 480, Format::R8G8B8A8Srgb));
    assert_eq!(capture.destroy().len(), 1);
    assert_eq!(queued_result(true, Ok("x".to_string())), None);
    assert_eq!(queued_result(false, Ok("x".to_string())), Some(Ok("x".to_string())));
}

#[test]
fn missing_overlays_are_magenta() {
    let image = load_overlay_rgba(None);
    assert_eq!((image.width, image.height), (1, 1));
    assert_eq!(image.pixels, vec![255, 0, 255, 255]);
    assert_eq!(load_overlay_rgba(Some(b"no image")).pixels, vec![255, 0, 255, 255]);
    let png = encode_screenshot(&[9, 8, 7, 255, 6, 5, 4, 255], 2, 1, false).unwrap();
    let image = load_overlay_rgba(Some(&png));
    assert_eq!((image.width, image.height), (2, 1));
    assert_eq!(image.pixels, vec![9, 8, 7, 255, 6, 5, 4, 255]);
    assert!(decode_logo(b"no image").is_none());
}

#[test]
fn blits_land_where_they_should() {
    let mut dst = vec![0u8; 3 * 3 * 4];
    let src: Vec<u8> = (1..=16).collect();
    blit_image(&mut dst, 3, &src, 2, 1, 1, 2, 2);
    assert_eq!(pixel(&dst, 3, 0, 0), [0; 4]);
    assert_eq!(pixel(&dst, 3, 1, 1), [1, 2, 3, 4]);
    assert_eq!(pixel(&dst, 3, 2, 2), [13, 14, 15, 16]);
    let mut short = vec![0u8; 3 * 3 * 4];
    blit_image(&mut short, 3, &src[..10], 2, 0, 0, 2, 2);
    assert_eq!(pixel(&short, 3, 1, 0), [5, 6, 7, 8]);
    assert_eq!(pixel(&short, 3, 0, 1), [0; 4]);
    let mut past = vec![0u8; 16];
    blit_image(&mut past, 2, &[1, 2, 3, 4, 5, 6, 7, 8], 2, 1, 1, 2, 1);
    assert_eq!(past, [0, 0, 0, 0, 0, 0, 0, 0, 0, 0, 0, 0, 1, 2, 3, 4]);
    let mut wrapped = vec![0u8; 16];
    blit_image(&mut wrapped, 1, &src, 2, 0, 0, 2, 2);
    assert_eq!(wrapped[..12], [1, 2, 3, 4, 9, 10, 11, 12, 13, 14, 15, 16]);
    blit_image(&mut wrapped, 1, &src, 2, u32::MAX, u32::MAX, 0, 5);
    assert_eq!(wrapped[12..], [0; 4]);
}

#[test]
fn images_are_cropped_and_trimmed() {
    let image = RgbaImage { pixels: (0..32).collect(), width: 2, height: 4 };
    let crop = crop_image(&image, 1, 1, 2);
    assert_eq!((crop.width, crop.height), (1, 2));
    assert_eq!(crop.pixels, vec![8, 9, 10, 11, 16, 17, 18, 19]);
    assert_eq!(crop_image(&image, 9, 1, 2).pixels.len(), 0);
    let tall = RgbaImage { pixels: vec![], width: 0, height: 97_612_893 };
    assert_eq!(trim_rows(tall, 64, 44).height, 67_108_864);
    let trimmed = trim_rows(image, 64, 44);
    assert_eq!((trimmed.width, trimmed.height), (2, 3));
    let bar = locator_background(solid(12, 5, [1, 2, 3, 4]));
    assert_eq!((bar.width, bar.height), (182, 5));
    assert_eq!(locator_background(solid(3, 5, [1, 2, 3, 4])).width, 3);
    let (a, b) = arrow_frames(&solid(7, 10, [1, 2, 3, 4])).unwrap();
    assert_eq!((a.len(), b.len()), (140, 140));
    assert!(arrow_frames(&solid(7, 5, [1, 2, 3, 4])).is_none());
}

#[test]
fn faces_show_the_hat() {
    let mut skin = solid(64, 64, [10, 20, 30, 255]).pixels;
    let hat = (8 * 64 + 40) * 4;
    skin[hat..hat + 4].copy_from_slice(&[200, 100, 50, 255]);
    for i in 1..64 {
        let at = ((8 + i / 8) * 64 + 40 + i % 8) * 4;
        skin[at + 3] = 0;
    }
    let over = |fg: u8, bg: u8, a: u8| {
        let a = a as f32 / 255.0;
        (fg as f32 * a + bg as f32 * (1.0 - a)) as u8
    };
    let face = extract_face_8x8(&skin, 64, 64, over).unwrap();
    assert_eq!(pixel(&face, 8, 0, 0), [200, 100, 50, 255]);
    assert_eq!(pixel(&face, 8, 1, 0), [10, 20, 30, 255]);
    let bare = extract_face_8x8_with_hat(&skin, 64, 64, false, over).unwrap();
    assert_eq!(pixel(&bare, 8, 0, 0), [10, 20, 30, 255]);
    assert!(extract_face_8x8(&skin, 47, 64, over).is_none());
    assert!(extract_face_8x8(&skin, 64, 15, over).is_none());
}

#[test]
fn glyphs_are_shelved() {
    let glyph = |width: u32, height: u32, a: u8| GlyphBitmap {
        width,
        height,
        alpha: vec![a; (width * height) as usize],
    };
    let atlas = pack_glyphs(&vec![glyph(300, 10, 1), glyph(300, 4, 2), glyph(100, 20, 3)]);
    assert_eq!(
        atlas.places,
        vec![
            GlyphPlace { x: 0, y: 0, w: 300, h: 10 },
            GlyphPlace { x: 0, y: 11, w: 300, h: 4 },
            GlyphPlace { x: 301, y: 11, w: 100, h: 20 },
        ]
    );
    assert_eq!(pixel(&atlas.pixels, 512, 299, 9), [255, 255, 255, 1]);
    assert_eq!(pixel(&atlas.pixels, 512, 300, 9), [0; 4]);
    assert_eq!(pixel(&atlas.pixels, 512, 301, 11), [255, 255, 255, 3]);
    let full = pack_glyphs(&vec![glyph(10, 511, 1), glyph(505, 1, 2), glyph(1, 1, 3)]);
    assert_eq!(full.places.len(), 1);
    let chars = atlas_chars();
    assert_eq!(chars.len(), 106);
    assert_eq!(chars[0], (' ', false));
    assert_eq!(chars[94], ('~', false));
    assert_eq!(chars[95], (ICON_USER, true));
    assert_eq!(chars[105], (ICON_UNIVERSAL_ACCESS, true));
}

#[test]
fn favicons_fill_a_square_grid() {
    assert_eq!(columns_for(1), 1);
    assert_eq!(columns_for(4), 2);
    assert_eq!(columns_for(5), 3);
    let icon = |key: &str, value: u8| Favicon {
        key: key.to_string(),
        rgba: vec![value; 2 * 2 * 4],
        size: 2,
    };
    assert!(build_favicon_atlas(&vec![]).is_none());
    let mut icons = vec![icon("a", 1), icon("b", 2), icon("a", 3)];
    icons[1].rgba.truncate(4);
    let mut atlas = build_favicon_atlas(&icons).unwrap();
    assert_eq!((atlas.width, atlas.height), (128, 128));
    assert_eq!(pixel(&atlas.pixels, 128, 63, 63), [1; 4]);
    assert_eq!(pixel(&atlas.pixels, 128, 64, 0), [2; 4]);
    assert_eq!(pixel(&atlas.pixels, 128, 127, 63), [0; 4]);
    assert_eq!(pixel(&atlas.pixels, 128, 0, 64), [3; 4]);
    assert_eq!(pixel(&atlas.pixels, 128, 64, 64), [0; 4]);
    assert_eq!(atlas.regions.get("a"), Some(&IconCell { x: 0, y: 64 }));
    atlas.regions.alias("a", "b");
    assert_eq!(atlas.regions.get("a"), Some(&IconCell { x: 64, y: 0 }));
    atlas.regions.alias("a", "missing");
    assert_eq!(atlas.regions.get("a"), Some(&IconCell { x: 64, y: 0 }));
}

#[test]
fn text_maps_keep_the_last_value() {
    let mut map = TextMap::new();
    map.insert("k".to_string(), 1);
    map.insert("k".to_string(), 2);
    map.insert_new("k".to_string(), 3);
    map.insert_new("l".to_string(), 4);
    assert_eq!(map.get("k"), Some(&2));
    let mut entries = map.drain();
    entries.sort();
    assert_eq!(entries, vec![("k".to_string(), 2), ("l".to_string(), 4)]);
    assert_eq!(map.get("k"), None);
}

#[test]
fn overlays_stand_side_by_side() {
    let image = compose_camera_overlay(&solid(2, 1, [1; 4]), &solid(1, 2, [2; 4]));
    assert_eq!((image.width, image.height), (3, 2));
    assert_eq!(pixel(&image.pixels, 3, 1, 0), [1; 4]);
    assert_eq!(pixel(&image.pixels, 3, 1, 1), [0; 4]);
    assert_eq!(pixel(&image.pixels, 3, 2, 1), [2; 4]);
}

fn keys(n: usize) -> Vec<String> {
    (0..n).map(|i| format!("d{i}")).collect()
}

#[test]
fn sprites_have_their_assets() {
    let sources = sprite_sources(&vec!["speed".to_string()], &keys(35));
    assert_eq!(sources.len(), 149 + 1 + 22 + 35);
    assert_eq!(sources[149].id, SpriteId::MobEffect(0));
    assert_eq!(sources[149].key, "minecraft/textures/mob_effect/speed.png");
    assert_eq!(sources[150].key, "minecraft/textures/gui/sprites/boss_bar/pink_background.png");
    assert_eq!(sources[151].id, SpriteId::BossBarProgress(0));
    assert_eq!(sources[171].key, "minecraft/textures/gui/sprites/boss_bar/notched_20_progress.png");
    assert_eq!(sources[171].id, SpriteId::BossBarNotchedProgress(3));
    assert_eq!(sources[172].id, SpriteId::MapDecoration(MapDecorationAsset::Player));
    assert_eq!(sources[172].key, "minecraft/textures/map/decorations/d0.png");
    assert_eq!(
        creative_tab_key(0),
        "minecraft/textures/gui/sprites/container/creative_inventory/tab_top_unselected_1.png"
    );
    assert_eq!(
        creative_tab_key(27),
        "minecraft/textures/gui/sprites/container/creative_inventory/tab_bottom_selected_7.png"
    );
}

fn nothing(n: usize) -> Vec<Option<RgbaImage>> {
    (0..n).map(|_| None).collect()
}

#[test]
fn sprites_that_did_not_load_are_placeholders() {
    let sources = sprite_sources(&vec![], &keys(35));
    let n = sources.len();
    let mut inputs = SpriteInputs {
        whole: nothing(n),
        face: None,
        locator: Some(solid(12, 5, [1, 2, 3, 4])),
        arrow_up: Some(solid(7, 10, [5; 4])),
        arrow_down: None,
        crops: nothing(14),
        tabs: nothing(28),
        logos: nothing(2),
        pomme: None,
    };
    inputs.whole[0] = Some(solid(4, 4, [7; 4]));
    inputs.crops[0] = Some(solid(256, 256, [8; 4]));
    inputs.logos[0] = Some(solid(256, 64, [9; 4]));
    let sprites = collect_sprites(&sources, inputs);
    assert_eq!(sprites.len(), n + 7 + 14 + 28 + 2);
    let size = |i: usize| (sprites[i].image.width, sprites[i].image.height);
    assert_eq!(size(0), (4, 4));
    assert_eq!(sprites[1].image.pixels, vec![255, 0, 255, 255]);
    assert_eq!(sprites[1].border, 0);
    assert_eq!(sprites[n].id, SpriteId::SteveHead);
    assert_eq!(size(n + 1), (182, 5));
    assert_eq!(size(n + 2), (7, 5));
    assert_eq!(size(n + 4), (1, 1));
    assert_eq!(sprites[n + 6].id, SpriteId::LocatorDotMissing);
    assert_eq!(size(n + 7), (176, 166));
    assert_eq!(size(n + 7 + 14 + 28), (256, 44));
}

#[test]
fn placed_sprites_can_be_looked_up() {
    let sprite = |id, value| SpriteImage { id, image: solid(2, 2, [value; 4]), border: 1 };
    let images = vec![sprite(SpriteId::Hotbar, 1), sprite(SpriteId::HeartFull, 2)];
    let atlas = assemble_sprites(&images, &vec![Some((1, 1)), None], 4);
    assert_eq!(atlas.pixels.len(), 64);
    assert_eq!(pixel(&atlas.pixels, 4, 2, 2), [1; 4]);
    assert_eq!(pixel(&atlas.pixels, 4, 3, 3), [0; 4]);
    let region = atlas.region(SpriteId::Hotbar).unwrap();
    assert_eq!((region.x, region.y, region.w, region.h, region.nine_slice_border), (1, 1, 2, 2, 1));
    assert!(atlas.region(SpriteId::HeartFull).is_none());
    assert_eq!(atlas.dropped, vec![SpriteId::HeartFull]);
}
