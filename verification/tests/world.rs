use pomme_renderer::stars::build_stars;
use pomme_renderer::stars::Star;
use pomme_renderer::weather::snow_draws;
use pomme_renderer::weather::SnowDraws;
use pomme_renderer::world_border::fade;
use pomme_renderer::world_border::wall_vertices;
use pomme_renderer::world_border::Viewpoint;
use pomme_renderer::particle::plan_particles;
use pomme_renderer::particle::MAX_PARTICLE_QUADS;
use pomme_renderer::random::JavaRandom;
use pomme_renderer::sky::argb_to_rgba;
use pomme_renderer::sky::keyframe_segment;
use pomme_renderer::sky::mode_number;
use pomme_renderer::sky::moon_brightness;
use pomme_renderer::sky::moon_phase;
use pomme_renderer::sky::plan_sky;
use pomme_renderer::sky::sky_layout;
use pomme_renderer::sky::SkyMode;
use pomme_renderer::sky::SkyState;
use pomme_renderer::sky::SKY_COLOR_TICKS;
use pomme_renderer::sky::STAR_COUNT;
use pomme_renderer::weather::column_hash_parts;
use pomme_renderer::weather::column_seed;
use pomme_renderer::weather::column_tick_offset;
use pomme_renderer::weather::plan_columns;
use pomme_renderer::weather::precipitation_for;
use pomme_renderer::weather::rain_speed_fraction;
use pomme_renderer::weather::rain_ticks;
use pomme_renderer::weather::snow_ticks;
use pomme_renderer::weather::BiomeClimate;
use pomme_renderer::weather::Precip;
use pomme_renderer::world_border::extract_border;
use pomme_renderer::world_border::plan_walls;
use pomme_renderer::world_border::texture_index;
use pomme_renderer::world_border::tint_pixels;
use pomme_renderer::world_border::BorderBounds;
use pomme_renderer::world_border::BorderStatus;

/// One tick, in the unit of the clock.
const TICK: i64 = 1_000_000;

#[test]
fn world_clock_rate_controls_prediction_and_wraps_day() {
    let mut frozen = SkyState::default_day();
    frozen.apply_clock_update(0, 6_000, Some(0), Some(0));
    for _ in 0..20 {
        frozen.advance_clock_tick();
    }
    assert_eq!(frozen.day_time, 6_000);
    assert_eq!(frozen.clock_partial_tick, 0);

    let mut normal = SkyState::default_day();
    normal.apply_clock_update(0, 6_000, Some(0), Some(TICK));
    normal.advance_clock_tick();
    assert_eq!(normal.day_time, 6_001);
    normal.apply_clock_update(0, 6_000, Some(0), Some(0));
    assert_eq!(normal.day_time, 6_000);
    assert_eq!(normal.clock_rate, 0);

    let mut fractional = SkyState::default_day();
    fractional.apply_clock_update(0, 6_000, Some(0), Some(TICK / 4));
    for _ in 0..3 {
        fractional.advance_clock_tick();
    }
    assert_eq!(fractional.day_time, 6_000);
    fractional.advance_clock_tick();
    assert_eq!(fractional.day_time, 6_001);

    let mut wrapped = SkyState::default_day();
    wrapped.apply_clock_update(0, 23_999, Some(0), Some(TICK));
    wrapped.advance_clock_tick();
    assert_eq!(wrapped.day_tick(), 0);
}

#[test]
fn moon_phase_uses_world_day_time() {
    assert_eq!(moon_phase(0), 0);
    assert_eq!(moon_phase(24_000), 1);
    assert_eq!(moon_phase(8 * 24_000), 0);
}

#[test]
fn world_clock_partial_tick_is_used_without_extra_rate_when_frozen() {
    let mut sky = SkyState::default_day();
    sky.apply_clock_update(0, 6_000, Some(TICK / 4), Some(0));
    sky.partial_tick = 500_000;
    assert!((sky.day_tick() as f64 / 1e12 - 6000.25).abs() < 1e-6);
    assert_eq!(sky.clock_rate, 0);
}

#[test]
fn unknown_dimension_clock_does_not_predict() {
    let mut sky = SkyState::default_day();
    sky.advance_clock_tick();
    assert_eq!(sky.day_time, 6_000);
    assert_eq!(sky.clock_rate, 0);
}

#[test]
fn clocks_wrap_and_refuse_negative_rates() {
    let mut sky = SkyState::default_day();
    sky.apply_clock_update(1, 10, Some(0), Some(-1));
    assert_eq!((sky.day_time, sky.clock_id), (6_000, None));
    sky.apply_clock_update(1, 10, None, Some(TICK));
    sky.apply_clock_update(1, 10, Some(0), None);
    assert_eq!((sky.day_time, sky.clock_id), (6_000, None));
    sky.apply_clock_update(1, u64::MAX, Some(-TICK / 4), Some(2 * TICK));
    assert_eq!(sky.clock_partial_tick, 750_000);
    sky.advance_clock_tick();
    assert_eq!(sky.day_time, 1);
    assert_eq!(sky.clock_partial_tick, 750_000);
}

#[test]
fn thunder_needs_rain() {
    let mut sky = SkyState::default_day();
    sky.thunder_level = 2_000_000;
    assert_eq!(sky.thunder(), 0);
    sky.rain_level = 500_000;
    assert_eq!(sky.rain(), 500_000);
    assert_eq!(sky.thunder(), 500_000_000_000);
    sky.rain_level = -3;
    assert_eq!(sky.rain(), 0);
}

#[test]
fn keyframes_wrap_around_the_day() {
    let s = keyframe_segment(133, &SKY_COLOR_TICKS, 24_000);
    assert_eq!((s.from, s.to, s.elapsed, s.span), (0, 1, 0, 11_734));
    let s = keyframe_segment(23_000, &SKY_COLOR_TICKS, 24_000);
    assert_eq!((s.from, s.to, s.elapsed, s.span), (3, 0, 670, 1_803));
    let s = keyframe_segment(100, &SKY_COLOR_TICKS, 24_000);
    assert_eq!((s.from, s.to, s.elapsed, s.span), (3, 0, 1_770, 1_803));
}

#[test]
fn colours_unpack_alpha_last() {
    assert_eq!(argb_to_rgba(0x11223344), [0x22, 0x33, 0x44, 0x11]);
    assert_eq!(argb_to_rgba(-1), [255, 255, 255, 255]);
}

#[test]
fn sky_is_drawn_back_to_front() {
    let layout = sky_layout(STAR_COUNT);
    assert_eq!(layout.star_offset, 24);
    assert_eq!(layout.star_count, 9_000);
    assert_eq!(layout.dark_disc_offset, 24 + 9_000 + 6 + 6 + 48);
    let draws = plan_sky(&layout, false, true, true, 24_000);
    let modes: Vec<u32> = draws.iter().map(|d| mode_number(d.mode)).collect();
    let expected: Vec<u32> =
        [SkyMode::Disc, SkyMode::Sunrise, SkyMode::Sun, SkyMode::Moon, SkyMode::Stars]
            .into_iter()
            .map(mode_number)
            .collect();
    assert_eq!(modes, expected);
    assert_eq!(draws[3].moon, Some(1));
    assert_eq!(plan_sky(&layout, true, true, true, 0).len(), 1);
    assert_eq!(plan_sky(&layout, false, false, false, 0).len(), 3);
    assert_eq!(moon_brightness(0), 4);
    assert_eq!(moon_brightness(4 * 24_000), 0);
}

#[test]
fn classifies_warm_and_cold_biomes_and_honors_precipitation_flag() {
    let warm = BiomeClimate { has_precipitation: true, temperature: 800_000 };
    let cold = BiomeClimate { has_precipitation: true, temperature: 0 };
    let dry = BiomeClimate { has_precipitation: false, temperature: 800_000 };
    assert!(matches!(precipitation_for(&warm, 63), Precip::Rain));
    assert!(matches!(precipitation_for(&cold, 63), Precip::Snow));
    assert!(matches!(precipitation_for(&dry, 63), Precip::Dry));
}

#[test]
fn it_snows_high_up() {
    let mild = BiomeClimate { has_precipitation: true, temperature: 200_000 };
    assert!(matches!(precipitation_for(&mild, 120), Precip::Rain));
    assert!(matches!(precipitation_for(&mild, 121), Precip::Snow));
}

#[test]
fn columns_hash_as_java_does() {
    assert_eq!(column_hash_parts(0, 0), (0, 0));
    assert_eq!(column_hash_parts(1, 1), (3121 + 45_238_971, 418_711 + 13_761));
    assert_eq!(column_seed(1, 1), ((3121 + 45_238_971) ^ (418_711 + 13_761)) as i64);
    let (a, b) = column_hash_parts(-7, 12_345);
    assert_eq!(column_tick_offset(-7, 12_345), a.wrapping_add(b) & 255);
    let mut rng = JavaRandom::new(column_seed(5, 6));
    assert_eq!(rain_speed_fraction(5, 6), rng.next_float());
    assert_eq!(rain_ticks(0x2_0003), 3);
    assert_eq!(snow_ticks(0x205), 5);
}

#[test]
fn rain_is_drawn_before_snow() {
    let columns = [Precip::Snow, Precip::Rain, Precip::Dry, Precip::Rain];
    let draws = plan_columns(true, &columns);
    assert_eq!(draws.len(), 2);
    assert!(!draws[0].snow);
    assert_eq!((draws[0].first_vertex, draws[0].vertex_count), (0, 12));
    assert!(draws[1].snow);
    assert_eq!((draws[1].first_vertex, draws[1].vertex_count), (12, 6));
    assert!(plan_columns(false, &columns).is_empty());
    assert!(plan_columns(true, &[Precip::Dry]).is_empty());
}

/// A square border, in whole blocks.
fn border(size: i64) -> BorderBounds {
    BorderBounds { min_x: -size / 2, max_x: size / 2, min_z: -size / 2, max_z: size / 2 }
}

#[test]
fn extracts_border_status_for_color_variant_selection() {
    let draw = extract_border(border(20), BorderStatus::Growing, 10, 0, 32).unwrap();
    assert_eq!(draw.status, BorderStatus::Growing);
    assert_eq!(texture_index(draw.status), 1);
}

#[test]
fn culls_and_fades_by_nearest_edge() {
    let status = BorderStatus::Stationary;
    assert!(extract_border(border(59_999_968), status, 0, 0, 100).is_none());
    let d = extract_border(border(20), status, 10, 0, 20).unwrap();
    let alpha = (1.0 - d.nearest as f64 / 20.0).powi(4).clamp(0.0, 1.0);
    assert_eq!(alpha, 1.0);
    assert_eq!(d.bounds.min_x, -10);
    assert!(extract_border(border(20), status, 30, 30, 10).is_none());
    assert!(extract_border(border(20), status, 10, 30, 10).is_none());
}

#[test]
fn only_near_walls_are_drawn() {
    let d = extract_border(border(20), BorderStatus::Shrinking, 9, 0, 5).unwrap();
    assert_eq!(d.nearest, 1);
    assert_eq!(plan_walls(&d), vec![3]);
    let all = extract_border(border(4), BorderStatus::Shrinking, 0, 0, 5).unwrap();
    assert_eq!(plan_walls(&all), vec![0, 1, 2, 3]);
}

#[test]
fn tinting_multiplies_colours() {
    assert_eq!(tint_pixels(&[255, 128, 0, 7], [255, 255, 255]), vec![255, 128, 0, 7]);
    assert_eq!(tint_pixels(&[255, 128, 10, 7], [32, 0, 255]), vec![32, 0, 10, 7]);
}

#[test]
fn opaque_particles_come_first() {
    let plan = plan_particles(&[true, false, true, false]);
    assert_eq!(plan.order, vec![1, 3, 0, 2]);
    assert_eq!(plan.opaque, 2);
    assert_eq!(plan.ranges(), ((0, 12), (12, 12)));
    let crowd = vec![false; MAX_PARTICLE_QUADS + 5];
    assert_eq!(plan_particles(&crowd).order.len(), MAX_PARTICLE_QUADS);
}

#[test]
fn walls_join_into_a_loop() {
    let bounds = BorderBounds { min_x: -10, max_x: 10, min_z: -20, max_z: 20 };
    let view = Viewpoint { x: 0, y: 64, z: 0, far: 100 };
    let ends: Vec<_> = (0..4)
        .map(|side| {
            let v = wall_vertices(bounds, view, side);
            assert_eq!(v.len(), 6);
            assert_eq!((v[0].y, v[2].y), (-36, 164));
            assert_eq!((v[0].along, v[1].along), (0, if side % 2 == 0 { 20 } else { 40 }));
            assert!(!v[0].top && !v[1].top && v[2].top && v[5].top);
            ((v[0].x, v[0].z), (v[1].x, v[1].z))
        })
        .collect();
    assert_eq!(ends[0], ((-10, 20), (10, 20)));
    assert_eq!(ends[0].1, ends[3].0);
    assert_eq!(ends[3].1, ends[2].0);
    assert_eq!(ends[2].1, ends[1].0);
    assert_eq!(ends[1].1, ends[0].0);
    let near = Viewpoint { x: 8, y: 0, z: 0, far: 5 };
    let v = wall_vertices(bounds, near, 0);
    assert_eq!((v[0].x, v[1].x, v[1].along), (3, 10, 7));
    assert_eq!(fade(0, 20), 20);
    assert_eq!(fade(-3, 20), 20);
    assert_eq!(fade(15, 20), 5);
}

#[test]
fn stars_are_fixed_by_their_seed() {
    let stars = build_stars();
    assert_eq!(stars.len(), 780);
    assert_eq!(
        stars[0],
        Star { x: -5599714, y: 7353750, z: 5016236, size: 30912, turn: 6402564622517342 }
    );
    assert_eq!(
        stars[779],
        Star { x: -3035356, y: 14576724, z: -5350282, size: 7312913, turn: 8022994536363456 }
    );
    for s in &stars {
        let square = [s.x, s.y, s.z].iter().map(|v| (*v as f64 / 16777216.0).powi(2)).sum::<f64>();
        assert!(square > 0.01 && square < 1.0);
    }
}

#[test]
fn snow_columns_draw_a_point_in_the_circle() {
    assert_eq!(
        snow_draws(0, 0),
        SnowDraws {
            u: 6583972509698697,
            point: (-2337040203396219, 1237746131201921),
            v: 4957895782277416,
        }
    );
    for x in -20..20 {
        for z in -20..20 {
            let (a, b) = snow_draws(x, z).point;
            let (a, b) = (a as f64 / 4503599627370496.0, b as f64 / 4503599627370496.0);
            assert!(a * a + b * b < 1.0);
        }
    }
}

#[test]
fn stars_and_glow_follow_the_clock() {
    let mut sky = SkyState::default_day();
    assert!(!sky.stars_show() && !sky.sunrise_shows());
    sky.day_time = 18000;
    assert!(sky.stars_show() && !sky.sunrise_shows());
    sky.rain_level = 980_000;
    assert!(!sky.stars_show());
    sky.rain_level = 900_000;
    assert!(sky.stars_show());
    sky.day_time = 12732;
    assert!(sky.sunrise_shows());
    // Alpha falls from 6/255 to nothing between ticks 565 and 730.
    sky.day_time = 565;
    assert!(sky.sunrise_shows());
    sky.day_time = 723;
    assert!(!sky.sunrise_shows());
    sky.day_time = 722;
    assert!(sky.sunrise_shows());
}
