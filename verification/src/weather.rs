//! Rain and snow columns.
use vstd::prelude::*;

verus! {

/// Block radius of the precipitation grid around the camera.
pub const WEATHER_RADIUS: i32 = 10;

pub const COLUMNS_PER_SIDE: usize = 21;

pub const MAX_WEATHER_VERTS: usize = 2646;

/// Approximate overworld sea level.
pub const SEA_LEVEL: i32 = 63;

#[derive(Clone, Copy, Debug, PartialEq, Eq, Structural)]
pub enum Precip {
    Dry,
    Rain,
    Snow,
}

/// Climate of a biome. Temperatures are in millionths.
#[derive(Clone, Copy, Debug, PartialEq, Eq, Structural)]
pub struct BiomeClimate {
    pub has_precipitation: bool,
    pub temperature: i64,
}

/// Temperature at height `y`, in millionths: each block above the snow line
/// takes 1250 off.
pub open spec fn temperature_at(climate: BiomeClimate, y: int) -> int {
    if y > 80 {
        climate.temperature - (y - 80) * 1250
    } else {
        climate.temperature as int
    }
}

/// What falls on a column of a biome at height `y`.
pub open spec fn precip_of(climate: BiomeClimate, y: int) -> Precip {
    if !climate.has_precipitation {
        Precip::Dry
    } else if temperature_at(climate, y) < 150_000 {
        Precip::Snow
    } else {
        Precip::Rain
    }
}

/// Classifies precipitation for a biome at a given height: none where the biome
/// disables it, snow below 0.15 degrees, else rain.
pub fn precipitation_for(climate: &BiomeClimate, y: i32) -> (precip: Precip)
    ensures
        precip == precip_of(*climate, y as int),
        precip == (if !climate.has_precipitation {
            Precip::Dry
        } else if temperature_at(*climate, y as int) < 150_000 {
            Precip::Snow
        } else {
            Precip::Rain
        }),
{
    if !climate.has_precipitation {
        return Precip::Dry;
    }
    let snow_line: i32 = SEA_LEVEL + 17;
    let temperature: i128 = if y > snow_line {
        climate.temperature as i128 - (y as i128 - snow_line as i128) * 1250
    } else {
        climate.temperature as i128
    };
    if temperature < 150_000 {
        Precip::Snow
    } else {
        Precip::Rain
    }
}

/// Going up never turns snow into rain.
pub proof fn law_snow_stays_snow_higher_up(climate: BiomeClimate, low: int, high: int)
    requires
        low <= high,
    ensures
        temperature_at(climate, high) <= temperature_at(climate, low),
{
}

/// The value a 32-bit two's complement register keeps of `v`.
pub open spec fn wrap32(v: int) -> int {
    (v + 0x8000_0000) % 0x1_0000_0000 - 0x8000_0000
}

proof fn lemma_wrap_range(v: int)
    ensures
        -0x8000_0000 <= wrap32(v) < 0x8000_0000,
        (wrap32(v) - v) % 0x1_0000_0000 == 0,
        -0x8000_0000 <= v < 0x8000_0000 ==> wrap32(v) == v,
{
}

proof fn lemma_same_residue(a: int, b: int)
    requires
        (a - b) % 0x1_0000_0000 == 0,
    ensures
        wrap32(a) == wrap32(b),
{
}

proof fn lemma_wrap_mul(a: int, k: int)
    ensures
        wrap32(wrap32(a) * k) == wrap32(a * k),
{
    lemma_wrap_range(a);
    let q = (wrap32(a) - a) / 0x1_0000_0000;
    assert(wrap32(a) - a == q * 0x1_0000_0000);
    assert(wrap32(a) * k - a * k == (q * k) * 0x1_0000_0000) by (nonlinear_arith)
        requires
            wrap32(a) - a == q * 0x1_0000_0000,
    ;
    lemma_same_residue(wrap32(a) * k, a * k);
}

proof fn lemma_wrap_add(a: int, b: int)
    ensures
        wrap32(wrap32(a) + wrap32(b)) == wrap32(a + b),
{
    lemma_wrap_range(a);
    lemma_wrap_range(b);
    lemma_same_residue(wrap32(a) + wrap32(b), a + b);
}

fn mul32(a: i32, b: i32) -> (product: i32)
    ensures
        product == wrap32(a * b),
{
    a.wrapping_mul(b)
}

fn add32(a: i32, b: i32) -> (sum: i32)
    ensures
        sum == wrap32(a + b),
{
    a.wrapping_add(b)
}

/// The hash half of an x coordinate.
pub open spec fn x_hash(x: i32) -> int {
    wrap32(x * x * 3121 + x * 45_238_971)
}

/// The hash half of a z coordinate.
pub open spec fn z_hash(z: i32) -> int {
    wrap32(z * z * 418_711 + z * 13_761)
}

fn quadratic(v: i32, square: i32, linear: i32) -> (hash: i32)
    ensures
        hash == wrap32(v * v * square + v * linear),
{
    let ss: i32 = mul32(mul32(v, v), square);
    let l: i32 = mul32(v, linear);
    proof {
        lemma_wrap_mul(v * v, square as int);
        lemma_wrap_add(v * v * square, v * linear);
    }
    add32(ss, l)
}

/// Per-column hash halves shared by the rain seed and the tick offset.
pub fn column_hash_parts(x: i32, z: i32) -> (parts: (i32, i32))
    ensures
        parts.0 == x_hash(x),
        parts.1 == z_hash(z),
{
    (quadratic(x, 3121, 45_238_971), quadratic(z, 418_711, 13_761))
}

/// The seed of a column's random generator.
pub fn column_seed(x: i32, z: i32) -> (seed: i64)
    ensures
        seed == (x_hash(x) as i32 ^ z_hash(z) as i32) as i64,
{
    let (a, b) = column_hash_parts(x, z);
    (a ^ b) as i64
}

/// Wrapping leaves the low eight bits as they are.
proof fn lemma_wrap_low(v: int)
    ensures
        wrap32(v) % 256 == v % 256,
{
    let turns = (v + 0x8000_0000) / 0x1_0000_0000;
    vstd::arithmetic::div_mod::lemma_fundamental_div_mod(v + 0x8000_0000, 0x1_0000_0000);
    assert(wrap32(v) == 256 * (-0x100_0000 * turns) + v);
    vstd::arithmetic::div_mod::lemma_mod_multiples_vanish(-0x100_0000 * turns, v, 256);
}

/// How many ticks a column's scroll is ahead, below 256.
pub fn column_tick_offset(x: i32, z: i32) -> (offset: i32)
    ensures
        offset == (x_hash(x) + z_hash(z)) % 256,
        0 <= offset < 256,
{
    let (a, b) = column_hash_parts(x, z);
    let sum: i32 = add32(a, b);
    proof {
        lemma_wrap_low(a + b);
        assert(sum & 0xFF == (sum as i64 + 0x8000_0000i64) % 256) by (bit_vector);
        vstd::arithmetic::div_mod::lemma_mod_multiples_vanish(0x80_0000, sum as int, 256);
    }
    sum & 0xFF
}

/// Numerator over 2^24 of a rain column's speed above three.
pub fn rain_speed_fraction(x: i32, z: i32) -> (numerator: u32)
    ensures
        numerator == crate::random::lcg(
            crate::random::scrambled((x_hash(x) as i32 ^ z_hash(z) as i32) as i64 as u64) as int,
        ) / 0x100_0000,
        numerator < 0x100_0000,
{
    let mut rng = crate::random::JavaRandom::new(column_seed(x, z));
    rng.next_float()
}

/// What a snow column draws: where its texture begins in either direction, over 2^53,
/// and the point its two drifts are made from, in parts of 2^52.
#[derive(Clone, Copy, Debug, PartialEq, Eq)]
pub struct SnowDraws {
    pub u: u64,
    pub point: (i64, i64),
    pub v: u64,
}

/// The draws of a snow column: a fraction, a point, and another fraction. Both drifts
/// come from the one point.
pub fn snow_draws(x: i32, z: i32) -> (draws: SnowDraws)
    ensures
        ({
            let seed = crate::random::scrambled(
                (x_hash(x) as i32 ^ z_hash(z) as i32) as i64 as u64,
            ) as int;
            let from = crate::random::lcg(crate::random::lcg(seed));
            &&& draws.u == crate::random::fraction_at(seed)
            &&& exists|n: nat| #[trigger]
                crate::random::points_missed(from, n) && (
                    draws.point.0 as int,
                    draws.point.1 as int,
                ) == crate::random::point_at(crate::random::lcg_iter(from, 4 * n)) && draws.v
                    == crate::random::fraction_at(crate::random::lcg_iter(from, 4 * n + 4))
        }),
{
    let mut rng = crate::random::JavaRandom::new(column_seed(x, z));
    let u: u64 = rng.next_double();
    let point = rng.next_point();
    let v: u64 = rng.next_double();
    SnowDraws { u, point, v }
}

/// Ticks since the rain texture last repeated, below 2^17.
pub fn rain_ticks(game_time: u64) -> (ticks: u32)
    ensures
        ticks == game_time % 0x2_0000,
{
    assert(game_time & 0x1FFFFu64 == game_time % 0x2_0000u64) by (bit_vector);
    (game_time & 0x1FFFF) as u32
}

/// Ticks since the snow texture last repeated, below 512.
pub fn snow_ticks(game_time: u64) -> (ticks: u32)
    ensures
        ticks == game_time % 0x200,
{
    assert(game_time & 0x1FFu64 == game_time % 0x200u64) by (bit_vector);
    (game_time & 0x1FF) as u32
}

/// One textured draw out of the shared vertex buffer.
#[derive(Clone, Copy, Debug, PartialEq, Eq, Structural)]
pub struct WeatherDraw {
    pub snow: bool,
    pub first_vertex: u32,
    pub vertex_count: u32,
}

/// How many of the first `n` columns have precipitation `kind`.
pub open spec fn columns_of(columns: Seq<Precip>, kind: Precip) -> nat
    decreases columns.len(),
{
    if columns.len() == 0 {
        0
    } else {
        columns_of(columns.drop_last(), kind) + (if columns.last() == kind {
            1nat
        } else {
            0
        })
    }
}

/// The draws for `rain` rain columns followed by `snow` snow columns.
pub open spec fn weather_draws(rain: nat, snow: nat) -> Seq<(bool, nat, nat)> {
    (if rain > 0 {
        seq![(false, 0nat, 6 * rain)]
    } else {
        Seq::empty()
    }) + (if snow > 0 {
        seq![(true, 6 * rain, 6 * snow)]
    } else {
        Seq::empty()
    })
}

/// The mathematical reading of a draw.
pub open spec fn draw_triple(draw: WeatherDraw) -> (bool, nat, nat) {
    (draw.snow, draw.first_vertex as nat, draw.vertex_count as nat)
}

proof fn lemma_columns_bounded(columns: Seq<Precip>)
    ensures
        columns_of(columns, Precip::Rain) + columns_of(columns, Precip::Snow) <= columns.len(),
    decreases columns.len(),
{
    if columns.len() > 0 {
        lemma_columns_bounded(columns.drop_last());
    }
}

/// Plans a frame of precipitation: rain quads first, then snow quads, each kind
/// in one draw. Nothing is drawn without rain strength.
pub fn plan_columns(raining: bool, columns: &[Precip]) -> (draws: Vec<WeatherDraw>)
    requires
        columns@.len() <= 0x1000_0000,
    ensures
        draws@.map_values(|d: WeatherDraw| draw_triple(d)) == (if raining {
            weather_draws(
                columns_of(columns@, Precip::Rain),
                columns_of(columns@, Precip::Snow),
            )
        } else {
            Seq::empty()
        }),
{
    let mut draws: Vec<WeatherDraw> = Vec::new();
    if !raining {
        assert(draws@.map_values(|d: WeatherDraw| draw_triple(d)) =~= Seq::empty());
        return draws;
    }
    let mut rain: u32 = 0;
    let mut snow: u32 = 0;
    let mut i: usize = 0;
    while i < columns.len()
        invariant
            i <= columns@.len() <= 0x1000_0000,
            rain == columns_of(columns@.take(i as int), Precip::Rain),
            snow == columns_of(columns@.take(i as int), Precip::Snow),
            rain + snow <= i,
        decreases columns@.len() - i,
    {
        proof {
            assert(columns@.take(i + 1).drop_last() =~= columns@.take(i as int));
            assert(columns@.take(i + 1).last() == columns@[i as int]);
        }
        match columns[i] {
            Precip::Rain => {
                rain = rain + 1;
            },
            Precip::Snow => {
                snow = snow + 1;
            },
            Precip::Dry => {},
        }
        i = i + 1;
    }
    assert(columns@.take(columns@.len() as int) =~= columns@);
    if rain > 0 {
        draws.push(WeatherDraw { snow: false, first_vertex: 0, vertex_count: rain * 6 });
    }
    if snow > 0 {
        draws.push(WeatherDraw { snow: true, first_vertex: rain * 6, vertex_count: snow * 6 });
    }
    assert(draws@.map_values(|d: WeatherDraw| draw_triple(d)) =~= weather_draws(
        rain as nat,
        snow as nat,
    ));
    draws
}

/// A full grid of columns fits the vertex buffer: nothing is ever cut off.
pub proof fn law_full_grid_fits(columns: Seq<Precip>)
    requires
        columns.len() <= COLUMNS_PER_SIDE * COLUMNS_PER_SIDE,
    ensures
        6 * (columns_of(columns, Precip::Rain) + columns_of(columns, Precip::Snow))
            <= MAX_WEATHER_VERTS,
{
    lemma_columns_bounded(columns);
}

/// Indices of a quad's corners in its two triangles.
pub const QUAD_CORNERS: [usize; 6] = [0, 1, 2, 0, 2, 3];

/// The asset of the rain strip.
pub const RAIN_TEXTURE: &'static str = "minecraft/textures/environment/rain.png";

/// The asset of the snow strip.
pub const SNOW_TEXTURE: &'static str = "minecraft/textures/environment/snow.png";

/// Up to the snow line a column is as warm as its biome; above it each block is 1250
/// millionths colder than the one below.
pub proof fn law_air_cools_above_the_snow_line(climate: BiomeClimate, y: int)
    ensures
        y <= 80 ==> temperature_at(climate, y) == climate.temperature,
        y >= 80 ==> temperature_at(climate, y) - temperature_at(climate, y + 1) == 1250,
{
}

proof fn lemma_wrap_step(h: int, d: int)
    ensures
        (wrap32(h + d) - wrap32(h) - d) % 0x1_0000_0000 == 0,
{
    lemma_wrap_range(h);
    lemma_wrap_range(h + d);
}

proof fn lemma_quadratic_steps(a: int, square: int, linear: int)
    ensures
        ({
            let before = wrap32(a * a * square + a * linear);
            let after = wrap32((a + 1) * (a + 1) * square + (a + 1) * linear);
            &&& (after - before - (linear + square * (2 * a + 1))) % 0x1_0000_0000 == 0
            &&& -0x8000_0000 <= before < 0x8000_0000
        }),
{
    let h = a * a * square + a * linear;
    let d = linear + square * (2 * a + 1);
    assert((a + 1) * (a + 1) * square + (a + 1) * linear == h + d) by (nonlinear_arith)
        requires
            h == a * a * square + a * linear,
            d == linear + square * (2 * a + 1),
    ;
    lemma_wrap_range(h);
    lemma_wrap_step(h, d);
}

/// The hash of a coordinate is a quadratic that wraps at 32 bits: it begins at nothing,
/// and stepping to the next column changes it by an amount that itself grows evenly.
pub proof fn law_hashes_step_evenly(v: i32)
    requires
        v < i32::MAX,
    ensures
        x_hash(0) == 0,
        z_hash(0) == 0,
        (x_hash((v + 1) as i32) - x_hash(v) - (45_238_971 + 3121 * (2 * v + 1))) % 0x1_0000_0000
            == 0,
        (z_hash((v + 1) as i32) - z_hash(v) - (13_761 + 418_711 * (2 * v + 1))) % 0x1_0000_0000
            == 0,
        -0x8000_0000 <= x_hash(v) < 0x8000_0000,
        -0x8000_0000 <= z_hash(v) < 0x8000_0000,
{
    lemma_quadratic_steps(v as int, 3121, 45_238_971);
    lemma_quadratic_steps(v as int, 418_711, 13_761);
    assert(0int * 0int * 3121 + 0int * 45_238_971 == 0) by (nonlinear_arith);
    assert(0int * 0int * 418_711 + 0int * 13_761 == 0) by (nonlinear_arith);
}

proof fn lemma_columns_filtered(columns: Seq<Precip>, kind: Precip)
    ensures
        columns_of(columns, kind) == columns.filter(|p: Precip| p == kind).len(),
    decreases columns.len(),
{
    reveal(Seq::filter);
    if columns.len() > 0 {
        lemma_columns_filtered(columns.drop_last(), kind);
    }
}

/// While it rains there is a draw for each kind of precipitation that falls somewhere
/// and no other. It has six vertices for each column of its kind, and the draws follow
/// one another without a gap, rain before snow.
pub proof fn law_each_kind_is_drawn_for_its_columns(columns: Seq<Precip>, i: int)
    ensures
        ({
            let rain = columns.filter(|p: Precip| p == Precip::Rain).len();
            let snow = columns.filter(|p: Precip| p == Precip::Snow).len();
            let draws = weather_draws(
                columns_of(columns, Precip::Rain),
                columns_of(columns, Precip::Snow),
            );
            &&& draws.len() == (if rain > 0 {
                1int
            } else {
                0
            }) + (if snow > 0 {
                1int
            } else {
                0
            })
            &&& 0 <= i < draws.len() ==> {
                &&& draws[i].2 == 6 * (if draws[i].0 {
                    snow
                } else {
                    rain
                })
                &&& draws[i].2 > 0
                &&& i == 0 ==> draws[i].1 == 0
                &&& i > 0 ==> draws[i].1 == draws[i - 1].1 + draws[i - 1].2 && draws[i].0
                    && !draws[i - 1].0
            }
        }),
{
    lemma_columns_filtered(columns, Precip::Rain);
    lemma_columns_filtered(columns, Precip::Snow);
}

/// A dry biome stays dry at any height. Elsewhere it snows where, above the eightieth
/// block at 1250 millionths a block, the air has cooled below 0.15 degrees, and rains
/// where it has not.
pub proof fn law_snow_falls_where_it_is_cold(climate: BiomeClimate, y: int)
    ensures
        precip_of(climate, y) == Precip::Dry <==> !climate.has_precipitation,
        climate.has_precipitation && y <= 80 ==> (precip_of(climate, y) == Precip::Snow
            <==> climate.temperature < 150_000),
        climate.has_precipitation && y > 80 ==> (precip_of(climate, y) == Precip::Snow
            <==> climate.temperature < 150_000 + 1250 * (y - 80)),
{
}

} // verus!
