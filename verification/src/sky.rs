//! Sky state: the world clock, moon phases, keyframes and draw order.
use vstd::prelude::*;

verus! {

pub const STAR_COUNT: u32 = 1500;

pub const TICKS_PER_DAY: u64 = 24000;

pub const SUN_TEXTURE: &'static str = "minecraft/textures/environment/celestial/sun.png";

/// Moon textures by phase.
pub const MOON_TEXTURES: [&'static str; 8] = [
    "minecraft/textures/environment/celestial/moon/full_moon.png",
    "minecraft/textures/environment/celestial/moon/waning_gibbous.png",
    "minecraft/textures/environment/celestial/moon/third_quarter.png",
    "minecraft/textures/environment/celestial/moon/waning_crescent.png",
    "minecraft/textures/environment/celestial/moon/new_moon.png",
    "minecraft/textures/environment/celestial/moon/waxing_crescent.png",
    "minecraft/textures/environment/celestial/moon/first_quarter.png",
    "minecraft/textures/environment/celestial/moon/waxing_gibbous.png",
];

/// Moon brightness by phase, in quarters.
pub const MOON_BRIGHTNESS_PER_PHASE: [u8; 8] = [4, 3, 2, 1, 0, 1, 2, 3];

/// Ticks of the star brightness keyframes.
pub const STAR_TICKS: [u64; 12] = [
    92,
    627,
    11373,
    11732,
    11959,
    12399,
    12729,
    13228,
    22772,
    23032,
    23356,
    23758,
];

/// Star brightness at each keyframe, in thousandths.
pub const STAR_BRIGHTNESS: [u32; 12] = [37, 0, 0, 16, 44, 143, 258, 500, 500, 364, 225, 101];

/// Ticks of the day colour keyframes.
pub const SKY_COLOR_TICKS: [u64; 4] = [133, 11867, 13670, 22330];

/// Day colour factor at each keyframe.
pub const SKY_COLOR_FACTORS: [u32; 4] = [1, 1, 0, 0];

/// Ticks of the sunrise colour keyframes.
pub const SUNRISE_TICKS: [u64; 32] = [
    71,
    310,
    565,
    730,
    11270,
    11397,
    11522,
    11690,
    11929,
    12243,
    12358,
    12512,
    12613,
    12732,
    12841,
    13035,
    13252,
    13775,
    13888,
    14039,
    14192,
    21807,
    21961,
    22112,
    22225,
    22748,
    22965,
    23159,
    23272,
    23488,
    23642,
    23757,
];

/// Packed sunrise colour (alpha, red, green, blue) at each keyframe.
pub const SUNRISE_COLORS: [i32; 32] = [
    1609540403,
    703969843,
    117167155,
    16770355,
    16770355,
    83679283,
    268028723,
    703969843,
    1609540403,
    -1310226637,
    -857440717,
    -371166669,
    -153261261,
    -19242189,
    -19440589,
    -321760973,
    -1043577037,
    918435635,
    532362547,
    163001139,
    11744051,
    11678515,
    163001139,
    532362547,
    918435635,
    -1043577037,
    -321760973,
    -19440589,
    -19242189,
    -371166669,
    -857440717,
    -1310226637,
];

/// The phase of the moon on a day: eight days a cycle.
pub open spec fn phase_of(day_time: int) -> int {
    (day_time / 24000) % 8
}

/// The phase of the moon at a world time.
pub fn moon_phase(day_time: u64) -> (phase: usize)
    ensures
        phase == phase_of(day_time as int),
        phase < 8,
{
    ((day_time / TICKS_PER_DAY) % 8) as usize
}

/// The moon repeats every eight days and moves on by one phase a day.
pub proof fn law_moon_cycle(day_time: int)
    requires
        day_time >= 0,
    ensures
        phase_of(day_time + 8 * 24000) == phase_of(day_time),
        phase_of(day_time + 24000) == (phase_of(day_time) + 1) % 8,
{
}

/// Brightness of the moon at a world time, in quarters.
pub fn moon_brightness(day_time: u64) -> (quarters: u8)
    ensures
        quarters == MOON_BRIGHTNESS_PER_PHASE[phase_of(day_time as int)],
{
    let table = MOON_BRIGHTNESS_PER_PHASE;
    table[moon_phase(day_time)]
}

/// A day, in trillionths of a tick.
pub const DAY: u64 = 24_000_000_000_000_000;

/// One millionth is the unit of fractional ticks, rates and weather levels.
pub const MILLION: u64 = 1_000_000;

/// Weather and clock of the sky. Fractions are in millionths.
#[derive(Clone, Copy, Debug, PartialEq, Eq)]
pub struct SkyState {
    pub day_time: u64,
    pub game_time: u64,
    pub rain_level: i64,
    pub thunder_level: i64,
    /// Server clock, not the frame interpolation fraction.
    pub clock_id: Option<u32>,
    pub clock_partial_tick: u64,
    pub clock_rate: u64,
    /// Last values the server sent, kept apart from local prediction.
    pub last_network_clock: Option<(u32, u64, i64, i64)>,
    pub partial_tick: u32,
}

/// `level` held between nothing and all.
pub open spec fn clamped(level: int) -> int {
    if level < 0 {
        0
    } else if level > 1_000_000 {
        1_000_000
    } else {
        level
    }
}

fn clamp_level(level: i64) -> (held: u64)
    ensures
        held == clamped(level as int),
{
    if level < 0 {
        0
    } else if level > 1_000_000 {
        1_000_000
    } else {
        level as u64
    }
}

impl SkyState {
    /// The fraction of a tick is one, and the rate leaves room to add it.
    pub open spec fn wf(self) -> bool {
        self.clock_partial_tick < 1_000_000 && self.clock_rate <= i64::MAX
    }

    /// Millionths of a tick since the clock began.
    pub open spec fn clock(self) -> int {
        self.day_time * 1_000_000 + self.clock_partial_tick
    }

    /// Time of day, in trillionths of a tick.
    pub open spec fn time_of_day(self) -> int {
        ((self.day_time % 24000) * 1_000_000_000_000 + self.clock_partial_tick * 1_000_000
            + self.partial_tick * self.clock_rate) % 24_000_000_000_000_000
    }

    /// The state once the server sent a clock.
    pub open spec fn after_update(
        self,
        id: u32,
        total_ticks: u64,
        partial_tick: Option<i64>,
        rate: Option<i64>,
    ) -> SkyState {
        match (partial_tick, rate) {
            (Some(fraction), Some(rate)) => if rate < 0 {
                self
            } else {
                SkyState {
                    clock_id: Some(id),
                    last_network_clock: Some((id, total_ticks, fraction, rate)),
                    day_time: total_ticks,
                    clock_partial_tick: (fraction as int % 1_000_000) as u64,
                    clock_rate: rate as u64,
                    ..self
                }
            },
            _ => self,
        }
    }

    /// The state a client tick later.
    pub open spec fn after_tick(self) -> SkyState {
        if self.clock_id is None {
            self
        } else {
            let sum = self.clock_partial_tick + self.clock_rate;
            SkyState {
                day_time: ((self.day_time + sum / 1_000_000) % 0x1_0000_0000_0000_0000) as u64,
                clock_partial_tick: (sum % 1_000_000) as u64,
                ..self
            }
        }
    }

    /// Noon, dry, and no clock: a dimension that is not known yet must not
    /// invent a moving one.
    pub fn default_day() -> (sky: Self)
        ensures
            sky.wf(),
            sky == (SkyState {
                day_time: 6000,
                game_time: 6000,
                rain_level: 0,
                thunder_level: 0,
                clock_id: None,
                clock_partial_tick: 0,
                clock_rate: 0,
                last_network_clock: None,
                partial_tick: 0,
            }),
    {
        SkyState {
            day_time: 6000,
            game_time: 6000,
            rain_level: 0,
            thunder_level: 0,
            clock_id: None,
            clock_partial_tick: 0,
            clock_rate: 0,
            last_network_clock: None,
            partial_tick: 0,
        }
    }

    /// Takes over a clock the server sent. One with a negative rate is ignored, and so is
    /// one with a fraction or a rate that is not finite, which is `None`.
    pub fn apply_clock_update(
        &mut self,
        id: u32,
        total_ticks: u64,
        partial_tick: Option<i64>,
        rate: Option<i64>,
    )
        ensures
            *final(self) == old(self).after_update(id, total_ticks, partial_tick, rate),
            *final(self) == match (partial_tick, rate) {
                (Some(fraction), Some(rate)) => if rate < 0 {
                    *old(self)
                } else {
                    SkyState {
                        clock_id: Some(id),
                        last_network_clock: Some((id, total_ticks, fraction, rate)),
                        day_time: total_ticks,
                        clock_partial_tick: (fraction as int % 1_000_000) as u64,
                        clock_rate: rate as u64,
                        ..*old(self)
                    }
                },
                _ => *old(self),
            },
            old(self).wf() ==> final(self).wf(),
    {
        let (partial_tick, rate) = match (partial_tick, rate) {
            (Some(fraction), Some(rate)) => (fraction, rate),
            _ => {
                return;
            },
        };
        if rate < 0 {
            return;
        }
        let fraction: u64 = if partial_tick >= 0 {
            partial_tick as u64 % MILLION
        } else {
            let below: u64 = (-(partial_tick as i128)) as u64 % MILLION;
            if below == 0 {
                0
            } else {
                MILLION - below
            }
        };
        proof {
            let p = partial_tick as int;
            if p < 0 {
                let below = (-p) % 1_000_000;
                assert(p % 1_000_000 == (if below == 0 {
                    0
                } else {
                    1_000_000 - below
                }));
            }
        }
        self.clock_id = Some(id);
        self.last_network_clock = Some((id, total_ticks, partial_tick, rate));
        self.day_time = total_ticks;
        self.clock_partial_tick = fraction;
        self.clock_rate = rate as u64;
    }

    /// Predicts one client tick. Without a clock nothing moves.
    pub fn advance_clock_tick(&mut self)
        requires
            old(self).wf(),
        ensures
            final(self).wf(),
            *final(self) == old(self).after_tick(),
            old(self).clock_id is None ==> *final(self) == *old(self),
            old(self).clock_id is Some ==> *final(self) == (SkyState {
                day_time: ((old(self).day_time + (old(self).clock_partial_tick
                    + old(self).clock_rate) / 1_000_000) % 0x1_0000_0000_0000_0000) as u64,
                clock_partial_tick: ((old(self).clock_partial_tick + old(self).clock_rate)
                    % 1_000_000) as u64,
                ..*old(self)
            }),
    {
        if self.clock_id.is_none() {
            return;
        }
        let sum: u64 = self.clock_partial_tick + self.clock_rate;
        let full: u64 = sum / MILLION;
        self.day_time = self.day_time.wrapping_add(full);
        self.clock_partial_tick = sum - full * MILLION;
    }

    /// Time of day, in trillionths of a tick.
    pub fn day_tick(&self) -> (tick: u64)
        requires
            self.wf(),
        ensures
            tick == self.time_of_day(),
            tick < DAY,
    {
        let whole: u128 = (self.day_time % TICKS_PER_DAY) as u128 * 1_000_000_000_000;
        let fraction: u128 = self.clock_partial_tick as u128 * 1_000_000;
        assert(self.partial_tick * self.clock_rate <= 0x1_0000_0000 * 0x7fff_ffff_ffff_ffff)
            by (nonlinear_arith)
            requires
                self.partial_tick <= 0x1_0000_0000,
                self.clock_rate <= 0x7fff_ffff_ffff_ffff,
        ;
        assert(self.partial_tick * self.clock_rate >= 0) by (nonlinear_arith)
            requires
                self.partial_tick >= 0,
                self.clock_rate >= 0,
        ;
        let ahead: u128 = self.partial_tick as u128 * self.clock_rate as u128;
        ((whole + fraction + ahead) % 24_000_000_000_000_000) as u64
    }

    /// Rain strength, in millionths.
    pub fn rain(&self) -> (level: u64)
        ensures
            level == clamped(self.rain_level as int),
    {
        clamp_level(self.rain_level)
    }

    /// Thunder strength, in trillionths: there is no thunder without rain.
    pub fn thunder(&self) -> (level: u64)
        ensures
            level == clamped(self.thunder_level as int) * clamped(self.rain_level as int),
    {
        let thunder: u64 = clamp_level(self.thunder_level);
        let rain: u64 = clamp_level(self.rain_level);
        assert(thunder * rain <= 1_000_000 * 1_000_000) by (nonlinear_arith)
            requires
                0 <= thunder <= 1_000_000,
                0 <= rain <= 1_000_000,
        ;
        thunder * rain
    }
}

/// A running clock moves on by its rate each tick, losing nothing to rounding,
/// as long as the day counter does not wrap.
pub proof fn law_clock_keeps_its_rate(before: SkyState, after: SkyState)
    requires
        before.wf(),
        before.clock_id is Some,
        before.day_time + (before.clock_partial_tick + before.clock_rate) / 1_000_000 <= u64::MAX,
        after == (SkyState {
            day_time: ((before.day_time + (before.clock_partial_tick + before.clock_rate)
                / 1_000_000) % 0x1_0000_0000_0000_0000) as u64,
            clock_partial_tick: ((before.clock_partial_tick + before.clock_rate) % 1_000_000) as u64,
            ..before
        }),
    ensures
        after.clock() == before.clock() + before.clock_rate,
        before.clock_rate == 0 ==> after == before,
{
}

/// Two neighbouring keyframes around a time, and how far between them it is.
#[derive(Clone, Copy, Debug, PartialEq, Eq, Structural)]
pub struct Segment {
    pub from: usize,
    pub to: usize,
    pub elapsed: u64,
    pub span: u64,
}

/// Keyframe ticks rise and lie within one period.
pub open spec fn keyframes_ok(ticks: Seq<u64>, period: int) -> bool {
    &&& ticks.len() > 0
    &&& forall|i: int, j: int| 0 <= i < j < ticks.len() ==> ticks[i] < ticks[j]
    &&& forall|i: int| 0 <= i < ticks.len() ==> #[trigger] ticks[i] < period
}

/// `s` is the stretch of the cyclic timeline that holds `t`.
pub open spec fn holds_time(ticks: Seq<u64>, t: int, period: int, s: Segment) -> bool {
    let last = ticks.len() - 1;
    if s.to > 0 {
        &&& s.to == s.from + 1
        &&& s.to < ticks.len()
        &&& ticks[s.from as int] <= t < ticks[s.to as int]
        &&& s.elapsed == t - ticks[s.from as int]
        &&& s.span == ticks[s.to as int] - ticks[s.from as int]
    } else {
        &&& s.from == last
        &&& s.span == ticks[0] + period - ticks[last]
        &&& ticks[last] <= t ==> s.elapsed == t - ticks[last]
        &&& ticks[last] > t ==> t < ticks[0] && s.elapsed == t + period - ticks[last]
    }
}

/// Finds the keyframes around `t` on a timeline that repeats every `period`.
pub fn keyframe_segment(t: u64, ticks: &[u64], period: u64) -> (segment: Segment)
    requires
        keyframes_ok(ticks@, period as int),
        t < period <= 0x7fff_ffff_ffff_ffff,
    ensures
        holds_time(ticks@, t as int, period as int, segment),
        segment.from < ticks@.len(),
        segment.elapsed < segment.span,
{
    let count: usize = ticks.len();
    let mut i: usize = 0;
    while i < count && ticks[i] <= t
        invariant
            i <= count == ticks@.len(),
            forall|j: int| 0 <= j < i ==> #[trigger] ticks@[j] <= t,
        decreases count - i,
    {
        i = i + 1;
    }
    if i == 0 {
        let span: u64 = ticks[0] + period - ticks[count - 1];
        Segment { from: count - 1, to: 0, elapsed: t + period - ticks[count - 1], span }
    } else if i == count {
        let span: u64 = ticks[0] + period - ticks[count - 1];
        Segment { from: count - 1, to: 0, elapsed: t - ticks[count - 1], span }
    } else {
        Segment { from: i - 1, to: i, elapsed: t - ticks[i - 1], span: ticks[i] - ticks[i - 1] }
    }
}

/// A time lies in one stretch only.
pub proof fn law_segment_is_unique(
    ticks: Seq<u64>,
    t: int,
    period: int,
    a: Segment,
    b: Segment,
)
    requires
        keyframes_ok(ticks, period),
        holds_time(ticks, t, period, a),
        holds_time(ticks, t, period, b),
    ensures
        a == b,
{
    if a.to > 0 && b.to > 0 {
        if a.to < b.to {
            assert(ticks[a.to as int] <= ticks[b.from as int]);
        } else if b.to < a.to {
            assert(ticks[b.to as int] <= ticks[a.from as int]);
        }
    }
}

/// Red, green, blue and alpha of a packed colour.
pub fn argb_to_rgba(argb: i32) -> (rgba: [u8; 4])
    ensures
        rgba[3] * 0x100_0000 + rgba[0] * 0x1_0000 + rgba[1] * 0x100 + rgba[2] == argb as u32,
{
    let u: u32 = argb as u32;
    let r: u8 = ((u >> 16) & 0xFF) as u8;
    let g: u8 = ((u >> 8) & 0xFF) as u8;
    let b: u8 = (u & 0xFF) as u8;
    let a: u8 = ((u >> 24) & 0xFF) as u8;
    assert(((u >> 24) & 0xFF) * 0x100_0000 + ((u >> 16) & 0xFF) * 0x1_0000 + ((u >> 8) & 0xFF)
        * 0x100 + (u & 0xFF) == u && (u >> 24) & 0xFF <= 255 && (u >> 16) & 0xFF <= 255 && (u >> 8)
        & 0xFF <= 255 && u & 0xFF <= 255) by (bit_vector);
    [r, g, b, a]
}

/// Keyframe ticks in trillionths of a tick.
pub open spec fn fine_ticks(ticks: Seq<u64>) -> Seq<u64> {
    ticks.map_values(|t: u64| (t * 1_000_000_000_000) as u64)
}

/// A value between those of two keyframes, times the span between them.
pub open spec fn blended(a: int, b: int, s: Segment) -> int {
    a * (s.span - s.elapsed) + b * s.elapsed
}

/// Neighbouring ticks rise.
spec fn steps_up(ticks: Seq<u64>) -> bool {
    forall|i: int| 0 <= i < ticks.len() - 1 ==> #[trigger] below_next(ticks, i)
}

spec fn below_next(ticks: Seq<u64>, i: int) -> bool {
    ticks[i] < ticks[i + 1]
}

proof fn lemma_steps_up(ticks: Seq<u64>, i: int, j: int)
    requires
        steps_up(ticks),
        0 <= i < j < ticks.len(),
    ensures
        ticks[i] < ticks[j],
    decreases j - i,
{
    assert(below_next(ticks, j - 1));
    if i < j - 1 {
        lemma_steps_up(ticks, i, j - 1);
    }
}

proof fn lemma_keyframes(ticks: Seq<u64>)
    requires
        ticks.len() > 0,
        steps_up(ticks),
        ticks.last() < 24000,
    ensures
        keyframes_ok(fine_ticks(ticks), DAY as int),
        forall|i: int| 0 <= i < ticks.len() ==> #[trigger] ticks[i] < 24000,
{
    assert forall|i: int, j: int| 0 <= i < j < ticks.len() implies ticks[i] < ticks[j] by {
        lemma_steps_up(ticks, i, j);
    }
    assert forall|i: int| 0 <= i < ticks.len() implies #[trigger] ticks[i] < 24000 by {
        if i < ticks.len() - 1 {
            lemma_steps_up(ticks, i, ticks.len() - 1);
        }
    }
}

fn segment_at(t: u64, ticks: &[u64]) -> (segment: Segment)
    requires
        ticks@.len() > 0,
        steps_up(ticks@),
        ticks@.last() < 24000,
        t < DAY,
    ensures
        holds_time(fine_ticks(ticks@), t as int, DAY as int, segment),
        segment.from < ticks@.len(),
        segment.to < ticks@.len(),
        segment.elapsed < segment.span,
{
    let mut fine: Vec<u64> = Vec::new();
    let mut i: usize = 0;
    proof {
        lemma_keyframes(ticks@);
    }
    while i < ticks.len()
        invariant
            i <= ticks@.len(),
            keyframes_ok(fine_ticks(ticks@), DAY as int),
            forall|k: int| 0 <= k < ticks@.len() ==> #[trigger] ticks@[k] < 24000,
            fine@ =~= fine_ticks(ticks@).take(i as int),
        decreases ticks@.len() - i,
    {
        assert(fine_ticks(ticks@)[i as int] == (ticks@[i as int] * 1_000_000_000_000) as u64);
        fine.push(ticks[i] * 1_000_000_000_000);
        i = i + 1;
    }
    assert(fine@ =~= fine_ticks(ticks@));
    keyframe_segment(t, fine.as_slice(), DAY)
}

impl SkyState {
    /// Whether the stars are bright enough to draw: more than a hundredth, less what
    /// the rain takes.
    pub fn stars_show(&self) -> (show: bool)
        requires
            self.wf(),
        ensures
            forall|s: Segment|
                holds_time(
                    fine_ticks(STAR_TICKS@),
                    self.time_of_day(),
                    DAY as int,
                    s,
                ) ==> show == (#[trigger] blended(
                    STAR_BRIGHTNESS@[s.from as int] as int,
                    STAR_BRIGHTNESS@[s.to as int] as int,
                    s,
                ) * (1_000_000 - clamped(self.rain_level as int)) > 10_000_000 * s.span),
    {
        let ticks = STAR_TICKS;
        let values = STAR_BRIGHTNESS;
        let t: u64 = self.day_tick();
        proof {
            lemma_star_ticks();
        }
        let s = segment_at(t, &ticks);
        let a: u32 = values[s.from];
        let b: u32 = values[s.to];
        let rain: u64 = self.rain();
        proof {
            lemma_blend_bound(a as int, b as int, s);
            lemma_keyframes(STAR_TICKS@);
            assert forall|other: Segment|
                holds_time(fine_ticks(STAR_TICKS@), t as int, DAY as int, other) implies other
                == s by {
                law_segment_is_unique(fine_ticks(STAR_TICKS@), t as int, DAY as int, other, s);
            }
        }
        let left: u128 = a as u128 * (s.span - s.elapsed) as u128;
        let right: u128 = b as u128 * s.elapsed as u128;
        let blend: u128 = left + right;
        let clear: u64 = MILLION - rain;
        assert(blend * clear <= 0x1_0000_0000_0000_0000_0000_0000 * 1_000_000)
            by (nonlinear_arith)
            requires
                blend <= 0x1_0000_0000_0000_0000_0000_0000,
                clear <= 1_000_000,
        ;
        blend * clear as u128 > 10_000_000 * s.span as u128
    }

    /// Whether the glow of sunrise or sunset is strong enough to draw: an alpha of
    /// more than a thousandth.
    pub fn sunrise_shows(&self) -> (show: bool)
        requires
            self.wf(),
        ensures
            forall|s: Segment|
                holds_time(
                    fine_ticks(SUNRISE_TICKS@),
                    self.time_of_day(),
                    DAY as int,
                    s,
                ) ==> show == (1000 * #[trigger] blended(
                    alpha_of(SUNRISE_COLORS@[s.from as int]),
                    alpha_of(SUNRISE_COLORS@[s.to as int]),
                    s,
                ) > 255 * s.span),
    {
        let ticks = SUNRISE_TICKS;
        let colors = SUNRISE_COLORS;
        let t: u64 = self.day_tick();
        proof {
            lemma_sunrise_ticks();
        }
        let s = segment_at(t, &ticks);
        let a: u8 = argb_to_rgba(colors[s.from])[3];
        let b: u8 = argb_to_rgba(colors[s.to])[3];
        proof {
            lemma_blend_bound(a as int, b as int, s);
            lemma_keyframes(SUNRISE_TICKS@);
            assert forall|other: Segment|
                holds_time(fine_ticks(SUNRISE_TICKS@), t as int, DAY as int, other) implies other
                == s by {
                law_segment_is_unique(fine_ticks(SUNRISE_TICKS@), t as int, DAY as int, other, s);
            }
        }
        let left: u128 = a as u128 * (s.span - s.elapsed) as u128;
        let right: u128 = b as u128 * s.elapsed as u128;
        1000 * (left + right) > 255 * s.span as u128
    }
}

/// The alpha of a packed colour.
pub open spec fn alpha_of(argb: i32) -> int {
    (argb as u32) as int / 0x100_0000
}

proof fn lemma_blend_bound(a: int, b: int, s: Segment)
    requires
        0 <= a <= 0xffff_ffff,
        0 <= b <= 0xffff_ffff,
        s.elapsed < s.span,
    ensures
        0 <= a * (s.span - s.elapsed) <= 0xffff_ffff * s.span,
        0 <= b * s.elapsed <= 0xffff_ffff * s.span,
        0xffff_ffff * s.span <= 0xffff_ffff * 0xffff_ffff_ffff_ffff,
        0 <= blended(a, b, s) <= 0x1_0000_0000_0000_0000_0000_0000,
{
    let left = s.span - s.elapsed;
    let right = s.elapsed as int;
    assert(0 <= a * left <= 0xffff_ffff * left) by (nonlinear_arith)
        requires
            0 <= a <= 0xffff_ffff,
            0 <= left,
    ;
    assert(0 <= b * right <= 0xffff_ffff * right) by (nonlinear_arith)
        requires
            0 <= b <= 0xffff_ffff,
            0 <= right,
    ;
}

proof fn lemma_star_ticks()
    ensures
        STAR_TICKS@.len() == 12,
        steps_up(STAR_TICKS@),
        STAR_TICKS@.last() < 24000,
{
}

proof fn lemma_sunrise_ticks()
    ensures
        SUNRISE_TICKS@.len() == 32,
        steps_up(SUNRISE_TICKS@),
        SUNRISE_TICKS@.last() < 24000,
{
}

/// Where each shape sits in the sky vertex buffer.
#[derive(Clone, Copy, Debug, PartialEq, Eq, Structural)]
pub struct SkyLayout {
    pub top_disc_offset: u32,
    pub top_disc_count: u32,
    pub star_offset: u32,
    pub star_count: u32,
    pub sun_offset: u32,
    pub moon_offset: u32,
    pub sunrise_offset: u32,
    pub sunrise_count: u32,
    pub dark_disc_offset: u32,
    pub dark_disc_count: u32,
}

/// Vertices of a disc: eight triangles.
pub const DISC_VERTICES: u32 = 24;

/// Vertices of the sunrise fan: sixteen triangles.
pub const SUNRISE_VERTICES: u32 = 48;

/// Lays the shapes out end to end: top disc, `stars` star quads, sun, moon,
/// sunrise fan, dark disc.
pub fn sky_layout(stars: u32) -> (layout: SkyLayout)
    requires
        stars <= STAR_COUNT,
    ensures
        layout.top_disc_offset == 0,
        layout.top_disc_count == 24,
        layout.star_offset == layout.top_disc_offset + layout.top_disc_count,
        layout.star_count == 6 * stars,
        layout.sun_offset == layout.star_offset + layout.star_count,
        layout.moon_offset == layout.sun_offset + 6,
        layout.sunrise_offset == layout.moon_offset + 6,
        layout.sunrise_count == 48,
        layout.dark_disc_offset == layout.sunrise_offset + layout.sunrise_count,
        layout.dark_disc_count == 24,
{
    let star_count: u32 = stars * 6;
    let star_offset: u32 = DISC_VERTICES;
    let sun_offset: u32 = star_offset + star_count;
    let moon_offset: u32 = sun_offset + 6;
    let sunrise_offset: u32 = moon_offset + 6;
    SkyLayout {
        top_disc_offset: 0,
        top_disc_count: DISC_VERTICES,
        star_offset,
        star_count,
        sun_offset,
        moon_offset,
        sunrise_offset,
        sunrise_count: SUNRISE_VERTICES,
        dark_disc_offset: sunrise_offset + SUNRISE_VERTICES,
        dark_disc_count: DISC_VERTICES,
    }
}

/// What the fragment shader draws.
#[derive(Clone, Copy, Debug, PartialEq, Eq, Structural)]
pub enum SkyMode {
    Disc,
    Stars,
    Sun,
    Moon,
    Sunrise,
}

/// The number the shader knows a mode by.
pub open spec fn number_of(mode: SkyMode) -> int {
    match mode {
        SkyMode::Disc => 0,
        SkyMode::Stars => 1,
        SkyMode::Sun => 2,
        SkyMode::Moon => 3,
        SkyMode::Sunrise => 5,
    }
}

/// The number the shader knows a mode by.
pub fn mode_number(mode: SkyMode) -> (number: u32)
    ensures
        number == number_of(mode),
        number == match mode {
            SkyMode::Disc => 0int,
            SkyMode::Stars => 1,
            SkyMode::Sun => 2,
            SkyMode::Moon => 3,
            SkyMode::Sunrise => 5,
        },
{
    match mode {
        SkyMode::Disc => 0,
        SkyMode::Stars => 1,
        SkyMode::Sun => 2,
        SkyMode::Moon => 3,
        SkyMode::Sunrise => 5,
    }
}

/// One sky draw. `overlay` selects the additive pipeline; `moon` the texture of
/// that phase in place of the sun's.
#[derive(Clone, Copy, Debug, PartialEq, Eq, Structural)]
pub struct SkyDraw {
    pub mode: SkyMode,
    pub overlay: bool,
    pub moon: Option<usize>,
    pub first_vertex: u32,
    pub vertex_count: u32,
}

/// The draws of a frame, back to front. A top-down view shows the disc alone.
pub open spec fn sky_draws(
    layout: SkyLayout,
    top_down: bool,
    sunrise: bool,
    stars: bool,
    phase: usize,
) -> Seq<SkyDraw> {
    let disc = seq![
        SkyDraw {
            mode: SkyMode::Disc,
            overlay: false,
            moon: None,
            first_vertex: layout.top_disc_offset,
            vertex_count: layout.top_disc_count,
        },
    ];
    let glow = if sunrise {
        seq![
            SkyDraw {
                mode: SkyMode::Sunrise,
                overlay: false,
                moon: None,
                first_vertex: layout.sunrise_offset,
                vertex_count: layout.sunrise_count,
            },
        ]
    } else {
        Seq::empty()
    };
    let bodies = seq![
        SkyDraw {
            mode: SkyMode::Sun,
            overlay: true,
            moon: None,
            first_vertex: layout.sun_offset,
            vertex_count: 6,
        },
        SkyDraw {
            mode: SkyMode::Moon,
            overlay: true,
            moon: Some(phase),
            first_vertex: layout.moon_offset,
            vertex_count: 6,
        },
    ];
    let night = if stars {
        seq![
            SkyDraw {
                mode: SkyMode::Stars,
                overlay: true,
                moon: Some(phase),
                first_vertex: layout.star_offset,
                vertex_count: layout.star_count,
            },
        ]
    } else {
        Seq::empty()
    };
    if top_down {
        disc
    } else {
        disc + glow + bodies + night
    }
}

/// Plans the sky of a frame.
pub fn plan_sky(layout: &SkyLayout, top_down: bool, sunrise: bool, stars: bool, day_time: u64) -> (
    draws: Vec<SkyDraw>)
    ensures
        draws@ == sky_draws(
            *layout,
            top_down,
            sunrise,
            stars,
            phase_of(day_time as int) as usize,
        ),
{
    let phase: usize = moon_phase(day_time);
    let mut draws: Vec<SkyDraw> = Vec::new();
    draws.push(
        SkyDraw {
            mode: SkyMode::Disc,
            overlay: false,
            moon: None,
            first_vertex: layout.top_disc_offset,
            vertex_count: layout.top_disc_count,
        },
    );
    if !top_down {
        if sunrise {
            draws.push(
                SkyDraw {
                    mode: SkyMode::Sunrise,
                    overlay: false,
                    moon: None,
                    first_vertex: layout.sunrise_offset,
                    vertex_count: layout.sunrise_count,
                },
            );
        }
        draws.push(
            SkyDraw {
                mode: SkyMode::Sun,
                overlay: true,
                moon: None,
                first_vertex: layout.sun_offset,
                vertex_count: 6,
            },
        );
        draws.push(
            SkyDraw {
                mode: SkyMode::Moon,
                overlay: true,
                moon: Some(phase),
                first_vertex: layout.moon_offset,
                vertex_count: 6,
            },
        );
        if stars {
            draws.push(
                SkyDraw {
                    mode: SkyMode::Stars,
                    overlay: true,
                    moon: Some(phase),
                    first_vertex: layout.star_offset,
                    vertex_count: layout.star_count,
                },
            );
        }
    }
    assert(draws@ =~= sky_draws(*layout, top_down, sunrise, stars, phase));
    draws
}

/// The first day of a world has the first phase, every day after it the next of the
/// eight, and the phase does not change during a day.
pub proof fn law_moon_phase_counts_days(day: int, tick: int)
    requires
        day >= 0,
        0 <= tick < 24000,
    ensures
        phase_of(24000 * day + tick) == day % 8,
{
    assert((24000 * day + tick) / 24000 == day);
}

/// The moon is full in its first phase, dark in its fifth, and loses or gains a quarter
/// with each phase between.
pub proof fn law_moon_wanes_and_waxes(phase: int)
    requires
        0 <= phase < 8,
    ensures
        MOON_BRIGHTNESS_PER_PHASE[phase] == (if phase <= 4 {
            4 - phase
        } else {
            phase - 4
        }),
{
}

/// The time of day is that of the clock, which a whole day leaves as it is and which
/// runs on by its rate between ticks.
pub proof fn law_time_of_day_runs_on(sky: SkyState, later: SkyState)
    requires
        later.day_time == sky.day_time + 24000,
        later.clock_partial_tick == sky.clock_partial_tick,
        later.clock_rate == sky.clock_rate,
        later.partial_tick == sky.partial_tick,
    ensures
        0 <= sky.time_of_day() < 24_000_000_000_000_000,
        later.time_of_day() == sky.time_of_day(),
        sky.time_of_day() == ((SkyState { partial_tick: 0, ..sky }).time_of_day()
            + sky.partial_tick * sky.clock_rate) % 24_000_000_000_000_000,
        sky.clock() < 24_000_000_000 && sky.partial_tick == 0 ==> sky.time_of_day()
            == 1_000_000 * sky.clock(),
{
    let still = SkyState { partial_tick: 0, ..sky };
    let base = (sky.day_time % 24000) * 1_000_000_000_000 + sky.clock_partial_tick * 1_000_000;
    let ahead = sky.partial_tick * sky.clock_rate;
    assert(0 * sky.clock_rate == 0);
    assert(still.time_of_day() == base % 24_000_000_000_000_000);
    assert((base + ahead) % 24_000_000_000_000_000 == (base % 24_000_000_000_000_000 + ahead)
        % 24_000_000_000_000_000);
}

/// A stretch of a cyclic timeline begins at one keyframe and ends at the next. The time
/// lies in it, as far from its beginning as it says.
pub proof fn law_segments_hold_their_time(ticks: Seq<u64>, t: int, period: int, s: Segment, k: int)
    requires
        keyframes_ok(ticks, period),
        0 <= t < period,
        holds_time(ticks, t, period, s),
        0 <= k < ticks.len(),
    ensures
        ({
            let start = ticks[s.from as int];
            &&& 0 <= s.elapsed < s.span
            &&& start + s.elapsed == t || start + s.elapsed == t + period
            &&& start + s.span == ticks[s.to as int] || start + s.span == ticks[s.to as int]
                + period
            &&& start < ticks[k] ==> ticks[k] >= start + s.span
            &&& ticks[k] + period >= start + s.span || ticks[k] <= start
        }),
{
    if s.to > 0 {
        if k > s.to {
            assert(ticks[s.to as int] < ticks[k]);
        } else if k < s.from {
            assert(ticks[k] < ticks[s.from as int]);
        }
    } else {
        if k > 0 {
            assert(ticks[0] < ticks[k]);
        }
        if k < ticks.len() - 1 {
            assert(ticks[k] < ticks[ticks.len() - 1]);
        }
    }
}

/// Between two keyframes a value goes evenly from the one to the other: all of the
/// first at its beginning, the second at its end, and the same step for each part of
/// the way.
pub proof fn law_keyframes_blend_evenly(a: int, b: int, s: Segment)
    requires
        s.elapsed < s.span,
    ensures
        s.elapsed == 0 ==> blended(a, b, s) == a * s.span,
        blended(a, b, s) - a * s.span == (b - a) * s.elapsed,
{
    assert(a * (s.span - s.elapsed) + b * s.elapsed - a * s.span == (b - a) * s.elapsed)
        by (nonlinear_arith);
    if s.elapsed == 0 {
        assert((b - a) * 0 == 0);
    }
}

/// Whatever the weather, no stars show by day; all night they stand at half their
/// brightness.
pub proof fn law_stars_shine_by_night(t: int, s: Segment)
    requires
        0 <= t < DAY,
        holds_time(fine_ticks(STAR_TICKS@), t, DAY as int, s),
    ensures
        ({
            let brightness = blended(
                STAR_BRIGHTNESS@[s.from as int] as int,
                STAR_BRIGHTNESS@[s.to as int] as int,
                s,
            );
            &&& 627_000_000_000_000 <= t < 11_373_000_000_000_000 ==> brightness == 0
            &&& 13_228_000_000_000_000 <= t < 22_772_000_000_000_000 ==> brightness == 500 * s.span
        }),
{
    lemma_star_ticks();
    lemma_keyframes(STAR_TICKS@);
    let ticks = fine_ticks(STAR_TICKS@);
    assert(ticks[1] == 627_000_000_000_000 && ticks[2] == 11_373_000_000_000_000 && ticks[7]
        == 13_228_000_000_000_000 && ticks[8] == 22_772_000_000_000_000);
    if ticks[1] <= t < ticks[2] {
        let held = Segment {
            from: 1,
            to: 2,
            elapsed: (t - ticks[1]) as u64,
            span: (ticks[2] - ticks[1]) as u64,
        };
        law_segment_is_unique(ticks, t, DAY as int, s, held);
        law_keyframes_blend_evenly(0, 0, s);
    }
    if ticks[7] <= t < ticks[8] {
        let held = Segment {
            from: 7,
            to: 8,
            elapsed: (t - ticks[7]) as u64,
            span: (ticks[8] - ticks[7]) as u64,
        };
        law_segment_is_unique(ticks, t, DAY as int, s, held);
        law_keyframes_blend_evenly(500, 500, s);
    }
}

/// How far to the front a shape of the sky stands.
pub open spec fn sky_rank(mode: SkyMode) -> int {
    match mode {
        SkyMode::Disc => 0,
        SkyMode::Sunrise => 1,
        SkyMode::Sun => 2,
        SkyMode::Moon => 3,
        SkyMode::Stars => 4,
    }
}

/// The sky is drawn from the back to the front, each shape once: the disc, the glow of
/// sunrise where it shows, sun and moon, and the stars where they show. Seen from above
/// there is the disc alone.
pub proof fn law_sky_is_drawn_back_to_front(
    layout: SkyLayout,
    top_down: bool,
    sunrise: bool,
    stars: bool,
    phase: usize,
    mode: SkyMode,
    i: int,
    j: int,
)
    ensures
        ({
            let draws = sky_draws(layout, top_down, sunrise, stars, phase);
            let wanted = mode == SkyMode::Disc || (!top_down && (mode == SkyMode::Sunrise
                ==> sunrise) && (mode == SkyMode::Stars ==> stars));
            &&& wanted <==> exists|k: int| 0 <= k < draws.len() && (#[trigger] draws[k]).mode == mode
            &&& 0 <= i < j < draws.len() ==> sky_rank(draws[i].mode) < sky_rank(draws[j].mode)
        }),
{
    let draws = sky_draws(layout, top_down, sunrise, stars, phase);
    let glow = if sunrise {
        1int
    } else {
        0
    };
    assert(draws[0].mode == SkyMode::Disc);
    if !top_down {
        if sunrise {
            assert(draws[1].mode == SkyMode::Sunrise);
        }
        assert(draws[1 + glow].mode == SkyMode::Sun);
        assert(draws[2 + glow].mode == SkyMode::Moon);
        if stars {
            assert(draws[3 + glow].mode == SkyMode::Stars);
        }
    }
}

/// Each shape of the sky is drawn from its own vertices. Sun, moon and stars are added
/// to what is behind them, and the moon shows the phase of the day.
pub proof fn law_sky_shapes_are_their_own(
    layout: SkyLayout,
    top_down: bool,
    sunrise: bool,
    stars: bool,
    phase: usize,
    i: int,
)
    requires
        0 <= i < sky_draws(layout, top_down, sunrise, stars, phase).len(),
    ensures
        ({
            let draw = sky_draws(layout, top_down, sunrise, stars, phase)[i];
            &&& draw.overlay == (draw.mode == SkyMode::Sun || draw.mode == SkyMode::Moon || draw.mode
                == SkyMode::Stars)
            &&& draw.mode == SkyMode::Sun ==> draw.moon is None
            &&& draw.mode == SkyMode::Moon ==> draw.moon == Some(phase)
            &&& (draw.first_vertex, draw.vertex_count) == (match draw.mode {
                SkyMode::Disc => (layout.top_disc_offset, layout.top_disc_count),
                SkyMode::Sunrise => (layout.sunrise_offset, layout.sunrise_count),
                SkyMode::Sun => (layout.sun_offset, 6),
                SkyMode::Moon => (layout.moon_offset, 6),
                SkyMode::Stars => (layout.star_offset, layout.star_count),
            })
        }),
{
}

/// A running clock moves on by its rate with every tick, losing nothing to rounding, as
/// long as the day counter does not wrap; one that stands keeps everything as it is. A
/// tick changes nothing but the clock.
pub proof fn law_ticks_move_the_clock(sky: SkyState)
    requires
        sky.wf(),
    ensures
        ({
            let after = sky.after_tick();
            &&& after.wf()
            &&& sky.clock_id is None ==> after == sky
            &&& sky.clock_id is Some && sky.clock() + sky.clock_rate < 1_000_000
                * 0x1_0000_0000_0000_0000 ==> after.clock() == sky.clock() + sky.clock_rate
            &&& after.game_time == sky.game_time
            &&& after.rain_level == sky.rain_level
            &&& after.thunder_level == sky.thunder_level
            &&& after.clock_id == sky.clock_id
            &&& after.clock_rate == sky.clock_rate
            &&& after.last_network_clock == sky.last_network_clock
            &&& after.partial_tick == sky.partial_tick
        }),
{
}

/// A clock the server sends is taken over whole: its ticks, the part of a tick that its
/// fraction leaves over, its rate, and all of it as it was sent. One with a negative rate,
/// or without a finite fraction or rate, changes nothing; nor does any the weather.
pub proof fn law_sent_clocks_are_taken_over(
    sky: SkyState,
    id: u32,
    total_ticks: u64,
    fraction: i64,
    rate: i64,
)
    ensures
        ({
            let after = sky.after_update(id, total_ticks, Some(fraction), Some(rate));
            &&& rate < 0 ==> after == sky
            &&& rate >= 0 ==> {
                &&& after.clock_id == Some(id)
                &&& after.day_time == total_ticks
                &&& after.clock_rate == rate
                &&& after.clock_partial_tick < 1_000_000
                &&& (fraction - after.clock_partial_tick) % 1_000_000 == 0
                &&& after.last_network_clock == Some((id, total_ticks, fraction, rate))
            }
            &&& after.rain_level == sky.rain_level && after.thunder_level == sky.thunder_level
            &&& after.game_time == sky.game_time && after.partial_tick == sky.partial_tick
            &&& sky.after_update(id, total_ticks, None, Some(rate)) == sky
            &&& sky.after_update(id, total_ticks, Some(fraction), None) == sky
        }),
{
}

/// Rain and thunder are held between none and all, and keep their level between.
pub proof fn law_levels_are_held(level: int, other: int)
    requires
        level <= other,
    ensures
        0 <= clamped(level) <= clamped(other) <= 1_000_000,
        0 <= level <= 1_000_000 ==> clamped(level) == level,
{
}

/// No two shapes of the sky share a number. The four that are always there are counted
/// from the disc on, and the glow of sunrise has the fifth number after it.
pub proof fn law_sky_modes_are_distinct(a: SkyMode, b: SkyMode)
    ensures
        number_of(a) == number_of(b) ==> a == b,
        a == SkyMode::Disc <==> number_of(a) == 0,
        a == SkyMode::Stars <==> number_of(a) == 1,
        a == SkyMode::Sun <==> number_of(a) == 2,
        a == SkyMode::Moon <==> number_of(a) == 3,
        a == SkyMode::Sunrise <==> number_of(a) == 5,
{
}

} // verus!
