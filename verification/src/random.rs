//! The 48-bit linear congruential generator of `java.util.Random`.
use vstd::prelude::*;

verus! {

pub const MULTIPLIER: u64 = 25_214_903_917;

pub const INCREMENT: u64 = 11;

/// Keeps the low 48 bits.
pub const MASK: u64 = 281_474_976_710_655;

/// One step of the generator on the 48-bit state.
pub open spec fn lcg(seed: int) -> int {
    (25_214_903_917 * seed + 11) % 281_474_976_710_656
}

/// `n` steps of the generator.
pub open spec fn lcg_iter(seed: int, n: nat) -> int
    decreases n,
{
    if n == 0 {
        seed
    } else {
        lcg(lcg_iter(seed, (n - 1) as nat))
    }
}

/// The 31 high bits of a state: what one bounded draw looks at.
pub open spec fn draw31(seed: int) -> int {
    seed / 131_072
}

/// The state a user seed starts from.
pub open spec fn scrambled(seed: u64) -> u64 {
    (seed ^ 25_214_903_917u64) & 281_474_976_710_655u64
}

/// Whether a draw is kept: draws in the last, incomplete block of `bound`
/// values are thrown away so that every result is equally likely.
pub open spec fn accepted(draw: int, bound: int) -> bool {
    draw - draw % bound + (bound - 1) < 0x8000_0000
}

/// `n` is the number of draws a bounded call takes from `seed`: the first
/// accepted one ends it.
pub open spec fn draws_taken(seed: int, bound: int, n: nat) -> bool {
    &&& n >= 1
    &&& accepted(draw31(lcg_iter(seed, n)), bound)
    &&& forall|j: nat| 1 <= j < n ==> !accepted(draw31(#[trigger] lcg_iter(seed, j)), bound)
}

/// The bound is a power of two.
pub open spec fn single_bit(bound: u32) -> bool {
    bound & (bound - 1) as u32 == 0
}

fn step_state(seed: u64) -> (next: u64)
    requires
        seed <= MASK,
    ensures
        next == lcg(seed as int),
        next <= MASK,
{
    let product: u64 = seed.wrapping_mul(MULTIPLIER);
    let sum: u64 = product.wrapping_add(INCREMENT);
    let next: u64 = sum & MASK;
    proof {
        let m = 281_474_976_710_656int;
        let big = 18_446_744_073_709_551_616int;
        let exact = 25_214_903_917 * (seed as int) + 11;
        assert(sum & 281_474_976_710_655u64 == sum % 281_474_976_710_656u64) by (bit_vector);
        assert(product == (seed as int * 25_214_903_917) % big);
        assert(seed as int * 25_214_903_917 == 25_214_903_917 * (seed as int)) by (nonlinear_arith);
        vstd::arithmetic::div_mod::lemma_mod_mod(25_214_903_917 * (seed as int), m, 65_536);
        assert(m * 65_536 == big);
        assert(product as int % m == (25_214_903_917 * (seed as int)) % m);
        assert(sum as int % m == (product as int + 11) % m) by {
            if product as int + 11 >= big {
                assert(sum as int == product as int + 11 - big);
                vstd::arithmetic::div_mod::lemma_mod_multiples_vanish(-65_536, product as int + 11, m);
                assert(m * -65_536 == -big);
            }
        }
        vstd::arithmetic::div_mod::lemma_add_mod_noop(product as int, 11, m);
        vstd::arithmetic::div_mod::lemma_add_mod_noop(25_214_903_917 * (seed as int), 11, m);
        assert(next as int == exact % m);
    }
    next
}

/// Splitting a run of steps.
pub proof fn lemma_iter_adds(seed: int, a: nat, b: nat)
    ensures
        lcg_iter(seed, a + b) == lcg_iter(lcg_iter(seed, a), b),
    decreases b,
{
    if b > 0 {
        lemma_iter_adds(seed, a, (b - 1) as nat);
        assert((a + b - 1) as nat == a + (b - 1) as nat);
    }
}

pub proof fn lemma_iter_in_range(seed: int, n: nat)
    requires
        0 <= seed < 281_474_976_710_656,
    ensures
        0 <= lcg_iter(seed, n) < 281_474_976_710_656,
    decreases n,
{
    if n > 0 {
        lemma_iter_in_range(seed, (n - 1) as nat);
    }
}

// Doubling the step count squares the affine map: after 2^k steps the state is
// `block_mul(k) * seed + block_add(k)`, with `block_mul(k)` one more than a
// multiple of 2^(k+2) and `block_add(k)` an odd multiple of 2^k.
spec fn block_mul(k: nat) -> int
    decreases k,
{
    if k == 0 {
        25_214_903_917
    } else {
        block_mul((k - 1) as nat) * block_mul((k - 1) as nat)
    }
}

spec fn block_add(k: nat) -> int
    decreases k,
{
    if k == 0 {
        11
    } else {
        block_mul((k - 1) as nat) * block_add((k - 1) as nat) + block_add((k - 1) as nat)
    }
}

spec fn mul_witness(k: nat) -> int
    decreases k,
{
    if k == 0 {
        6_303_725_979
    } else {
        let w = mul_witness((k - 1) as nat);
        w + vstd::arithmetic::power2::pow2(k) * (w * w)
    }
}

spec fn add_witness(k: nat) -> int
    decreases k,
{
    if k == 0 {
        5
    } else {
        let w = mul_witness((k - 1) as nat);
        let c = add_witness((k - 1) as nat);
        c + vstd::arithmetic::power2::pow2((k - 1) as nat) * w * (2 * c + 1)
    }
}

proof fn lemma_witnesses(k: nat)
    ensures
        block_mul(k) == 1 + 4 * vstd::arithmetic::power2::pow2(k) * mul_witness(k),
        block_add(k) == vstd::arithmetic::power2::pow2(k) * (2 * add_witness(k) + 1),
    decreases k,
{
    vstd::arithmetic::power2::lemma2_to64();
    if k > 0 {
        let j = (k - 1) as nat;
        lemma_witnesses(j);
        vstd::arithmetic::power2::lemma_pow2_unfold(k);
        let p = vstd::arithmetic::power2::pow2(j) as int;
        let q = vstd::arithmetic::power2::pow2(k) as int;
        let w = mul_witness(j);
        let c = add_witness(j);
        assert(q == 2 * p);
        assert((1 + 4 * p * w) * (1 + 4 * p * w) == 1 + 4 * q * (w + q * (w * w)))
            by (nonlinear_arith)
            requires
                q == 2 * p,
        ;
        assert((1 + 4 * p * w) * (p * (2 * c + 1)) + p * (2 * c + 1) == q * (2 * (c + p * w * (2
            * c + 1)) + 1)) by (nonlinear_arith)
            requires
                q == 2 * p,
        ;
    }
}

proof fn lemma_block(k: nat, seed: int)
    requires
        0 <= seed < 281_474_976_710_656,
    ensures
        lcg_iter(seed, vstd::arithmetic::power2::pow2(k)) == (block_mul(k) * seed + block_add(k))
            % 281_474_976_710_656,
    decreases k,
{
    let m = 281_474_976_710_656int;
    vstd::arithmetic::power2::lemma2_to64();
    if k == 0 {
        assert(lcg_iter(seed, 1) == lcg(lcg_iter(seed, 0)));
    } else {
        let j = (k - 1) as nat;
        let p = vstd::arithmetic::power2::pow2(j);
        vstd::arithmetic::power2::lemma_pow2_unfold(k);
        let mid = lcg_iter(seed, p);
        lemma_iter_in_range(seed, p);
        lemma_iter_adds(seed, p, p);
        lemma_block(j, seed);
        lemma_block(j, mid);
        let a = block_mul(j);
        let c = block_add(j);
        let inner = a * seed + c;
        assert(mid == inner % m);
        vstd::arithmetic::div_mod::lemma_mul_mod_noop_right(a, inner, m);
        vstd::arithmetic::div_mod::lemma_add_mod_noop(a * mid, c, m);
        vstd::arithmetic::div_mod::lemma_add_mod_noop(a * inner, c, m);
        assert((a * mid + c) % m == (a * inner + c) % m);
        assert(a * inner + c == (a * a) * seed + (a * c + c)) by (nonlinear_arith)
            requires
                inner == a * seed + c,
        ;
    }
}

/// Where a state and a target agree in their low `k` bits and no more, a block of 2^k
/// steps makes them agree in one bit more.
proof fn lemma_block_joins_bit(k: nat, seed: int, target: int)
    requires
        k < 48,
        0 <= seed < 281_474_976_710_656,
        (seed - target) % (vstd::arithmetic::power2::pow2(k) as int) == 0,
        (seed - target) % (vstd::arithmetic::power2::pow2(k + 1) as int) != 0,
    ensures
        (lcg_iter(seed, vstd::arithmetic::power2::pow2(k)) - target) % (
        vstd::arithmetic::power2::pow2(k + 1) as int) == 0,
{
    let m = 281_474_976_710_656int;
    let p = vstd::arithmetic::power2::pow2(k) as int;
    let q = vstd::arithmetic::power2::pow2(k + 1) as int;
    vstd::arithmetic::power2::lemma_pow2_pos(k);
    vstd::arithmetic::power2::lemma_pow2_unfold(k + 1);
    assert(q == 2 * p);
    let s = (seed - target) / p;
    vstd::arithmetic::div_mod::lemma_fundamental_div_mod(seed - target, p);
    assert(seed - target == p * s);
    let h = s / 2;
    if s % 2 == 0 {
        assert(p * s == h * q) by (nonlinear_arith)
            requires
                s == 2 * h,
                q == 2 * p,
        ;
        vstd::arithmetic::div_mod::lemma_mod_multiples_basic(h, q);
        assert(false);
    }
    assert(s == 2 * h + 1);
    lemma_block(k, seed);
    lemma_witnesses(k);
    let w = mul_witness(k);
    let c = add_witness(k);
    let total = block_mul(k) * seed + block_add(k);
    let half = h + c + 1 + 2 * p * w * (2 * h + 1) + 2 * w * target;
    let e = p * (2 * h + 1);
    let f = 4 * p * w;
    assert((1 + f) * (target + e) == target + e + f * target + f * e) by (nonlinear_arith);
    assert(f * target == q * (2 * w * target)) by (nonlinear_arith)
        requires
            f == 4 * p * w,
            q == 2 * p,
    ;
    assert(f * e == q * (2 * p * w * (2 * h + 1))) by (nonlinear_arith)
        requires
            f == 4 * p * w,
            e == p * (2 * h + 1),
            q == 2 * p,
    ;
    assert(e + p * (2 * c + 1) == q * (h + c + 1)) by (nonlinear_arith)
        requires
            e == p * (2 * h + 1),
            q == 2 * p,
    ;
    let g = 2 * p * w * (2 * h + 1);
    let i = 2 * w * target;
    assert(q * (h + c + 1) + q * g + q * i == half * q) by (nonlinear_arith)
        requires
            half == h + c + 1 + g + i,
    ;
    assert(total - target == half * q);
    vstd::arithmetic::power2::lemma_pow2_adds(k + 1, (47 - k) as nat);
    let r = vstd::arithmetic::power2::pow2((47 - k) as nat) as int;
    vstd::arithmetic::power2::lemma_pow2_pos((47 - k) as nat);
    vstd::arithmetic::power2::lemma2_to64_rest();
    assert(k + 1 + (47 - k) as nat == 48);
    assert(q * r == m);
    vstd::arithmetic::div_mod::lemma_fundamental_div_mod(total, m);
    let turns = total / m;
    let next = total % m;
    assert(next - target == (half - r * turns) * q) by (nonlinear_arith)
        requires
            total == m * turns + next,
            m == q * r,
            total - target == half * q,
    ;
    vstd::arithmetic::div_mod::lemma_mod_multiples_basic(half - r * turns, q);
}

/// From a state that agrees with a target in its low `k` bits, blocks of at least 2^k
/// steps lead to the target.
proof fn lemma_state_from(k: nat, seed: int, target: int) -> (n: nat)
    requires
        k <= 48,
        0 <= seed < 281_474_976_710_656,
        0 <= target < 281_474_976_710_656,
        (seed - target) % (vstd::arithmetic::power2::pow2(k) as int) == 0,
    ensures
        lcg_iter(seed, n) == target,
        k >= 2 ==> n % 4 == 0,
    decreases 48 - k,
{
    if k == 48 {
        vstd::arithmetic::power2::lemma2_to64_rest();
        assert(seed == target);
        0
    } else if (seed - target) % (vstd::arithmetic::power2::pow2(k + 1) as int) == 0 {
        lemma_state_from(k + 1, seed, target)
    } else {
        let block = vstd::arithmetic::power2::pow2(k);
        lemma_block_joins_bit(k, seed, target);
        lemma_iter_in_range(seed, block);
        let rest = lemma_state_from(k + 1, lcg_iter(seed, block), target);
        lemma_iter_adds(seed, block, rest);
        if k >= 2 {
            vstd::arithmetic::power2::lemma_pow2_adds(2, (k - 2) as nat);
            vstd::arithmetic::power2::lemma2_to64();
            assert(block == 4 * vstd::arithmetic::power2::pow2((k - 2) as nat));
        }
        block + rest
    }
}

/// The generator goes through all its states: from each it reaches every other.
pub proof fn law_every_state_is_reached(seed: int, target: int) -> (n: nat)
    requires
        0 <= seed < 281_474_976_710_656,
        0 <= target < 281_474_976_710_656,
    ensures
        n >= 1,
        lcg_iter(seed, n) == target,
{
    vstd::arithmetic::power2::lemma2_to64();
    lemma_iter_in_range(seed, 1);
    let rest = lemma_state_from(0, lcg_iter(seed, 1), target);
    lemma_iter_adds(seed, 1, rest);
    1 + rest
}

/// A bounded call takes finitely many draws, whatever the bound.
pub proof fn law_bounded_draw_ends(seed: int, bound: int) -> (n: nat)
    requires
        0 <= seed < 281_474_976_710_656,
        0 < bound <= 0x7fff_ffff,
    ensures
        draws_taken(seed, bound, n),
{
    let last = law_every_state_is_reached(seed, 0);
    lemma_first_accepted(seed, bound, last)
}

proof fn lemma_first_accepted(seed: int, bound: int, n: nat) -> (first: nat)
    requires
        0 < bound <= 0x7fff_ffff,
        n >= 1,
        lcg_iter(seed, n) == 0 || accepted(draw31(lcg_iter(seed, n)), bound),
    ensures
        draws_taken(seed, bound, first),
    decreases n,
{
    assert(accepted(draw31(lcg_iter(seed, n)), bound)) by {
        if lcg_iter(seed, n) == 0 {
            assert(0int % bound == 0) by (nonlinear_arith)
                requires
                    bound > 0,
            ;
        }
    }
    if exists|j: nat| 1 <= j < n && accepted(draw31(#[trigger] lcg_iter(seed, j)), bound) {
        let j = choose|j: nat| 1 <= j < n && accepted(draw31(#[trigger] lcg_iter(seed, j)), bound);
        lemma_first_accepted(seed, bound, j)
    } else {
        n
    }
}

/// No two counts fit one call.
proof fn lemma_draws_unique(seed: int, bound: int, a: nat, b: nat)
    requires
        draws_taken(seed, bound, a),
        draws_taken(seed, bound, b),
    ensures
        a == b,
{
    if a < b {
        assert(!accepted(draw31(lcg_iter(seed, a)), bound));
    }
    if b < a {
        assert(!accepted(draw31(lcg_iter(seed, b)), bound));
    }
}

/// What a bounded call returns, and the state after it. A power of two takes the high
/// bits of one draw; another bound takes draws until one is accepted.
pub open spec fn bounded(seed: int, bound: int) -> (int, int) {
    if single_bit(bound as u32) {
        ((bound * draw31(lcg(seed))) / 0x8000_0000, lcg(seed))
    } else {
        let n = choose|n: nat| draws_taken(seed, bound, n);
        (draw31(lcg_iter(seed, n)) % bound, lcg_iter(seed, n))
    }
}

/// A bounded draw is below its bound.
pub proof fn lemma_bounded_in_range(seed: int, bound: int)
    requires
        0 < bound <= i32::MAX,
    ensures
        0 <= bounded(seed, bound).0 < bound,
{
    if single_bit(bound as u32) {
        let high = draw31(lcg(seed));
        assert(0 <= high < 0x8000_0000);
        assert(0 <= bound * high < bound * 0x8000_0000) by (nonlinear_arith)
            requires
                0 <= high < 0x8000_0000,
                0 < bound,
        ;
    } else {
        let n = choose|n: nat| draws_taken(seed, bound, n);
        vstd::arithmetic::div_mod::lemma_mod_bound(draw31(lcg_iter(seed, n)), bound);
    }
}

/// What a bounded call makes of one draw.
fn reduce(draw: u32, bound: u32) -> (value: Option<u32>)
    requires
        0 < bound <= i32::MAX,
        draw < 0x8000_0000,
    ensures
        value is Some <==> accepted(draw as int, bound as int),
        value is Some ==> value->0 == draw as int % bound as int && value->0 < bound,
        draw == 0 ==> value is Some,
{
    let rest: u32 = draw % bound;
    proof {
        vstd::arithmetic::div_mod::lemma_mod_decreases(draw as nat, bound as nat);
    }
    if draw - rest + (bound - 1) < 0x8000_0000 {
        Some(rest)
    } else {
        None
    }
}

/// Draws an obfuscated character's replacement.
pub struct ObfuscationRng {
    pub seed: u64,
}

impl ObfuscationRng {
    /// The state fits 48 bits.
    pub open spec fn wf(self) -> bool {
        self.seed <= MASK
    }

    pub fn new(seed: u64) -> (rng: Self)
        ensures
            rng.wf(),
            rng.seed == scrambled(seed),
    {
        let mixed: u64 = (seed ^ MULTIPLIER) & MASK;
        assert(mixed <= 281_474_976_710_655u64) by (bit_vector)
            requires
                mixed == (seed ^ 25_214_903_917u64) & 281_474_976_710_655u64,
        ;
        ObfuscationRng { seed: mixed }
    }

    /// Steps the state and returns its `bits` high bits.
    pub fn next_bits(&mut self, bits: u32) -> (value: u32)
        requires
            old(self).wf(),
            1 <= bits <= 32,
        ensures
            final(self).wf(),
            final(self).seed == lcg(old(self).seed as int),
            value == lcg(old(self).seed as int) / (vstd::arithmetic::power2::pow2((48 - bits) as nat) as int),
            value < vstd::arithmetic::power2::pow2(bits as nat),
    {
        let state: u64 = step_state(self.seed);
        self.seed = state;
        let shift: u64 = 48 - bits as u64;
        let high: u64 = state >> shift;
        proof {
            vstd::bits::lemma_u64_shr_is_div(state, shift);
            let d = vstd::arithmetic::power2::pow2((48 - bits) as nat) as int;
            vstd::arithmetic::power2::lemma_pow2_pos((48 - bits) as nat);
            vstd::arithmetic::power2::lemma_pow2_adds(bits as nat, (48 - bits) as nat);
            vstd::arithmetic::power2::lemma2_to64_rest();
            vstd::arithmetic::power2::lemma2_to64();
            assert(bits as nat + (48 - bits) as nat == 48);
            let top = vstd::arithmetic::power2::pow2(bits as nat) as int;
            vstd::arithmetic::div_mod::lemma_div_by_multiple_is_strongly_ordered(
                state as int,
                top * d,
                top,
                d,
            );
            vstd::arithmetic::div_mod::lemma_div_multiples_vanish(top, d);
            assert(top * d == d * top) by (nonlinear_arith);
            assert(high < top);
            if bits < 32 {
                vstd::arithmetic::power2::lemma_pow2_strictly_increases(bits as nat, 32);
            }
        }
        high as u32
    }

    /// Steps the state and returns its 31 high bits.
    fn draw(&mut self) -> (value: u32)
        requires
            old(self).wf(),
        ensures
            final(self).wf(),
            final(self).seed == lcg(old(self).seed as int),
            value == draw31(lcg(old(self).seed as int)),
            value < 0x8000_0000,
    {
        proof {
            vstd::arithmetic::power2::lemma2_to64();
        }
        self.next_bits(31)
    }

    /// A uniformly distributed value below `bound`.
    pub fn next_int(&mut self, bound: usize) -> (value: usize)
        requires
            old(self).wf(),
            0 < bound <= i32::MAX,
        ensures
            final(self).wf(),
            value < bound,
            value == bounded(old(self).seed as int, bound as int).0,
            final(self).seed == bounded(old(self).seed as int, bound as int).1,
            !single_bit(bound as u32) ==> exists|n: nat| #[trigger]
                draws_taken(old(self).seed as int, bound as int, n),
    {
        let limit: u32 = bound as u32;
        let ghost start = self.seed as int;
        if limit & (limit - 1) == 0 {
            let high: u32 = self.draw();
            assert(limit * high < limit * 0x8000_0000) by (nonlinear_arith)
                requires
                    high < 0x8000_0000,
                    limit > 0,
            ;
            let product: u64 = limit as u64 * high as u64;
            assert(limit as u64 * high as u64 == bound * high);
            assert(product >> 31u64 == product / 0x8000_0000u64) by (bit_vector);
            return (product >> 31u64) as usize;
        }
        let ghost last = law_every_state_is_reached(start, 0);
        let ghost mut taken: nat = 0;
        loop
            invariant
                self.wf(),
                0 < limit <= i32::MAX,
                limit == bound,
                taken < last,
                lcg_iter(start, last) == 0,
                self.seed == lcg_iter(start, taken),
                forall|j: nat|
                    1 <= j <= taken ==> !accepted(draw31(#[trigger] lcg_iter(start, j)), limit as int),
                !single_bit(limit),
                start == old(self).seed as int,
            decreases last - taken,
        {
            let high: u32 = self.draw();
            assert(lcg_iter(start, taken + 1) == lcg(lcg_iter(start, taken)));
            assert(high == draw31(lcg_iter(start, taken + 1)));
            let kept = reduce(high, limit);
            proof {
                taken = taken + 1;
            }
            if let Some(value) = kept {
                assert(draws_taken(start, limit as int, taken));
                proof {
                    let n = choose|n: nat| draws_taken(start, bound as int, n);
                    lemma_draws_unique(start, bound as int, n, taken);
                }
                return value as usize;
            }
            assert(draw31(0) == 0);
            assert(taken != last);
        }
    }
}

/// What a fraction draws from a state: its numerator over 2^53.
pub open spec fn fraction_at(seed: int) -> int {
    (lcg(seed) / 0x40_0000) * 0x800_0000 + lcg(lcg(seed)) / 0x20_0000
}

/// The point a try for normally distributed values draws: two fractions, moved to the
/// square from -1 to 1, in parts of 2^52.
pub open spec fn point_at(seed: int) -> (int, int) {
    (
        fraction_at(seed) - 0x10_0000_0000_0000,
        fraction_at(lcg(lcg(seed))) - 0x10_0000_0000_0000,
    )
}

/// Whether a point lies inside the unit circle, and not in its middle.
pub open spec fn in_circle(point: (int, int)) -> bool {
    0 < point.0 * point.0 + point.1 * point.1 < 0x100_0000_0000_0000_0000_0000_0000
}

/// The number of points thrown away before one is kept.
pub open spec fn points_missed(seed: int, n: nat) -> bool {
    &&& in_circle(point_at(lcg_iter(seed, 4 * n)))
    &&& forall|j: nat| j < n ==> !in_circle(#[trigger] point_at(lcg_iter(seed, 4 * j)))
}

/// A state with given low bits whose point is kept.
spec fn kept_state(low: int) -> int {
    if low == 0 {
        56
    } else if low == 1 {
        9
    } else if low == 2 {
        50
    } else {
        15
    }
}

proof fn lemma_inside(x: int, y: int)
    requires
        -4_500_000_000_000_000 <= x <= -4_400_000_000_000_000,
        -180_000_000_000_000 <= y <= 180_000_000_000_000 || x >= -4_464_000_000_000_000 && 0 <= y
            <= 590_000_000_000_000,
    ensures
        in_circle((x, y)),
{
    assert(0 < x * x <= 4_500_000_000_000_000 * 4_500_000_000_000_000) by (nonlinear_arith)
        requires
            -4_500_000_000_000_000 <= x <= -4_400_000_000_000_000,
    ;
    assert(0 <= y * y <= 590_000_000_000_000 * 590_000_000_000_000) by (nonlinear_arith)
        requires
            -590_000_000_000_000 <= y <= 590_000_000_000_000,
    ;
    if x >= -4_464_000_000_000_000 {
        assert(x * x <= 4_464_000_000_000_000 * 4_464_000_000_000_000) by (nonlinear_arith)
            requires
                -4_464_000_000_000_000 <= x <= -4_400_000_000_000_000,
        ;
    } else {
        assert(y * y <= 180_000_000_000_000 * 180_000_000_000_000) by (nonlinear_arith)
            requires
                -180_000_000_000_000 <= y <= 180_000_000_000_000,
        ;
    }
}

proof fn lemma_kept_state(low: int)
    requires
        0 <= low < 4,
    ensures
        in_circle(point_at(kept_state(low))),
        kept_state(low) % 4 == low,
{
    if low == 0 {
        assert(lcg(56) == 1_412_034_619_363);
        assert(lcg(1_412_034_619_363) == 263_230_109_789_618);
        assert(lcg(263_230_109_789_618) == 154_007_572_668_629);
        assert(lcg(154_007_572_668_629) == 88_762_033_477_820);
        assert(point_at(56) == (-4_458_414_432_632_759int, 424_642_653_574_187int));
        lemma_inside(-4_458_414_432_632_759, 424_642_653_574_187);
    } else if low == 1 {
        assert(lcg(9) == 226_934_135_264);
        assert(lcg(226_934_135_264) == 163_169_759_544_427);
        assert(lcg(163_169_759_544_427) == 145_165_493_683_098);
        assert(lcg(145_165_493_683_098) == 272_127_589_885_085);
        assert(point_at(9) == (-4_496_337_699_391_652int, 141_696_201_129_250int));
        lemma_inside(-4_496_337_699_391_652, 141_696_201_129_250);
    } else if low == 2 {
        assert(lcg(50) == 1_260_745_195_861);
        assert(lcg(1_260_745_195_861) == 154_635_179_388_732);
        assert(lcg(154_635_179_388_732) == 158_867_625_919_639);
        assert(lcg(158_867_625_919_639) == 34_315_621_588_566);
        assert(point_at(50) == (-4_463_255_717_863_817int, 580_164_332_924_371int));
        lemma_inside(-4_463_255_717_863_817, 580_164_332_924_371);
    } else {
        assert(lcg(15) == 378_223_558_766);
        assert(lcg(378_223_558_766) == 271_764_689_945_313);
        assert(lcg(271_764_689_945_313) == 140_305_440_432_088);
        assert(lcg(140_305_440_432_088) == 45_099_025_063_683);
        assert(point_at(15) == (-4_491_496_414_160_594int, -13_825_612_438_662int));
        lemma_inside(-4_491_496_414_160_594, -13_825_612_438_662);
    }
}

proof fn lemma_first_kept(seed: int, n: nat) -> (first: nat)
    requires
        in_circle(point_at(lcg_iter(seed, 4 * n))),
    ensures
        points_missed(seed, first),
        first <= n,
    decreases n,
{
    if exists|j: nat| j < n && in_circle(#[trigger] point_at(lcg_iter(seed, 4 * j))) {
        let j = choose|j: nat| j < n && in_circle(#[trigger] point_at(lcg_iter(seed, 4 * j)));
        lemma_first_kept(seed, j)
    } else {
        n
    }
}

/// From every state a point is kept sooner or later.
pub proof fn law_a_point_is_kept(seed: int) -> (n: nat)
    requires
        0 <= seed < 281_474_976_710_656,
    ensures
        points_missed(seed, n),
{
    let target = kept_state(seed % 4);
    lemma_kept_state(seed % 4);
    vstd::arithmetic::power2::lemma2_to64();
    let steps = lemma_state_from(2, seed, target);
    let tries = steps / 4;
    assert(steps == 4 * tries);
    lemma_first_kept(seed, tries)
}

/// The generator behind star placement and rain columns.
pub struct JavaRandom {
    pub seed: u64,
}

impl JavaRandom {
    /// The state fits 48 bits.
    pub open spec fn wf(self) -> bool {
        self.seed <= MASK
    }

    pub fn new(seed: i64) -> (rng: Self)
        ensures
            rng.wf(),
            rng.seed == scrambled(seed as u64),
    {
        let inner = ObfuscationRng::new(seed as u64);
        JavaRandom { seed: inner.seed }
    }

    /// Steps the state and returns its `bits` high bits.
    pub fn next(&mut self, bits: u32) -> (value: i32)
        requires
            old(self).wf(),
            1 <= bits <= 31,
        ensures
            final(self).wf(),
            final(self).seed == lcg(old(self).seed as int),
            value == lcg(old(self).seed as int) / (vstd::arithmetic::power2::pow2((48 - bits) as nat) as int),
            0 <= value < vstd::arithmetic::power2::pow2(bits as nat),
    {
        let mut inner = ObfuscationRng { seed: self.seed };
        let high: u32 = inner.next_bits(bits);
        self.seed = inner.seed;
        proof {
            vstd::arithmetic::power2::lemma2_to64();
            if bits < 31 {
                vstd::arithmetic::power2::lemma_pow2_strictly_increases(bits as nat, 31);
            }
        }
        high as i32
    }

    /// Numerator over 2^24 of a uniform fraction.
    pub fn next_float(&mut self) -> (numerator: u32)
        requires
            old(self).wf(),
        ensures
            final(self).wf(),
            final(self).seed == lcg(old(self).seed as int),
            numerator == lcg(old(self).seed as int) / 0x100_0000,
            numerator < 0x100_0000,
    {
        proof {
            vstd::arithmetic::power2::lemma2_to64();
        }
        self.next(24) as u32
    }

    /// Numerator over 2^53 of a uniform fraction.
    pub fn next_double(&mut self) -> (numerator: u64)
        requires
            old(self).wf(),
        ensures
            final(self).wf(),
            final(self).seed == lcg(lcg(old(self).seed as int)),
            numerator == fraction_at(old(self).seed as int),
            numerator == (lcg(old(self).seed as int) / 0x40_0000) * 0x800_0000 + lcg(
                lcg(old(self).seed as int),
            ) / 0x20_0000,
            numerator < 0x20_0000_0000_0000,
    {
        proof {
            vstd::arithmetic::power2::lemma2_to64();
        }
        let hi: u64 = self.next(26) as u64;
        let lo: u64 = self.next(27) as u64;
        assert(hi << 27u64 == hi * 0x800_0000) by (bit_vector)
            requires
                hi < 0x400_0000,
        ;
        (hi << 27u64) + lo
    }

    /// A point inside the unit circle, in parts of 2^52, from which two normally
    /// distributed values are made.
    pub fn next_point(&mut self) -> (point: (i64, i64))
        requires
            old(self).wf(),
        ensures
            final(self).wf(),
            exists|n: nat| #[trigger]
                points_missed(old(self).seed as int, n) && final(self).seed == lcg_iter(
                    old(self).seed as int,
                    4 * n + 4,
                ) && (point.0 as int, point.1 as int) == point_at(
                    lcg_iter(old(self).seed as int, 4 * n),
                ),
    {
        let ghost start = self.seed as int;
        let ghost last = law_a_point_is_kept(start);
        let ghost mut missed: nat = 0;
        loop
            invariant
                self.wf(),
                points_missed(start, last),
                missed <= last,
                self.seed == lcg_iter(start, 4 * missed),
                forall|j: nat|
                    j < missed ==> !in_circle(#[trigger] point_at(lcg_iter(start, 4 * j))),
                start == old(self).seed as int,
            decreases last - missed,
        {
            let ghost here = self.seed as int;
            let x: i64 = self.next_double() as i64 - 0x10_0000_0000_0000;
            let y: i64 = self.next_double() as i64 - 0x10_0000_0000_0000;
            proof {
                assert((x as int, y as int) == point_at(here));
                assert(lcg_iter(here, 1) == lcg(lcg_iter(here, 0)));
                assert(lcg_iter(here, 2) == lcg(lcg_iter(here, 1)));
                assert(lcg_iter(here, 3) == lcg(lcg_iter(here, 2)));
                assert(lcg_iter(here, 4) == lcg(lcg_iter(here, 3)));
                lemma_iter_adds(start, 4 * missed, 4);
                assert(0 <= x * x <= 0x100_0000_0000_0000_0000_0000_0000 && 0 <= y * y
                    <= 0x100_0000_0000_0000_0000_0000_0000) by (nonlinear_arith)
                    requires
                        -0x10_0000_0000_0000 <= x <= 0x10_0000_0000_0000,
                        -0x10_0000_0000_0000 <= y <= 0x10_0000_0000_0000,
                ;
            }
            let square: i128 = x as i128 * x as i128 + y as i128 * y as i128;
            if 0 < square && square < 0x100_0000_0000_0000_0000_0000_0000 {
                assert(points_missed(start, missed));
                return (x, y);
            }
            proof {
                assert(!in_circle(point_at(lcg_iter(start, 4 * missed))));
                assert(missed < last);
                missed = missed + 1;
            }
        }
    }
}

/// A step of the generator adds eleven to a multiple of the state: from nothing it goes
/// to eleven, and from states one apart to states the multiplier apart, round the 48
/// bits.
pub proof fn law_steps_are_affine(seed: int)
    ensures
        0 <= lcg(seed) < 0x1_0000_0000_0000,
        lcg(0) == 11,
        (lcg(seed + 1) - lcg(seed) - 0x5_DEEC_E66D) % 0x1_0000_0000_0000 == 0,
{
}

/// A seed is mixed with the multiplier, which undoes itself, and its low 48 bits kept.
pub proof fn law_seeds_are_scrambled(seed: u64)
    ensures
        scrambled(seed) < 0x1_0000_0000_0000,
        (scrambled(seed) ^ 0x5_DEEC_E66D) == seed % 0x1_0000_0000_0000,
{
    assert(((seed ^ 25_214_903_917u64) & 281_474_976_710_655u64) < 0x1_0000_0000_0000u64)
        by (bit_vector);
    assert((((seed ^ 25_214_903_917u64) & 281_474_976_710_655u64) ^ 0x5_DEEC_E66Du64) == seed
        % 0x1_0000_0000_0000u64) by (bit_vector);
}

/// A fraction has the 26 highest bits of one state above the 27 highest of the next.
pub proof fn law_fractions_take_two_draws(seed: int)
    ensures
        0 <= fraction_at(seed) < 0x20_0000_0000_0000,
        fraction_at(seed) / 0x800_0000 == lcg(seed) / 0x40_0000,
        fraction_at(seed) % 0x800_0000 == lcg(lcg(seed)) / 0x20_0000,
{
}

/// A point takes two fractions one after the other, the same distance either side of
/// the middle, and is kept if it lies inside the circle but not in its very middle.
pub proof fn law_points_take_two_fractions(seed: int)
    ensures
        point_at(seed).0 + 0x10_0000_0000_0000 == fraction_at(seed),
        point_at(seed).1 + 0x10_0000_0000_0000 == fraction_at(lcg(lcg(seed))),
        in_circle(point_at(seed)) <==> (point_at(seed).0 != 0 || point_at(seed).1 != 0)
            && point_at(seed).0 * point_at(seed).0 + point_at(seed).1 * point_at(seed).1
            < 0x10_0000_0000_0000 * 0x10_0000_0000_0000,
{
    let x = point_at(seed).0;
    let y = point_at(seed).1;
    assert(0 < x * x + y * y <==> x != 0 || y != 0) by (nonlinear_arith);
}

proof fn lemma_accepted_block(draw: int, bound: int)
    requires
        0 <= draw,
        0 < bound,
    ensures
        accepted(draw, bound) <==> (draw / bound + 1) * bound <= 0x8000_0000,
{
    vstd::arithmetic::div_mod::lemma_fundamental_div_mod(draw, bound);
    let q = draw / bound;
    assert((q + 1) * bound == bound * q + bound) by (nonlinear_arith);
}

/// A draw below a power of two is the high bits of one state. Below any other bound it
/// is the remainder of the 31 high bits of the first state whose block of remainders is
/// complete, so that no value is likelier than another.
pub proof fn law_bounded_draws_are_fair(seed: int, bound: int)
    requires
        0 <= seed < 0x1_0000_0000_0000,
        0 < bound <= 0x7fff_ffff,
    ensures
        bound as u32 & (bound - 1) as u32 == 0 ==> {
            let high = lcg(seed) / 0x2_0000;
            let value = bounded(seed, bound).0;
            &&& value * 0x8000_0000 <= bound * high < (value + 1) * 0x8000_0000
            &&& bounded(seed, bound).1 == lcg(seed)
        },
        bound as u32 & (bound - 1) as u32 != 0 ==> exists|n: nat|
            n >= 1 && bounded(seed, bound).1 == #[trigger] lcg_iter(seed, n) && bounded(
                seed,
                bound,
            ).0 == (lcg_iter(seed, n) / 0x2_0000) % bound && (lcg_iter(seed, n) / 0x2_0000 / bound
                + 1) * bound <= 0x8000_0000 && forall|j: nat|
                1 <= j < n ==> (#[trigger] lcg_iter(seed, j) / 0x2_0000 / bound + 1) * bound
                    > 0x8000_0000,
{
    if bound as u32 & (bound - 1) as u32 == 0 {
        assert(single_bit(bound as u32));
        let high = lcg(seed) / 0x2_0000;
        assert(0 <= bound * high) by (nonlinear_arith)
            requires
                0 <= high,
                0 < bound,
        ;
    } else {
        assert(!single_bit(bound as u32));
        let some = law_bounded_draw_ends(seed, bound);
        let n = choose|n: nat| draws_taken(seed, bound, n);
        lemma_iter_in_range(seed, n);
        lemma_accepted_block(draw31(lcg_iter(seed, n)), bound);
        assert forall|j: nat| 1 <= j < n implies (#[trigger] lcg_iter(seed, j) / 0x2_0000 / bound
            + 1) * bound > 0x8000_0000 by {
            lemma_iter_in_range(seed, j);
            lemma_accepted_block(draw31(lcg_iter(seed, j)), bound);
        }
        assert(bounded(seed, bound).1 == lcg_iter(seed, n));
    }
}

} // verus!
