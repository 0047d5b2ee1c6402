//! The stars: fixed by their seed, drawn from the cube around the world and kept
//! where they lie in its shell.
use vstd::prelude::*;

use crate::random::JavaRandom;
use crate::sky::STAR_COUNT;

verus! {

/// The seed of the stars.
pub const STAR_SEED: i64 = 10842;

/// A star: its place in the cube from -1 to 1 and the variation of its size, in parts
/// of 2^24, and its turn about its own axis in parts of 2^53.
#[derive(Clone, Copy, Debug, PartialEq, Eq, Structural)]
pub struct Star {
    pub x: i32,
    pub y: i32,
    pub z: i32,
    pub size: u32,
    pub turn: u64,
}

/// The square of a point's distance from the middle, in parts of 2^48.
pub open spec fn square_distance(x: int, y: int, z: int) -> int {
    x * x + y * y + z * z
}

/// Whether a point lies in the shell: farther out than a tenth, within one.
pub open spec fn in_shell(x: int, y: int, z: int) -> bool {
    &&& 100 * square_distance(x, y, z) > 0x1_0000_0000_0000
    &&& square_distance(x, y, z) < 0x1_0000_0000_0000
}

/// A coordinate from a state of the generator.
pub open spec fn coordinate(seed: int) -> int {
    2 * (seed / 0x100_0000) - 0x100_0000
}

/// One try: four draws for place and size, and two more for the turn of a star that
/// is kept. The second part is the state afterwards.
pub open spec fn star_try(seed: int) -> (Option<Star>, int) {
    let a = crate::random::lcg(seed);
    let b = crate::random::lcg(a);
    let c = crate::random::lcg(b);
    let d = crate::random::lcg(c);
    if in_shell(coordinate(a), coordinate(b), coordinate(c)) {
        let e = crate::random::lcg(d);
        let f = crate::random::lcg(e);
        (
            Some(
                Star {
                    x: coordinate(a) as i32,
                    y: coordinate(b) as i32,
                    z: coordinate(c) as i32,
                    size: (d / 0x100_0000) as u32,
                    turn: ((e / 0x40_0000) * 0x800_0000 + f / 0x20_0000) as u64,
                },
            ),
            f,
        )
    } else {
        (None, d)
    }
}

/// The stars kept of `n` tries, and the state afterwards.
pub open spec fn star_field(seed: int, n: int) -> (Seq<Star>, int)
    decreases n,
{
    if n <= 0 {
        (Seq::empty(), seed)
    } else {
        let before = star_field(seed, n - 1);
        let last = star_try(before.1);
        (
            match last.0 {
                Some(star) => before.0.push(star),
                None => before.0,
            },
            last.1,
        )
    }
}

fn try_star(rng: &mut JavaRandom) -> (star: Option<Star>)
    requires
        old(rng).wf(),
    ensures
        final(rng).wf(),
        star == star_try(old(rng).seed as int).0,
        final(rng).seed == star_try(old(rng).seed as int).1,
{
    let x: i32 = 2 * (rng.next_float() as i32) - 0x100_0000;
    let y: i32 = 2 * (rng.next_float() as i32) - 0x100_0000;
    let z: i32 = 2 * (rng.next_float() as i32) - 0x100_0000;
    let size: u32 = rng.next_float();
    assert(0 <= x * x <= 0x1_0000_0000_0000 && 0 <= y * y <= 0x1_0000_0000_0000 && 0 <= z * z
        <= 0x1_0000_0000_0000) by (nonlinear_arith)
        requires
            -0x100_0000 <= x <= 0x100_0000,
            -0x100_0000 <= y <= 0x100_0000,
            -0x100_0000 <= z <= 0x100_0000,
    ;
    let square: i64 = x as i64 * x as i64 + y as i64 * y as i64 + z as i64 * z as i64;
    if 100 * square <= 0x1_0000_0000_0000 || square >= 0x1_0000_0000_0000 {
        return None;
    }
    let turn: u64 = rng.next_double();
    Some(Star { x, y, z, size, turn })
}

/// The stars of the sky.
pub fn build_stars() -> (stars: Vec<Star>)
    ensures
        stars@ == star_field(crate::random::scrambled(STAR_SEED as u64) as int, STAR_COUNT as int).0,
        stars@.len() <= STAR_COUNT,
{
    let mut rng = JavaRandom::new(STAR_SEED);
    let ghost seed = rng.seed as int;
    let mut stars: Vec<Star> = Vec::new();
    let mut i: u32 = 0;
    while i < STAR_COUNT
        invariant
            i <= STAR_COUNT,
            rng.wf(),
            stars@ == star_field(seed, i as int).0,
            rng.seed == star_field(seed, i as int).1,
            stars@.len() <= i,
        decreases STAR_COUNT - i,
    {
        match try_star(&mut rng) {
            Some(star) => stars.push(star),
            None => {},
        }
        i = i + 1;
    }
    stars
}

/// Every star lies in the shell, whatever the seed, and no try makes more than one.
pub proof fn law_stars_lie_in_the_shell(seed: int, n: int)
    requires
        0 <= n,
        0 <= seed < 0x1_0000_0000_0000,
    ensures
        star_field(seed, n).0.len() <= n,
        forall|k: int|
            0 <= k < star_field(seed, n).0.len() ==> in_shell(
                (#[trigger] star_field(seed, n).0[k]).x as int,
                star_field(seed, n).0[k].y as int,
                star_field(seed, n).0[k].z as int,
            ),
        0 <= star_field(seed, n).1 < 0x1_0000_0000_0000,
    decreases n,
{
    if n > 0 {
        law_stars_lie_in_the_shell(seed, n - 1);
    }
}

/// A star takes its draws in order: x, y and z, spread from -1 to 1, its size, and two
/// for its turn, which are drawn only if the place lies in the shell, between a tenth
/// and one from the middle. The next star goes on where this one stopped.
pub proof fn law_stars_take_their_draws_in_order(seed: int)
    requires
        0 <= seed < 0x1_0000_0000_0000,
    ensures
        ({
            let at = |n: nat| crate::random::lcg_iter(seed, n);
            let x = 2 * (at(1) / 0x100_0000) - 0x100_0000;
            let y = 2 * (at(2) / 0x100_0000) - 0x100_0000;
            let z = 2 * (at(3) / 0x100_0000) - 0x100_0000;
            let d = x * x + y * y + z * z;
            match star_try(seed).0 {
                Some(star) => {
                    &&& 0x1_0000_0000_0000 < 100 * d && d < 0x1_0000_0000_0000
                    &&& star.x == x && star.y == y && star.z == z
                    &&& star.size == at(4) / 0x100_0000
                    &&& star.turn / 0x800_0000 == at(5) / 0x40_0000
                    &&& star.turn as int % 0x800_0000 == at(6) / 0x20_0000
                    &&& star_try(seed).1 == at(6)
                },
                None => {
                    &&& 100 * d <= 0x1_0000_0000_0000 || d >= 0x1_0000_0000_0000
                    &&& star_try(seed).1 == at(4)
                },
            }
        }),
{
    reveal_with_fuel(crate::random::lcg_iter, 7);
}

/// Trying once more keeps the stars there are and adds the one found, if any.
pub proof fn law_stars_are_kept(seed: int, n: int)
    requires
        0 <= n,
    ensures
        ({
            let before = star_field(seed, n);
            let after = star_field(seed, n + 1);
            let last = star_try(before.1);
            &&& n == 0 ==> before.0.len() == 0 && before.1 == seed
            &&& after.1 == last.1
            &&& last.0 is None ==> after.0 == before.0
            &&& last.0 is Some ==> after.0 == before.0.push(last.0->0)
        }),
{
}

} // verus!
