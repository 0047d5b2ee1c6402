//! Layering of particle billboards.
use vstd::prelude::*;

verus! {

/// Hard cap of the particle store, and so of the quads in a vertex buffer.
pub const MAX_PARTICLE_QUADS: usize = 16384;

/// The corners of a billboard's two triangles: to the camera's right, and up. The
/// right edge shows the texture's right one, the upper edge its top.
pub const PARTICLE_CORNERS: [(bool, bool); 6] = [
    (true, false),
    (true, true),
    (false, true),
    (true, false),
    (false, true),
    (false, false),
];

/// Positions among the first `n` flags that hold `value`, in order.
pub open spec fn positions_of(flags: Seq<bool>, value: bool, n: int) -> Seq<usize>
    decreases n,
{
    if n <= 0 {
        Seq::empty()
    } else if flags[n - 1] == value {
        positions_of(flags, value, n - 1).push((n - 1) as usize)
    } else {
        positions_of(flags, value, n - 1)
    }
}

/// As much of `order` as the vertex buffer holds.
pub open spec fn capped(order: Seq<usize>) -> Seq<usize> {
    if order.len() <= MAX_PARTICLE_QUADS {
        order
    } else {
        order.take(MAX_PARTICLE_QUADS as int)
    }
}

/// The vertices of a layer that begins behind `before` quads and has `count`.
pub open spec fn layer_range(before: int, count: int) -> (u32, u32) {
    ((6 * before) as u32, (6 * count) as u32)
}

/// The quads of a frame in drawing order, the first `opaque` of them opaque.
pub struct ParticlePlan {
    pub order: Vec<usize>,
    pub opaque: usize,
}

impl ParticlePlan {
    /// Vertex ranges of the two layers, as first vertex and count.
    pub fn ranges(&self) -> (ranges: ((u32, u32), (u32, u32)))
        requires
            self.opaque <= self.order@.len() <= MAX_PARTICLE_QUADS,
        ensures
            ranges.0 == layer_range(0, self.opaque as int),
            ranges.1 == layer_range(self.opaque as int, self.order@.len() - self.opaque),
            ranges.0 == (0u32, (6 * self.opaque) as u32),
            ranges.1 == ((6 * self.opaque) as u32, (6 * (self.order@.len() - self.opaque)) as u32),
    {
        let split: u32 = self.opaque as u32 * 6;
        ((0, split), (split, (self.order.len() - self.opaque) as u32 * 6))
    }
}

fn append_layer(order: &mut Vec<usize>, translucent: &[bool], value: bool)
    requires
        old(order)@.len() <= MAX_PARTICLE_QUADS,
    ensures
        final(order)@ == capped(
            old(order)@ + positions_of(translucent@, value, translucent@.len() as int),
        ),
{
    let ghost before = order@;
    let mut i: usize = 0;
    assert(before + positions_of(translucent@, value, 0) =~= before);
    while i < translucent.len()
        invariant
            i <= translucent@.len(),
            order@ == capped(before + positions_of(translucent@, value, i as int)),
            order@.len() <= MAX_PARTICLE_QUADS,
        decreases translucent@.len() - i,
    {
        let ghost all = before + positions_of(translucent@, value, i as int);
        let ghost next = before + positions_of(translucent@, value, i + 1);
        if translucent[i] == value {
            assert(next =~= all.push(i));
            if order.len() < MAX_PARTICLE_QUADS {
                order.push(i);
                assert(order@ =~= capped(next));
            } else {
                assert(capped(next) =~= capped(all));
            }
        }
        i = i + 1;
    }
}

/// Opaque quads first, then translucent ones, so that each layer is one range.
pub fn plan_particles(translucent: &[bool]) -> (plan: ParticlePlan)
    ensures
        plan.order@ == capped(
            positions_of(translucent@, false, translucent@.len() as int) + positions_of(
                translucent@,
                true,
                translucent@.len() as int,
            ),
        ),
        plan.opaque == capped(positions_of(translucent@, false, translucent@.len() as int)).len(),
        plan.opaque <= plan.order@.len() <= MAX_PARTICLE_QUADS,
{
    let mut order: Vec<usize> = Vec::new();
    append_layer(&mut order, translucent, false);
    let ghost solid = positions_of(translucent@, false, translucent@.len() as int);
    let ghost clear = positions_of(translucent@, true, translucent@.len() as int);
    assert(Seq::<usize>::empty() + solid =~= solid);
    let opaque: usize = order.len();
    append_layer(&mut order, translucent, true);
    assert(capped(capped(solid) + clear) =~= capped(solid + clear));
    ParticlePlan { order, opaque }
}

proof fn lemma_positions(flags: Seq<bool>, value: bool, n: int, k: int)
    requires
        0 <= n <= flags.len(),
        flags.len() <= usize::MAX,
        0 <= k < positions_of(flags, value, n).len(),
    ensures
        positions_of(flags, value, n)[k] < n,
        flags[positions_of(flags, value, n)[k] as int] == value,
        forall|j: int| 0 <= j < k ==> positions_of(flags, value, n)[j] < positions_of(flags, value, n)[k],
    decreases n,
{
    if flags[n - 1] == value {
        let rest = positions_of(flags, value, n - 1);
        if k < rest.len() {
            lemma_positions(flags, value, n - 1, k);
        } else {
            assert forall|j: int| 0 <= j < k implies positions_of(flags, value, n)[j] < n - 1 by {
                lemma_positions(flags, value, n - 1, j);
            }
        }
    } else {
        lemma_positions(flags, value, n - 1, k);
    }
}

/// Every quad in the first range is opaque, every one after it translucent, and
/// each layer keeps the store's order.
pub proof fn law_layers_are_pure_and_stable(translucent: Seq<bool>, value: bool, k: int)
    requires
        translucent.len() <= usize::MAX,
        0 <= k < positions_of(translucent, value, translucent.len() as int).len(),
    ensures
        translucent[positions_of(translucent, value, translucent.len() as int)[k] as int] == value,
        forall|j: int|
            0 <= j < k ==> positions_of(translucent, value, translucent.len() as int)[j]
                < positions_of(translucent, value, translucent.len() as int)[k],
{
    lemma_positions(translucent, value, translucent.len() as int, k);
}

proof fn lemma_position_of(flags: Seq<bool>, n: int, i: int) -> (k: int)
    requires
        0 <= i < n <= flags.len() <= usize::MAX,
    ensures
        0 <= k < positions_of(flags, flags[i], n).len(),
        positions_of(flags, flags[i], n)[k] == i,
    decreases n,
{
    if i == n - 1 {
        positions_of(flags, flags[i], n - 1).len() as int
    } else {
        lemma_position_of(flags, n - 1, i)
    }
}

proof fn lemma_positions_split(flags: Seq<bool>, n: int)
    requires
        0 <= n <= flags.len(),
    ensures
        positions_of(flags, false, n).len() + positions_of(flags, true, n).len() == n,
    decreases n,
{
    if n > 0 {
        lemma_positions_split(flags, n - 1);
    }
}

/// As long as the buffer holds all particles each of them is drawn once; beyond that it
/// is filled, and the last ones of the drawing order are left out.
pub proof fn law_every_particle_is_drawn(translucent: Seq<bool>, i: int)
    requires
        translucent.len() <= usize::MAX,
        0 <= i < translucent.len(),
    ensures
        ({
            let n = translucent.len() as int;
            let all = positions_of(translucent, false, n) + positions_of(translucent, true, n);
            let drawn = capped(all);
            &&& drawn.len() == (if n <= 16384 {
                n
            } else {
                16384
            })
            &&& n <= 16384 ==> drawn.contains(i as usize)
            &&& forall|k: int| 0 <= k < drawn.len() ==> #[trigger] drawn[k] == all[k]
        }),
{
    let n = translucent.len() as int;
    let solid = positions_of(translucent, false, n);
    let clear = positions_of(translucent, true, n);
    lemma_positions_split(translucent, n);
    let k = lemma_position_of(translucent, n, i);
    if translucent[i] {
        assert((solid + clear)[solid.len() + k] == i);
    } else {
        assert((solid + clear)[k] == i);
    }
}

/// Each layer of particles has six vertices a quad, and one begins where the other ends.
pub proof fn law_layers_follow_one_another(opaque: int, total: int)
    requires
        0 <= opaque <= total <= 16384,
    ensures
        ({
            let (first, second) = (layer_range(0, opaque), layer_range(opaque, total - opaque));
            &&& first.0 == 0
            &&& first.1 == 6 * opaque
            &&& second.0 == first.0 + first.1
            &&& second.0 + second.1 == 6 * total
        }),
{
}

} // verus!
