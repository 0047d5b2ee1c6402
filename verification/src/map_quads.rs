//! Descriptors of the maps drawn on walls: one for each map and frame, from pools
//! that are kept and refilled.
use vstd::prelude::*;

use crate::gpu::PoolPlan;
use crate::MAX_FRAMES_IN_FLIGHT;

verus! {

/// Descriptors in a pool.
pub const MAPS_PER_DESCRIPTOR_POOL: u32 = 256;

/// Corners of the two triangles of a map: column and row, counted from the lower left.
pub const MAP_CORNERS: [(u32, u32); 6] = [(0, 0), (1, 0), (1, 1), (0, 0), (1, 1), (0, 1)];

/// The pool of a frame's maps.
pub fn texture_pool() -> (plan: PoolPlan)
    ensures
        plan == (PoolPlan { uniforms: 0, samplers: 256, max_sets: 256 }),
{
    PoolPlan {
        uniforms: 0,
        samplers: MAPS_PER_DESCRIPTOR_POOL,
        max_sets: MAPS_PER_DESCRIPTOR_POOL,
    }
}

/// The pools of one frame, and how many of their descriptors are used up.
#[derive(Clone, Copy, Debug, PartialEq, Eq, Structural)]
pub struct FramePools {
    pub pools: usize,
    pub drawn: usize,
}

impl FramePools {
    /// There is a pool, and room for what was drawn.
    pub open spec fn wf(self) -> bool {
        1 <= self.pools && self.drawn <= self.pools * 256
    }
}

/// The pool the next map of a frame takes its descriptor from, and the frame after it.
pub open spec fn next_map(before: FramePools) -> (PoolUse, FramePools) {
    let pool = (before.drawn / 256) as usize;
    let create = pool == before.pools;
    (
        PoolUse { pool, create },
        FramePools {
            pools: if create {
                (before.pools + 1) as usize
            } else {
                before.pools
            },
            drawn: (before.drawn + 1) as usize,
        },
    )
}

/// The pools of all frames in flight.
pub struct MapQuads {
    pub frames: Vec<FramePools>,
}

/// The pool a map's descriptor comes from, and whether it has to be made first.
#[derive(Clone, Copy, Debug, PartialEq, Eq, Structural)]
pub struct PoolUse {
    pub pool: usize,
    pub create: bool,
}

impl MapQuads {
    /// Every frame in flight has its pools.
    pub open spec fn wf(self) -> bool {
        self.frames@.len() == MAX_FRAMES_IN_FLIGHT && forall|i: int|
            0 <= i < self.frames@.len() ==> (#[trigger] self.frames@[i]).wf()
    }

    /// One empty pool for each frame.
    pub fn new() -> (quads: Self)
        ensures
            quads.wf(),
            forall|i: int|
                0 <= i < MAX_FRAMES_IN_FLIGHT ==> #[trigger] quads.frames@[i] == (FramePools {
                    pools: 1,
                    drawn: 0,
                }),
    {
        let mut frames: Vec<FramePools> = Vec::new();
        let mut i: usize = 0;
        while i < MAX_FRAMES_IN_FLIGHT
            invariant
                i <= MAX_FRAMES_IN_FLIGHT,
                frames@.len() == i,
                forall|j: int|
                    0 <= j < i ==> #[trigger] frames@[j] == (FramePools { pools: 1, drawn: 0 }),
            decreases MAX_FRAMES_IN_FLIGHT - i,
        {
            frames.push(FramePools { pools: 1, drawn: 0 });
            i = i + 1;
        }
        MapQuads { frames }
    }

    /// Starts a frame over; its pools are reset, all of them, and kept.
    pub fn begin_frame(&mut self, frame: usize) -> (reset: usize)
        requires
            old(self).wf(),
            frame < MAX_FRAMES_IN_FLIGHT,
        ensures
            final(self).wf(),
            reset == old(self).frames@[frame as int].pools,
            final(self).frames@ == old(self).frames@.update(
                frame as int,
                FramePools { pools: reset, drawn: 0 },
            ),
    {
        let pools: usize = self.frames[frame].pools;
        self.frames.set(frame, FramePools { pools, drawn: 0 });
        pools
    }

    /// Takes a descriptor for one more map.
    pub fn draw(&mut self, frame: usize) -> (taken: PoolUse)
        requires
            old(self).wf(),
            frame < MAX_FRAMES_IN_FLIGHT,
            old(self).frames@[frame as int].drawn < usize::MAX,
            old(self).frames@[frame as int].pools < usize::MAX,
        ensures
            final(self).wf(),
            (taken, final(self).frames@[frame as int]) == next_map(old(self).frames@[frame as int]),
            taken.pool == old(self).frames@[frame as int].drawn / 256,
            taken.create == (taken.pool == old(self).frames@[frame as int].pools),
            taken.pool < final(self).frames@[frame as int].pools,
            final(self).frames@ == old(self).frames@.update(
                frame as int,
                FramePools {
                    pools: if taken.create {
                        (old(self).frames@[frame as int].pools + 1) as usize
                    } else {
                        old(self).frames@[frame as int].pools
                    },
                    drawn: (old(self).frames@[frame as int].drawn + 1) as usize,
                },
            ),
    {
        let FramePools { pools, drawn } = self.frames[frame];
        assert(self.frames@[frame as int].wf());
        let pool: usize = drawn / MAPS_PER_DESCRIPTOR_POOL as usize;
        let create = pool == pools;
        let kept: usize = if create {
            pools + 1
        } else {
            pools
        };
        self.frames.set(frame, FramePools { pools: kept, drawn: drawn + 1 });
        PoolUse { pool, create }
    }
}

/// What a frame's counters are after `n` maps.
pub open spec fn after_maps(start: FramePools, n: int) -> (int, int)
    decreases n,
{
    if n <= 0 {
        (start.pools as int, start.drawn as int)
    } else {
        let (pools, drawn) = after_maps(start, n - 1);
        (
            if drawn / 256 == pools {
                pools + 1
            } else {
                pools
            },
            drawn + 1,
        )
    }
}

/// The pools of a frame hold every map drawn since it began, however many, and no
/// pool is made before the ones there are used up.
pub proof fn law_pools_never_overflow(start: FramePools, n: int)
    requires
        start.wf(),
        start.drawn == 0,
        0 <= n,
    ensures
        after_maps(start, n).1 == n,
        n <= after_maps(start, n).0 * 256,
        after_maps(start, n).0 == start.pools || (after_maps(start, n).0 - 1) * 256 < n,
    decreases n,
{
    if n > 0 {
        law_pools_never_overflow(start, n - 1);
    }
}

/// A map takes its descriptor from the pool that the maps before it leave it: 256 to a
/// pool. A pool is made only for a map that none of those there are has room for.
pub proof fn law_maps_take_the_next_descriptor(before: FramePools)
    requires
        before.wf(),
        before.drawn < usize::MAX,
        before.pools < usize::MAX,
    ensures
        ({
            let (taken, after) = next_map(before);
            &&& 256 * taken.pool <= before.drawn < 256 * (taken.pool + 1)
            &&& taken.create <==> before.drawn == 256 * before.pools
            &&& after.drawn == before.drawn + 1
            &&& after.pools == before.pools + (if taken.create {
                1int
            } else {
                0
            })
            &&& taken.pool < after.pools
            &&& after.wf()
        }),
{
}

} // verus!
