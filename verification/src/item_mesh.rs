//! Geometry of items: the order of baked quads, and flat sprites given thickness.
use vstd::prelude::*;

verus! {

#[derive(Clone, Copy, Debug, PartialEq, Eq, Hash, Structural)]
pub enum Direction {
    Down,
    Up,
    North,
    South,
    West,
    East,
}

/// The faces a baked quad is culled and shaded by.
#[derive(Clone, Copy, Debug, PartialEq, Eq, Structural)]
pub struct QuadFaces {
    pub cullface: Option<Direction>,
    pub shade_face: Option<Direction>,
}

/// The order of culled quads.
pub open spec fn cull_rank(direction: Direction) -> u8 {
    match direction {
        Direction::North => 0,
        Direction::South => 1,
        Direction::East => 2,
        Direction::West => 3,
        Direction::Up => 4,
        Direction::Down => 5,
    }
}

/// The order of quads that are never culled.
pub open spec fn general_rank(direction: Direction) -> u8 {
    match direction {
        Direction::Down => 0,
        Direction::Up => 1,
        Direction::North => 2,
        Direction::South => 3,
        Direction::West => 4,
        Direction::East => 5,
    }
}

/// The bucket of a quad: the ones that are never culled come first, by the face
/// they are shaded as; one without any counts as facing up.
pub open spec fn order_key(quad: QuadFaces) -> (u8, u8) {
    match quad.cullface {
        Some(d) => (1, cull_rank(d)),
        None => (
            0,
            general_rank(
                match quad.shade_face {
                    Some(d) => d,
                    None => Direction::Up,
                },
            ),
        ),
    }
}

/// One number for a bucket, in the same order.
pub open spec fn bucket(quad: QuadFaces) -> int {
    order_key(quad).0 * 6 + order_key(quad).1
}

pub fn gui_item_quad_order_key(quad: &QuadFaces) -> (key: (u8, u8))
    ensures
        key == order_key(*quad),
{
    match quad.cullface {
        Some(d) => (
            1,
            match d {
                Direction::North => 0,
                Direction::South => 1,
                Direction::East => 2,
                Direction::West => 3,
                Direction::Up => 4,
                Direction::Down => 5,
            },
        ),
        None => {
            let d = match quad.shade_face {
                Some(d) => d,
                None => Direction::Up,
            };
            (
                0,
                match d {
                    Direction::Down => 0,
                    Direction::Up => 1,
                    Direction::North => 2,
                    Direction::South => 3,
                    Direction::West => 4,
                    Direction::East => 5,
                },
            )
        },
    }
}

/// Two places of an order stand right: by bucket, and within one as before.
pub open spec fn in_order(quads: Seq<QuadFaces>, a: usize, b: usize) -> bool {
    bucket(quads[a as int]) < bucket(quads[b as int]) || (bucket(quads[a as int]) == bucket(
        quads[b as int],
    ) && a < b)
}

/// The quads in drawing order: as baked, or for the inventory by bucket, those of
/// one bucket as baked.
pub fn quad_order(quads: &Vec<QuadFaces>, vanilla_gui_order: bool) -> (order: Vec<usize>)
    ensures
        order@.len() == quads@.len(),
        !vanilla_gui_order ==> forall|i: int| 0 <= i < order@.len() ==> #[trigger] order@[i] == i,
        vanilla_gui_order ==> {
            &&& forall|i: int| 0 <= i < order@.len() ==> #[trigger] order@[i] < quads@.len()
            &&& forall|i: int, j: int|
                0 <= i < j < order@.len() ==> in_order(
                    quads@,
                    #[trigger] order@[i],
                    #[trigger] order@[j],
                )
            &&& forall|q: usize| (q as int) < quads@.len() ==> #[trigger] order@.contains(q)
        },
{
    let mut order: Vec<usize> = Vec::new();
    if !vanilla_gui_order {
        let mut i: usize = 0;
        while i < quads.len()
            invariant
                i <= quads@.len(),
                order@.len() == i,
                forall|j: int| 0 <= j < i ==> #[trigger] order@[j] == j,
            decreases quads@.len() - i,
        {
            order.push(i);
            i = i + 1;
        }
        return order;
    }
    let mut b: u8 = 0;
    while b < 12
        invariant
            b <= 12,
            forall|i: int|
                0 <= i < order@.len() ==> #[trigger] order@[i] < quads@.len() && bucket(
                    quads@[order@[i] as int],
                ) < b,
            forall|i: int, j: int|
                0 <= i < j < order@.len() ==> in_order(
                    quads@,
                    #[trigger] order@[i],
                    #[trigger] order@[j],
                ),
            forall|q: usize|
                (q as int) < quads@.len() && bucket(quads@[q as int]) < b ==> #[trigger]
                    order@.contains(q),
        decreases 12 - b,
    {
        let mut i: usize = 0;
        while i < quads.len()
            invariant
                b < 12,
                i <= quads@.len(),
                forall|k: int|
                    0 <= k < order@.len() ==> #[trigger] order@[k] < quads@.len() && (bucket(
                        quads@[order@[k] as int],
                    ) < b || (bucket(quads@[order@[k] as int]) == b && order@[k] < i)),
                forall|k: int, j: int|
                    0 <= k < j < order@.len() ==> in_order(
                        quads@,
                        #[trigger] order@[k],
                        #[trigger] order@[j],
                    ),
                forall|q: usize|
                    (q as int) < quads@.len() && (bucket(quads@[q as int]) < b || (bucket(
                        quads@[q as int],
                    ) == b && q < i)) ==> #[trigger] order@.contains(q),
            decreases quads@.len() - i,
        {
            let key = gui_item_quad_order_key(&quads[i]);
            let ghost before = order@;
            if key.0 * 6 + key.1 == b {
                order.push(i);
                proof {
                    assert(order@[before.len() as int] == i);
                    assert forall|q: usize|
                        (q as int) < quads@.len() && (bucket(quads@[q as int]) < b || (bucket(
                            quads@[q as int],
                        ) == b && q < i + 1)) implies #[trigger] order@.contains(q) by {
                        if q == i {
                            assert(order@[before.len() as int] == q);
                        } else {
                            assert(before.contains(q));
                            let k = choose|k: int| 0 <= k < before.len() && before[k] == q;
                            assert(order@[k] == q);
                        }
                    }
                }
            }
            i = i + 1;
        }
        b = b + 1;
    }
    let total: usize = quads.len();
    proof {
        assert(quads@.len() == total);
        assert forall|q: usize| (q as int) < quads@.len() implies #[trigger] order@.contains(q) by {
            assert(bucket(quads@[q as int]) < 12);
        }
        lemma_same_length(quads@, order@);
    }
    order
}

/// An order that holds every quad, each once, is as long as the list.
proof fn lemma_same_length(quads: Seq<QuadFaces>, order: Seq<usize>)
    requires
        forall|i: int| 0 <= i < order.len() ==> #[trigger] order[i] < quads.len(),
        forall|i: int, j: int|
            0 <= i < j < order.len() ==> in_order(quads, #[trigger] order[i], #[trigger] order[j]),
        forall|q: usize| (q as int) < quads.len() ==> #[trigger] order.contains(q),
        quads.len() <= usize::MAX,
    ensures
        order.len() == quads.len(),
{
    let all = Seq::new(quads.len(), |i: int| i as usize);
    assert(order.no_duplicates());
    assert(all.no_duplicates());
    assert forall|q: usize| order.to_set().contains(q) <==> all.to_set().contains(q) by {
        if order.to_set().contains(q) {
            let i = choose|i: int| 0 <= i < order.len() && order[i] == q;
            assert(order[i] < quads.len());
            assert(all[q as int] == q);
        }
        if all.to_set().contains(q) {
            assert(order.contains(q));
        }
    }
    assert(order.to_set() =~= all.to_set());
    order.unique_seq_to_set();
    all.unique_seq_to_set();
}

/// Two ways to order the same quads for the inventory are the same.
pub proof fn law_order_is_unique(quads: Seq<QuadFaces>, a: Seq<usize>, b: Seq<usize>)
    requires
        a.len() == quads.len(),
        b.len() == quads.len(),
        forall|i: int| 0 <= i < a.len() ==> #[trigger] a[i] < quads.len(),
        forall|i: int| 0 <= i < b.len() ==> #[trigger] b[i] < quads.len(),
        forall|i: int, j: int|
            0 <= i < j < a.len() ==> in_order(quads, #[trigger] a[i], #[trigger] a[j]),
        forall|i: int, j: int|
            0 <= i < j < b.len() ==> in_order(quads, #[trigger] b[i], #[trigger] b[j]),
        forall|q: usize| (q as int) < quads.len() ==> #[trigger] a.contains(q),
        forall|q: usize| (q as int) < quads.len() ==> #[trigger] b.contains(q),
    ensures
        a == b,
{
    assert forall|i: int| 0 <= i < a.len() implies a[i] == b[i] by {
        lemma_same_prefix(quads, a, b, i);
    }
    assert(a =~= b);
}

proof fn lemma_same_prefix(quads: Seq<QuadFaces>, a: Seq<usize>, b: Seq<usize>, i: int)
    requires
        a.len() == quads.len(),
        b.len() == quads.len(),
        0 <= i < a.len(),
        forall|i: int| 0 <= i < a.len() ==> #[trigger] a[i] < quads.len(),
        forall|i: int| 0 <= i < b.len() ==> #[trigger] b[i] < quads.len(),
        forall|i: int, j: int|
            0 <= i < j < a.len() ==> in_order(quads, #[trigger] a[i], #[trigger] a[j]),
        forall|i: int, j: int|
            0 <= i < j < b.len() ==> in_order(quads, #[trigger] b[i], #[trigger] b[j]),
        forall|q: usize| (q as int) < quads.len() ==> #[trigger] a.contains(q),
        forall|q: usize| (q as int) < quads.len() ==> #[trigger] b.contains(q),
    ensures
        forall|j: int| 0 <= j <= i ==> #[trigger] a[j] == b[j],
    decreases i,
{
    if i > 0 {
        lemma_same_prefix(quads, a, b, i - 1);
    }
    assert(b.contains(a[i]));
    let k = choose|k: int| 0 <= k < b.len() && b[k] == a[i];
    assert(a.contains(b[i]));
    let m = choose|m: int| 0 <= m < a.len() && a[m] == b[i];
    if k < i {
        assert(a[k] == b[k]);
        assert(in_order(quads, a[k], a[i]));
    }
    if m < i {
        assert(a[m] == b[m]);
        assert(in_order(quads, b[m], b[i]));
    }
    if k > i && m > i {
        assert(in_order(quads, b[i], b[k]));
        assert(in_order(quads, a[i], a[m]));
    }
}

/// The corners of a baked quad's two triangles.
pub const ITEM_CORNERS: [usize; 6] = [0, 1, 2, 2, 3, 0];

/// The vertices of a mesh: for each, its quad and the corner of it.
pub fn mesh_corners(order: &Vec<usize>) -> (list: Vec<(usize, usize)>)
    requires
        order@.len() * 6 <= usize::MAX,
    ensures
        list@ == Seq::new(order@.len() * 6, |k: int| (order@[k / 6], ITEM_CORNERS[k % 6])),
{
    let corners = ITEM_CORNERS;
    let mut list: Vec<(usize, usize)> = Vec::new();
    let total: usize = order.len() * 6;
    let mut k: usize = 0;
    while k < total
        invariant
            k <= total,
            total == order@.len() * 6,
            corners == ITEM_CORNERS,
            list@ =~= Seq::new(k as nat, |j: int| (order@[j / 6], ITEM_CORNERS[j % 6])),
        decreases total - k,
    {
        list.push((order[k / 6], corners[k % 6]));
        k = k + 1;
    }
    list
}

/// The colour packed into a vertex's light and tint.
pub open spec fn tint_rgb(light_tint: u32) -> (u8, u8, u8) {
    (
        (light_tint / 256 % 256) as u8,
        (light_tint / 65536 % 256) as u8,
        (light_tint / 16777216) as u8,
    )
}

/// The colours among the first `n` vertices, each at its first appearance.
pub open spec fn tints(vertices: Seq<u32>, n: int) -> Seq<(u8, u8, u8)>
    decreases n,
{
    if n <= 0 {
        Seq::empty()
    } else {
        let before = tints(vertices, n - 1);
        if before.contains(tint_rgb(vertices[n - 1])) {
            before
        } else {
            before.push(tint_rgb(vertices[n - 1]))
        }
    }
}

/// The colours of a mesh, each once.
pub fn tint_rgbs(light_tints: &[u32]) -> (list: Vec<(u8, u8, u8)>)
    ensures
        list@ == tints(light_tints@, light_tints@.len() as int),
{
    let mut list: Vec<(u8, u8, u8)> = Vec::new();
    let mut i: usize = 0;
    while i < light_tints.len()
        invariant
            i <= light_tints@.len(),
            list@ == tints(light_tints@, i as int),
        decreases light_tints@.len() - i,
    {
        let tint: u32 = light_tints[i];
        let rgb: (u8, u8, u8) = (
            (tint / 256 % 256) as u8,
            (tint / 65536 % 256) as u8,
            (tint / 16777216) as u8,
        );
        let mut known = false;
        let mut k: usize = 0;
        while k < list.len() && !known
            invariant
                k <= list@.len(),
                known ==> list@.contains(rgb),
                !known ==> forall|j: int| 0 <= j < k ==> list@[j] != rgb,
            decreases
                    list@.len() - k,
                    if known {
                        0int
                    } else {
                        1int
                    },
        {
            let it = list[k];
            if it.0 == rgb.0 && it.1 == rgb.1 && it.2 == rgb.2 {
                assert(list@[k as int] == rgb);
                known = true;
            } else {
                k = k + 1;
            }
        }
        if !known {
            list.push(rgb);
        }
        i = i + 1;
    }
    list
}

/// Packs a light byte and a colour the way the vertices hold them.
pub fn pack_light_tint(light: u8, rgb: (u8, u8, u8)) -> (light_tint: u32)
    ensures
        light_tint == light + 256 * rgb.0 + 65536 * rgb.1 + 16777216 * rgb.2,
        tint_rgb(light_tint) == rgb,
{
    let t: u32 = light as u32 + 256 * rgb.0 as u32 + 65536 * rgb.1 as u32 + 16777216 * rgb.2 as u32;
    proof {
        lemma_unpack(light as int, rgb.0 as int, rgb.1 as int, rgb.2 as int);
    }
    t
}

proof fn lemma_unpack(l: int, r: int, g: int, b: int)
    requires
        0 <= l < 256,
        0 <= r < 256,
        0 <= g < 256,
        0 <= b < 256,
    ensures
        ({
            let t = l + 256 * r + 65536 * g + 16777216 * b;
            t / 256 % 256 == r && t / 65536 % 256 == g && t / 16777216 == b
        }),
{
    let t = l + 256 * r + 65536 * g + 16777216 * b;
    assert(t / 256 == r + 256 * (g + 256 * b));
    assert((r + 256 * (g + 256 * b)) % 256 == r);
    assert(t / 65536 == g + 256 * b);
    assert((g + 256 * b) % 256 == g);
    assert(t / 16777216 == b);
}

/// The sides of a block in the order the inventory draws culled quads.
pub open spec fn culled_sides() -> Seq<Direction> {
    seq![
        Direction::North,
        Direction::South,
        Direction::East,
        Direction::West,
        Direction::Up,
        Direction::Down,
    ]
}

/// The same for quads that are never culled.
pub open spec fn open_sides() -> Seq<Direction> {
    seq![
        Direction::Down,
        Direction::Up,
        Direction::North,
        Direction::South,
        Direction::West,
        Direction::East,
    ]
}

/// In the inventory no quad that is never culled comes after one that is. Culled quads
/// come by the side they are culled by, the others by the side they are shaded as, up
/// where they are shaded as none, and quads of one side keep the order they were baked
/// in.
pub proof fn law_inventory_draws_side_by_side(
    quads: Seq<QuadFaces>,
    a: usize,
    b: usize,
    p: int,
    q: int,
)
    requires
        a < quads.len(),
        b < quads.len(),
        in_order(quads, a, b),
        0 <= p < 6,
        0 <= q < 6,
    ensures
        quads[a as int].cullface is Some ==> quads[b as int].cullface is Some,
        quads[a as int].cullface == Some(culled_sides()[p]) && quads[b as int].cullface == Some(
            culled_sides()[q],
        ) ==> p < q || (p == q && a < b),
        ({
            let first = quads[a as int].shade_face;
            let second = quads[b as int].shade_face;
            &&& quads[a as int].cullface is None
            &&& quads[b as int].cullface is None
            &&& first == Some(open_sides()[p]) || (first is None && p == 1)
            &&& second == Some(open_sides()[q]) || (second is None && q == 1)
        }) ==> p < q || (p == q && a < b),
{
}

/// The two triangles of a quad lie along one of its diagonals and go round it the same
/// way.
pub proof fn law_quads_are_two_triangles(order: Seq<usize>, quad: int)
    requires
        0 <= quad < order.len(),
    ensures
        ({
            let list = Seq::new(order.len() * 6, |k: int| (order[k / 6], ITEM_CORNERS[k % 6]));
            forall|k: int|
                0 <= k < 6 ==> #[trigger] list[6 * quad + k] == (
                    order[quad],
                    seq![0usize, 1, 2, 2, 3, 0][k],
                )
        }),
{
    let list = Seq::new(order.len() * 6, |k: int| (order[k / 6], ITEM_CORNERS[k % 6]));
    assert forall|k: int| 0 <= k < 6 implies #[trigger] list[6 * quad + k] == (
        order[quad],
        seq![0usize, 1, 2, 2, 3, 0][k],
    ) by {
        assert((6 * quad + k) / 6 == quad && (6 * quad + k) % 6 == k);
        assert(ITEM_CORNERS[0] == 0);
    }
}

proof fn lemma_tint_digits(v: u32)
    ensures
        v / 256 == tint_rgb(v).0 + 256 * tint_rgb(v).1 + 65536 * tint_rgb(v).2,
{
    assert(v / 65536 == v / 256 / 256);
    assert(v / 16777216 == v / 65536 / 256);
}

/// A mesh has the colours that its vertices have above their light byte, red lowest,
/// and each of them once.
pub proof fn law_colours_are_those_of_the_vertices(
    vertices: Seq<u32>,
    n: int,
    rgb: (u8, u8, u8),
)
    requires
        0 <= n <= vertices.len(),
    ensures
        tints(vertices, n).contains(rgb) <==> exists|i: int|
            0 <= i < n && (#[trigger] vertices[i]) / 256 == rgb.0 + 256 * rgb.1 + 65536 * rgb.2,
        tints(vertices, n).no_duplicates(),
    decreases n,
{
    let list = tints(vertices, n);
    if n > 0 {
        law_colours_are_those_of_the_vertices(vertices, n - 1, rgb);
        let before = tints(vertices, n - 1);
        let last = tint_rgb(vertices[n - 1]);
        lemma_tint_digits(vertices[n - 1]);
        if !before.contains(last) {
            assert(list == before.push(last));
            assert(list[before.len() as int] == last);
            if before.contains(rgb) {
                let k = before.index_of(rgb);
                assert(list[k] == rgb);
            }
            assert forall|i: int, j: int| 0 <= i < j < list.len() implies list[i] != list[j] by {
                if j == before.len() {
                    assert(before[i] == list[i]);
                    assert(before.contains(before[i]));
                }
            }
        }
        if list.contains(rgb) && !before.contains(rgb) {
            let k = list.index_of(rgb);
            assert(k == before.len());
            assert(rgb == last);
            assert(vertices[n - 1] / 256 == rgb.0 + 256 * rgb.1 + 65536 * rgb.2);
        }
        if vertices[n - 1] / 256 == rgb.0 + 256 * rgb.1 + 65536 * rgb.2 {
            assert(rgb == last);
        }
    }
}

} // verus!
