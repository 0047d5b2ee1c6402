//! The world border: when it shows, its walls, and how its texture is tinted.
use vstd::prelude::*;

verus! {

/// What the border is doing.
#[derive(Clone, Copy, Debug, PartialEq, Eq, Structural)]
pub enum BorderStatus {
    Stationary,
    Growing,
    Shrinking,
}

/// The texture of a status.
pub open spec fn texture_of(status: BorderStatus) -> int {
    match status {
        BorderStatus::Stationary => 0,
        BorderStatus::Growing => 1,
        BorderStatus::Shrinking => 2,
    }
}

/// The texture of a status: one tinted copy of the forcefield each.
pub fn texture_index(status: BorderStatus) -> (index: usize)
    ensures
        index == texture_of(status),
        index == match status {
            BorderStatus::Stationary => 0int,
            BorderStatus::Growing => 1,
            BorderStatus::Shrinking => 2,
        },
        index < 3,
{
    match status {
        BorderStatus::Stationary => 0,
        BorderStatus::Growing => 1,
        BorderStatus::Shrinking => 2,
    }
}

pub const FORCEFIELD_TEXTURE: &'static str = "minecraft/textures/misc/forcefield.png";

/// Edges of the border, in any fixed unit of length.
#[derive(Clone, Copy, Debug, PartialEq, Eq, Structural)]
pub struct BorderBounds {
    pub min_x: i64,
    pub max_x: i64,
    pub min_z: i64,
    pub max_z: i64,
}

/// A border to draw. `nearest` is the signed distance to the nearest edge,
/// negative outside.
#[derive(Clone, Copy, Debug, PartialEq, Eq)]
pub struct BorderDraw {
    pub bounds: BorderBounds,
    pub nearest: i64,
    pub sides: [bool; 4],
    pub status: BorderStatus,
}

/// The smaller of two numbers.
pub open spec fn lesser(a: int, b: int) -> int {
    if a <= b {
        a
    } else {
        b
    }
}

/// Distance between two points of a line.
pub open spec fn distance(a: int, b: int) -> int {
    if a <= b {
        b - a
    } else {
        a - b
    }
}

/// Signed distance from the camera to the nearest edge.
pub open spec fn nearest_edge(b: BorderBounds, x: int, z: int) -> int {
    lesser(lesser(x - b.min_x, b.max_x - x), lesser(z - b.min_z, b.max_z - z))
}

/// Whether the border shows: its nearest edge is closer than the render
/// distance, and the camera no further outside than that.
pub open spec fn border_shows(b: BorderBounds, x: int, z: int, render_distance: int) -> bool {
    &&& render_distance > 0
    &&& -render_distance <= nearest_edge(b, x, z) < render_distance
}

/// The walls within render distance: south, west, north, east.
pub open spec fn sides_of(b: BorderBounds, x: int, z: int, render_distance: int) -> Seq<bool> {
    seq![
        distance(z, b.max_z as int) < render_distance,
        distance(x, b.min_x as int) < render_distance,
        distance(z, b.min_z as int) < render_distance,
        distance(x, b.max_x as int) < render_distance,
    ]
}

/// Coordinates are small enough that differences stay exact.
pub open spec fn in_world(v: int) -> bool {
    -0x2000_0000_0000_0000 <= v <= 0x2000_0000_0000_0000
}

fn gap(a: i64, b: i64) -> (d: i64)
    requires
        in_world(a as int),
        in_world(b as int),
    ensures
        d == distance(a as int, b as int),
{
    if a <= b {
        b - a
    } else {
        a - b
    }
}

fn smaller(a: i64, b: i64) -> (s: i64)
    ensures
        s == lesser(a as int, b as int),
{
    if a <= b {
        a
    } else {
        b
    }
}

/// Decides whether and how the border is drawn for a camera at (`x`, `z`).
pub fn extract_border(
    bounds: BorderBounds,
    status: BorderStatus,
    x: i64,
    z: i64,
    render_distance: i64,
) -> (draw: Option<BorderDraw>)
    requires
        in_world(bounds.min_x as int),
        in_world(bounds.max_x as int),
        in_world(bounds.min_z as int),
        in_world(bounds.max_z as int),
        in_world(x as int),
        in_world(z as int),
    ensures
        draw is Some <==> border_shows(bounds, x as int, z as int, render_distance as int),
        match draw {
            Some(d) => {
                &&& d.bounds == bounds
                &&& d.nearest == nearest_edge(bounds, x as int, z as int)
                &&& d.sides@ == sides_of(bounds, x as int, z as int, render_distance as int)
                &&& d.status == status
            },
            None => true,
        },
{
    if render_distance <= 0 {
        return None;
    }
    let nearest: i64 = smaller(
        smaller(x - bounds.min_x, bounds.max_x - x),
        smaller(z - bounds.min_z, bounds.max_z - z),
    );
    if nearest < -render_distance || nearest >= render_distance {
        return None;
    }
    let sides: [bool; 4] = [
        gap(z, bounds.max_z) < render_distance,
        gap(x, bounds.min_x) < render_distance,
        gap(z, bounds.min_z) < render_distance,
        gap(x, bounds.max_x) < render_distance,
    ];
    assert(sides@ =~= sides_of(bounds, x as int, z as int, render_distance as int));
    Some(BorderDraw { bounds, nearest, sides, status })
}

/// Seen from inside, a border that shows has a wall to draw.
pub proof fn law_visible_border_has_a_wall(b: BorderBounds, x: int, z: int, render_distance: int)
    requires
        border_shows(b, x, z, render_distance),
        nearest_edge(b, x, z) >= 0,
    ensures
        exists|s: int| 0 <= s < 4 && #[trigger] sides_of(b, x, z, render_distance)[s],
{
    let sides = sides_of(b, x, z, render_distance);
    assert(sides[0] || sides[1] || sides[2] || sides[3]);
}

/// The walls among the first `n`, in drawing order.
pub open spec fn active_sides(sides: Seq<bool>, n: int) -> Seq<usize>
    decreases n,
{
    if n <= 0 {
        Seq::empty()
    } else if sides[n - 1] {
        active_sides(sides, n - 1).push((n - 1) as usize)
    } else {
        active_sides(sides, n - 1)
    }
}

/// The walls to emit, six vertices each.
pub fn plan_walls(draw: &BorderDraw) -> (walls: Vec<usize>)
    ensures
        walls@ == active_sides(draw.sides@, 4),
        walls@.len() <= 4,
{
    let mut walls: Vec<usize> = Vec::new();
    let mut s: usize = 0;
    while s < 4
        invariant
            s <= 4,
            walls@ == active_sides(draw.sides@, s as int),
            walls@.len() <= s,
        decreases 4 - s,
    {
        if draw.sides[s] {
            walls.push(s);
        }
        s = s + 1;
    }
    walls
}

/// How strongly the border shows, as a part of the render distance.
pub open spec fn strength(nearest: int, render_distance: int) -> int {
    if nearest <= 0 {
        render_distance
    } else {
        render_distance - nearest
    }
}

/// How strongly the border shows, as a part of the render distance: fully at the
/// edge and beyond. Its alpha is the fourth power of that part.
pub fn fade(nearest: i64, render_distance: i64) -> (part: i64)
    requires
        nearest < render_distance,
    ensures
        part == strength(nearest as int, render_distance as int),
        part == (if nearest <= 0 {
            render_distance as int
        } else {
            render_distance - nearest
        }),
{
    if nearest <= 0 {
        render_distance
    } else {
        render_distance - nearest
    }
}

/// The camera, and how far it sees.
#[derive(Clone, Copy, Debug, PartialEq, Eq, Structural)]
pub struct Viewpoint {
    pub x: i64,
    pub y: i64,
    pub z: i64,
    pub far: i64,
}

impl Viewpoint {
    pub open spec fn wf(self) -> bool {
        &&& in_world(self.x as int)
        &&& in_world(self.y as int)
        &&& in_world(self.z as int)
        &&& in_world(self.far as int)
    }
}

/// The larger of two numbers.
pub open spec fn greater(a: int, b: int) -> int {
    if a >= b {
        a
    } else {
        b
    }
}

/// The part of the border the camera can see.
pub open spec fn in_sight(b: BorderBounds, view: Viewpoint) -> BorderBounds {
    BorderBounds {
        min_x: greater(b.min_x as int, view.x - view.far) as i64,
        max_x: lesser(b.max_x as int, view.x + view.far) as i64,
        min_z: greater(b.min_z as int, view.z - view.far) as i64,
        max_z: lesser(b.max_z as int, view.z + view.far) as i64,
    }
}

/// Where a wall begins or ends. The walls run south from west to east, west from
/// north to south, north from east to west, and east from south to north.
pub open spec fn wall_end(b: BorderBounds, view: Viewpoint, side: int, end: bool) -> (i64, i64) {
    let seen = in_sight(b, view);
    if side == 0 {
        (if end { seen.max_x } else { seen.min_x }, b.max_z)
    } else if side == 1 {
        (b.min_x, if end { seen.max_z } else { seen.min_z })
    } else if side == 2 {
        (if end { seen.min_x } else { seen.max_x }, b.min_z)
    } else {
        (b.max_x, if end { seen.min_z } else { seen.max_z })
    }
}

/// The length of a wall in sight.
pub open spec fn wall_length(b: BorderBounds, view: Viewpoint, side: int) -> int {
    let seen = in_sight(b, view);
    if side == 0 || side == 2 {
        seen.max_x - seen.min_x
    } else {
        seen.max_z - seen.min_z
    }
}

/// A corner of a wall, and how far along it lies.
#[derive(Clone, Copy, Debug, PartialEq, Eq, Structural)]
pub struct WallCorner {
    pub x: i64,
    pub y: i64,
    pub z: i64,
    pub along: i64,
    pub top: bool,
}

/// The corners of a wall's two triangles: at its end, and at the top.
pub const WALL_CORNERS: [(bool, bool); 6] = [
    (false, false),
    (true, false),
    (true, true),
    (false, false),
    (true, true),
    (false, true),
];

/// A corner of a wall.
pub open spec fn wall_corner(
    b: BorderBounds,
    view: Viewpoint,
    side: int,
    end: bool,
    top: bool,
) -> WallCorner {
    let at = wall_end(b, view, side, end);
    WallCorner {
        x: at.0,
        y: (if top {
            view.y + view.far
        } else {
            view.y - view.far
        }) as i64,
        z: at.1,
        along: (if end {
            wall_length(b, view, side)
        } else {
            0
        }) as i64,
        top,
    }
}

fn larger(a: i64, b: i64) -> (s: i64)
    ensures
        s == greater(a as int, b as int),
{
    if a >= b {
        a
    } else {
        b
    }
}

/// The vertices of a wall.
pub fn wall_vertices(bounds: BorderBounds, view: Viewpoint, side: usize) -> (vertices: Vec<WallCorner>)
    requires
        in_world(bounds.min_x as int),
        in_world(bounds.max_x as int),
        in_world(bounds.min_z as int),
        in_world(bounds.max_z as int),
        view.wf(),
        side < 4,
    ensures
        vertices@ == Seq::new(
            6,
            |k: int|
                wall_corner(
                    bounds,
                    view,
                    side as int,
                    WALL_CORNERS@[k].0,
                    WALL_CORNERS@[k].1,
                ),
        ),
{
    let seen = BorderBounds {
        min_x: larger(bounds.min_x, view.x - view.far),
        max_x: smaller(bounds.max_x, view.x + view.far),
        min_z: larger(bounds.min_z, view.z - view.far),
        max_z: smaller(bounds.max_z, view.z + view.far),
    };
    let (from, to, length) = match side {
        0 => (
            (seen.min_x, bounds.max_z),
            (seen.max_x, bounds.max_z),
            seen.max_x - seen.min_x,
        ),
        1 => (
            (bounds.min_x, seen.min_z),
            (bounds.min_x, seen.max_z),
            seen.max_z - seen.min_z,
        ),
        2 => (
            (seen.max_x, bounds.min_z),
            (seen.min_x, bounds.min_z),
            seen.max_x - seen.min_x,
        ),
        _ => (
            (bounds.max_x, seen.max_z),
            (bounds.max_x, seen.min_z),
            seen.max_z - seen.min_z,
        ),
    };
    let low: i64 = view.y - view.far;
    let high: i64 = view.y + view.far;
    let table = WALL_CORNERS;
    let ghost want = Seq::new(
        6,
        |k: int|
            wall_corner(bounds, view, side as int, WALL_CORNERS@[k].0, WALL_CORNERS@[k].1),
    );
    let mut vertices: Vec<WallCorner> = Vec::new();
    let mut k: usize = 0;
    while k < 6
        invariant
            k <= 6,
            table == WALL_CORNERS,
            from == wall_end(bounds, view, side as int, false),
            to == wall_end(bounds, view, side as int, true),
            length == wall_length(bounds, view, side as int),
            low == view.y - view.far,
            high == view.y + view.far,
            want == Seq::new(
                6,
                |k: int|
                    wall_corner(
                        bounds,
                        view,
                        side as int,
                        WALL_CORNERS@[k].0,
                        WALL_CORNERS@[k].1,
                    ),
            ),
            vertices@ =~= want.take(k as int),
        decreases 6 - k,
    {
        let (end, top) = table[k];
        let at = if end {
            to
        } else {
            from
        };
        vertices.push(
            WallCorner {
                x: at.0,
                y: if top {
                    high
                } else {
                    low
                },
                z: at.1,
                along: if end {
                    length
                } else {
                    0
                },
                top,
            },
        );
        assert(want[k as int] == wall_corner(bounds, view, side as int, end, top));
        k = k + 1;
    }
    assert(vertices@ =~= want);
    vertices
}

/// With the whole border in sight the walls close a loop: each ends where another
/// begins.
pub proof fn law_walls_close_a_loop(b: BorderBounds, view: Viewpoint)
    requires
        view.x - view.far <= b.min_x <= b.max_x <= view.x + view.far,
        view.z - view.far <= b.min_z <= b.max_z <= view.z + view.far,
    ensures
        wall_end(b, view, 0, true) == wall_end(b, view, 3, false),
        wall_end(b, view, 3, true) == wall_end(b, view, 2, false),
        wall_end(b, view, 2, true) == wall_end(b, view, 1, false),
        wall_end(b, view, 1, true) == wall_end(b, view, 0, false),
{
}

/// A channel scaled by a tint.
pub open spec fn tinted(value: u8, tint: u8) -> u8 {
    (value * tint / 255) as u8
}

/// A four-byte-per-pixel image with its colour channels scaled; alpha stays.
pub open spec fn tinted_pixels(pixels: Seq<u8>, color: Seq<u8>) -> Seq<u8> {
    Seq::new(
        pixels.len(),
        |i: int|
            if i % 4 < 3 && i / 4 < pixels.len() / 4 {
                tinted(pixels[i], color[i % 4])
            } else {
                pixels[i]
            },
    )
}

fn scale_channel(value: u8, tint: u8) -> (scaled: u8)
    ensures
        scaled == tinted(value, tint),
{
    assert(value * tint <= 65025) by (nonlinear_arith)
        requires
            value <= 255,
            tint <= 255,
    ;
    let product: u16 = value as u16 * tint as u16;
    (product / 255) as u8
}

/// The forcefield image in the colour of one status.
pub fn tint_pixels(pixels: &[u8], color: [u8; 3]) -> (out: Vec<u8>)
    ensures
        out@ == tinted_pixels(pixels@, color@),
{
    let whole: usize = pixels.len() / 4;
    let mut out: Vec<u8> = Vec::new();
    let mut i: usize = 0;
    while i < pixels.len()
        invariant
            i <= pixels@.len(),
            whole == pixels@.len() / 4,
            out@.len() == i,
            forall|j: int| 0 <= j < i ==> #[trigger] out@[j] == tinted_pixels(pixels@, color@)[j],
        decreases pixels@.len() - i,
    {
        let channel: usize = i % 4;
        if channel < 3 && i / 4 < whole {
            out.push(scale_channel(pixels[i], color[channel]));
        } else {
            out.push(pixels[i]);
        }
        i = i + 1;
    }
    assert(out@ =~= tinted_pixels(pixels@, color@));
    out
}

/// A white tint leaves the image as it is.
pub proof fn law_white_tint_is_identity(pixels: Seq<u8>)
    ensures
        tinted_pixels(pixels, seq![255u8, 255u8, 255u8]) == pixels,
{
    assert forall|v: u8| tinted(v, 255) == v by {
        assert(v * 255 / 255 == v);
    }
    assert(tinted_pixels(pixels, seq![255u8, 255u8, 255u8]) =~= pixels);
}

/// The nearest edge is one of the four, and none is nearer.
pub proof fn law_nearest_edge_is_nearest(b: BorderBounds, x: int, z: int)
    ensures
        ({
            let d = nearest_edge(b, x, z);
            &&& d <= x - b.min_x && d <= b.max_x - x && d <= z - b.min_z && d <= b.max_z - z
            &&& d == x - b.min_x || d == b.max_x - x || d == z - b.min_z || d == b.max_z - z
        }),
{
}

/// Seen from inside, a border shows exactly if one of its walls is closer than the
/// render distance.
pub proof fn law_borders_show_when_a_wall_is_near(
    b: BorderBounds,
    x: int,
    z: int,
    render_distance: int,
)
    requires
        b.min_x <= x <= b.max_x,
        b.min_z <= z <= b.max_z,
    ensures
        border_shows(b, x, z, render_distance) <==> x - b.min_x < render_distance || b.max_x - x
            < render_distance || z - b.min_z < render_distance || b.max_z - z < render_distance,
{
}

/// A wall is drawn if it is closer than the render distance on either side of it: the
/// south, the west, the north and the east one.
pub proof fn law_near_walls_are_drawn(b: BorderBounds, x: int, z: int, render_distance: int)
    ensures
        ({
            let sides = sides_of(b, x, z, render_distance);
            let near = |d: int| -render_distance < d < render_distance;
            &&& sides.len() == 4
            &&& sides[0] == near(b.max_z - z)
            &&& sides[1] == near(b.min_x - x)
            &&& sides[2] == near(b.min_z - z)
            &&& sides[3] == near(b.max_x - x)
        }),
{
}

/// The walls to emit are those that are drawn, each once and in order.
pub proof fn law_drawn_walls_are_emitted(sides: Seq<bool>, n: int)
    requires
        0 <= n <= sides.len() <= 4,
    ensures
        ({
            let walls = active_sides(sides, n);
            &&& forall|k: int|
                0 <= k < walls.len() ==> (#[trigger] walls[k]) < n && sides[walls[k] as int]
            &&& forall|j: int, k: int|
                0 <= j < k < walls.len() ==> (#[trigger] walls[j]) < (#[trigger] walls[k])
            &&& forall|s: usize| (s as int) < n && sides[s as int] ==> #[trigger] walls.contains(s)
        }),
    decreases n,
{
    if n > 0 {
        law_drawn_walls_are_emitted(sides, n - 1);
        let before = active_sides(sides, n - 1);
        let walls = active_sides(sides, n);
        assert forall|s: usize| (s as int) < n && sides[s as int] implies #[trigger] walls.contains(
            s,
        ) by {
            if s == n - 1 {
                assert(walls[before.len() as int] == s);
            } else {
                assert(before.contains(s));
                let k = before.index_of(s);
                assert(walls[k] == s);
            }
        }
    }
}

/// A wall stands on its own edge of the border and spans all of it that is in sight and
/// nothing else, from as far below the camera as it sees to as far above. It runs round
/// the border: east along the south, south along the west, west along the north, north
/// along the east.
pub proof fn law_walls_span_what_is_in_sight(b: BorderBounds, view: Viewpoint, at: int)
    requires
        view.wf(),
        view.far >= 0,
        in_world(b.min_x as int) && in_world(b.max_x as int),
        in_world(b.min_z as int) && in_world(b.max_z as int),
        b.min_x - view.far <= view.x <= b.max_x + view.far,
        b.min_z - view.far <= view.z <= b.max_z + view.far,
        b.min_x <= b.max_x,
        b.min_z <= b.max_z,
    ensures
        ({
            let corner = |side: int, end: bool| wall_corner(b, view, side, end, end);
            let (south, west) = (corner(0, false), corner(1, false));
            let (north, east) = (corner(2, true), corner(3, true));
            let (south_end, west_end) = (corner(0, true), corner(1, true));
            let (north_start, east_start) = (corner(2, false), corner(3, false));
            let x_seen = b.min_x <= at <= b.max_x && view.x - view.far <= at <= view.x + view.far;
            let z_seen = b.min_z <= at <= b.max_z && view.z - view.far <= at <= view.z + view.far;
            &&& south.z == b.max_z && south_end.z == b.max_z
            &&& west.x == b.min_x && west_end.x == b.min_x
            &&& north.z == b.min_z && north_start.z == b.min_z
            &&& east.x == b.max_x && east_start.x == b.max_x
            &&& x_seen <==> south.x <= at <= south_end.x
            &&& z_seen <==> west.z <= at <= west_end.z
            &&& x_seen <==> north.x <= at <= north_start.x
            &&& z_seen <==> east.z <= at <= east_start.z
            &&& south.along == 0 && west.along == 0 && north_start.along == 0 && east_start.along
                == 0
            &&& south_end.along == south_end.x - south.x
            &&& west_end.along == west_end.z - west.z
            &&& north.along == north_start.x - north.x
            &&& east.along == east_start.z - east.z
            &&& south.y == view.y - view.far && south_end.y == view.y + view.far
            &&& west.y == view.y - view.far && west_end.y == view.y + view.far
            &&& north_start.y == view.y - view.far && north.y == view.y + view.far
            &&& east_start.y == view.y - view.far && east.y == view.y + view.far
        }),
{
}

/// The two triangles of a wall share the diagonal from its lower start to its upper end:
/// each begins there, reaches one of the two other corners, and holds the far one.
pub proof fn law_walls_are_two_triangles(b: BorderBounds, view: Viewpoint, side: int, k: int)
    requires
        0 <= k < 6,
    ensures
        ({
            let vertices = Seq::new(
                6,
                |j: int| wall_corner(b, view, side, WALL_CORNERS@[j].0, WALL_CORNERS@[j].1),
            );
            vertices[k] == wall_corner(
                b,
                view,
                side,
                k == 1 || k == 2 || k == 4,
                k == 2 || k == 4 || k == 5,
            )
        }),
{
    assert(WALL_CORNERS@[0] == (false, false));
}

/// A tint scales the colour channels, rounding down, and leaves alpha alone.
pub proof fn law_tints_scale_the_colours(pixels: Seq<u8>, color: Seq<u8>, p: int, channel: int)
    requires
        0 <= p,
        4 * p + 4 <= pixels.len(),
        0 <= channel < 4,
    ensures
        tinted_pixels(pixels, color).len() == pixels.len(),
        channel == 3 ==> tinted_pixels(pixels, color)[4 * p + channel] == pixels[4 * p + channel],
        channel < 3 ==> ({
            let out = tinted_pixels(pixels, color)[4 * p + channel] as int;
            let product = pixels[4 * p + channel] * color[channel];
            255 * out <= product < 255 * out + 255
        }),
{
    let k = 4 * p + channel;
    assert(k % 4 == channel && k / 4 == p);
    if channel < 3 {
        let v = pixels[k];
        let t = color[channel];
        assert(0 <= v * t <= 65025) by (nonlinear_arith)
            requires
                0 <= v <= 255,
                0 <= t <= 255,
        ;
    }
}

/// The border shows fully at its edge and outside, and less the farther inside the camera
/// is, down to nothing at the render distance.
pub proof fn law_borders_fade_with_distance(nearest: int, render_distance: int)
    requires
        0 < render_distance,
        nearest <= render_distance,
    ensures
        nearest <= 0 ==> strength(nearest, render_distance) == render_distance,
        nearest == render_distance ==> strength(nearest, render_distance) == 0,
        0 <= nearest < render_distance ==> strength(nearest, render_distance) - strength(
            nearest + 1,
            render_distance,
        ) == 1,
{
}

/// Each status has a texture of its own: first the one at rest, then the growing and the
/// shrinking one.
pub proof fn law_statuses_have_their_texture(status: BorderStatus)
    ensures
        texture_of(status) == 0 <==> status == BorderStatus::Stationary,
        texture_of(status) == 1 <==> status == BorderStatus::Growing,
        texture_of(status) == 2 <==> status == BorderStatus::Shrinking,
{
}

} // verus!
