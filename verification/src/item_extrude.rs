//! Flat item sprites given a thickness: front, back, and a wall along every edge of
//! the silhouette.
use vstd::prelude::*;

use crate::item_mesh::pack_light_tint;
use crate::item_mesh::Direction;

verus! {

/// Which pixels of a sprite can be seen, in each frame of its animation.
pub struct AlphaMask {
    pub width: u32,
    pub height: u32,
    pub frames: Vec<Vec<bool>>,
}

impl AlphaMask {
    /// A flag for each pixel of each frame, in a sprite of moderate size.
    pub open spec fn wf(self) -> bool {
        &&& self.width <= 0x4000
        &&& self.height <= 0x4000
        &&& forall|f: int|
            0 <= f < self.frames@.len() ==> (#[trigger] self.frames@[f])@.len() == self.width
                * self.height
    }

    /// A pixel can be seen; nothing outside the sprite can.
    pub open spec fn visible(self, frame: int, x: int, y: int) -> bool {
        0 <= x < self.width && 0 <= y < self.height && self.frames@[frame]@[y * self.width + x]
    }

    /// In some frame a pixel can be seen and its neighbour cannot.
    pub open spec fn exposed(self, x: int, y: int, nx: int, ny: int) -> bool {
        exists|f: int| 0 <= f < self.frames@.len() && #[trigger] self.exposed_in(f, x, y, nx, ny)
    }

    /// In this frame a pixel can be seen and its neighbour cannot.
    pub open spec fn exposed_in(self, f: int, x: int, y: int, nx: int, ny: int) -> bool {
        self.visible(f, x, y) && !self.visible(f, nx, ny)
    }

    fn is_visible(&self, frame: usize, x: i32, y: i32) -> (seen: bool)
        requires
            self.wf(),
            frame < self.frames@.len(),
        ensures
            seen == self.visible(frame as int, x as int, y as int),
    {
        if x < 0 || y < 0 || x as u32 >= self.width || y as u32 >= self.height {
            return false;
        }
        proof {
            assert(0 <= y * self.width + x < self.width * self.height) by (nonlinear_arith)
                requires
                    0 <= x < self.width,
                    0 <= y < self.height,
            ;
            assert(self.width * self.height <= 0x4000 * 0x4000) by (nonlinear_arith)
                requires
                    self.width <= 0x4000,
                    self.height <= 0x4000,
            ;
            assert(0 <= y * self.width) by (nonlinear_arith)
                requires
                    0 <= y,
                    0 <= self.width,
            ;
            assert(self.frames@[frame as int]@.len() == self.width * self.height);
        }
        let at: u32 = y as u32 * self.width + x as u32;
        self.frames[frame][at as usize]
    }

    /// Whether some frame shows the edge between a pixel and its neighbour.
    pub fn has_exposed_edge(&self, x: i32, y: i32, nx: i32, ny: i32) -> (seen: bool)
        requires
            self.wf(),
        ensures
            seen == self.exposed(x as int, y as int, nx as int, ny as int),
    {
        let mut f: usize = 0;
        while f < self.frames.len()
            invariant
                self.wf(),
                f <= self.frames@.len(),
                forall|g: int|
                    0 <= g < f ==> !#[trigger] self.exposed_in(
                        g,
                        x as int,
                        y as int,
                        nx as int,
                        ny as int,
                    ),
            decreases self.frames@.len() - f,
        {
            if self.is_visible(f, x, y) && !self.is_visible(f, nx, ny) {
                assert(self.exposed_in(f as int, x as int, y as int, nx as int, ny as int));
                return true;
            }
            f = f + 1;
        }
        false
    }
}

/// A vertex of a sprite's mesh. `x` counts half pixels from the middle of the sprite
/// to the right, `y` upwards, `z` thirty-seconds of a block towards the viewer; `u`
/// and `v` are tenths of a pixel from the sprite's left and top.
#[derive(Clone, Copy, Debug, PartialEq, Eq, Structural)]
pub struct SpriteVertex {
    pub x: i32,
    pub y: i32,
    pub z: i32,
    pub u: i32,
    pub v: i32,
    pub light_tint: u32,
    pub normal: Direction,
}

/// The sides of a pixel, in the order their walls are made.
#[derive(Clone, Copy, Debug, PartialEq, Eq, Structural)]
pub enum Side {
    Top,
    Bottom,
    Left,
    Right,
}

/// The corners of a wall's two triangles.
pub open spec fn wall_corner(k: int) -> int {
    if k == 0 || k == 3 {
        0
    } else if k == 1 {
        1
    } else if k == 2 || k == 4 {
        2
    } else {
        3
    }
}

/// Light of a wall, of 255.
pub const WALL_LIGHT: u8 = 204;

/// Light of the front and the back.
pub const FULL_LIGHT: u8 = 255;

/// Where a light and a colour are packed.
pub open spec fn packed(light: u8, rgb: (u8, u8, u8)) -> u32 {
    (light + 256 * rgb.0 + 65536 * rgb.1 + 16777216 * rgb.2) as u32
}

/// The direction a side looks in.
pub open spec fn side_normal(side: Side) -> Direction {
    match side {
        Side::Top => Direction::Up,
        Side::Bottom => Direction::Down,
        Side::Left => Direction::West,
        Side::Right => Direction::East,
    }
}

/// Corner `c` of the wall on one side of pixel (`px`, `py`). The first two corners
/// stand over one end of the edge, the last two over the other; the texture is
/// taken from inside the pixel.
pub open spec fn wall_vertex(
    w: int,
    h: int,
    px: int,
    py: int,
    side: Side,
    c: int,
    rgb: (u8, u8, u8),
) -> SpriteVertex {
    let left = 2 * px - w;
    let right = left + 2;
    let bottom = h - 2 * py - 2;
    let top = bottom + 2;
    let u0 = 10 * px + 1;
    let u1 = 10 * px + 9;
    let v0 = 10 * py + 1;
    let v1 = 10 * py + 9;
    let first = c < 2;
    let (x, y) = match side {
        Side::Top => (
            if first {
                left
            } else {
                right
            },
            top,
        ),
        Side::Bottom => (
            if first {
                right
            } else {
                left
            },
            bottom,
        ),
        Side::Left => (
            left,
            if first {
                bottom
            } else {
                top
            },
        ),
        Side::Right => (
            right,
            if first {
                top
            } else {
                bottom
            },
        ),
    };
    let (u, v) = match side {
        Side::Top => (
            if c < 2 {
                u0
            } else {
                u1
            },
            if c == 0 || c == 3 {
                v0
            } else {
                v1
            },
        ),
        Side::Bottom => (
            if c < 2 {
                u1
            } else {
                u0
            },
            if c == 0 || c == 3 {
                v1
            } else {
                v0
            },
        ),
        Side::Left => (
            if c == 0 || c == 3 {
                u1
            } else {
                u0
            },
            if c < 2 {
                v1
            } else {
                v0
            },
        ),
        Side::Right => (
            if c == 0 || c == 3 {
                u0
            } else {
                u1
            },
            if c < 2 {
                v0
            } else {
                v1
            },
        ),
    };
    SpriteVertex {
        x: x as i32,
        y: y as i32,
        z: if c == 0 || c == 3 {
            -1i32
        } else {
            1
        },
        u: u as i32,
        v: v as i32,
        light_tint: packed(WALL_LIGHT, rgb),
        normal: side_normal(side),
    }
}

/// The wall on one side of a pixel.
pub open spec fn wall(w: int, h: int, px: int, py: int, side: Side, rgb: (u8, u8, u8)) -> Seq<
    SpriteVertex,
> {
    Seq::new(6, |k: int| wall_vertex(w, h, px, py, side, wall_corner(k), rgb))
}

/// The neighbour beyond a side.
pub open spec fn neighbour(px: int, py: int, side: Side) -> (int, int) {
    match side {
        Side::Top => (px, py - 1),
        Side::Bottom => (px, py + 1),
        Side::Left => (px - 1, py),
        Side::Right => (px + 1, py),
    }
}

/// A side of a pixel has a wall.
pub open spec fn has_wall(mask: AlphaMask, px: int, py: int, side: Side) -> bool {
    mask.exposed(px, py, neighbour(px, py, side).0, neighbour(px, py, side).1)
}

/// The wall on one side of a pixel, where there is one.
pub open spec fn wall_if(mask: AlphaMask, px: int, py: int, side: Side, rgb: (u8, u8, u8)) -> Seq<
    SpriteVertex,
> {
    if has_wall(mask, px, py, side) {
        wall(mask.width as int, mask.height as int, px, py, side, rgb)
    } else {
        Seq::empty()
    }
}

/// The walls of a pixel.
pub open spec fn pixel_walls(mask: AlphaMask, px: int, py: int, rgb: (u8, u8, u8)) -> Seq<
    SpriteVertex,
> {
    wall_if(mask, px, py, Side::Top, rgb) + wall_if(mask, px, py, Side::Bottom, rgb) + wall_if(
        mask,
        px,
        py,
        Side::Left,
        rgb,
    ) + wall_if(mask, px, py, Side::Right, rgb)
}

/// The walls of the first `n` pixels, row by row.
pub open spec fn walls(mask: AlphaMask, rgb: (u8, u8, u8), n: int) -> Seq<SpriteVertex>
    decreases n,
{
    if n <= 0 {
        Seq::empty()
    } else {
        let w = mask.width as int;
        walls(mask, rgb, n - 1) + pixel_walls(mask, (n - 1) % w, (n - 1) / w, rgb)
    }
}

/// The corners of the front's triangles: right, and top.
pub const FRONT_CORNERS: [(bool, bool); 6] = [
    (false, false),
    (true, false),
    (true, true),
    (false, false),
    (true, true),
    (false, true),
];

/// A vertex of the front, or of the back, which is seen from behind: its corners run
/// the other way across, and show the same part of the sprite at the same place.
pub open spec fn plane_vertex(w: int, h: int, back: bool, k: int, rgb: (u8, u8, u8)) -> SpriteVertex {
    let right = FRONT_CORNERS[k].0 != back;
    let top = FRONT_CORNERS[k].1;
    SpriteVertex {
        x: (if right {
            w
        } else {
            -w
        }) as i32,
        y: (if top {
            h
        } else {
            -h
        }) as i32,
        z: if back {
            -1i32
        } else {
            1
        },
        u: (if right {
            10 * w
        } else {
            0
        }) as i32,
        v: (if top {
            0
        } else {
            10 * h
        }) as i32,
        light_tint: packed(FULL_LIGHT, rgb),
        normal: if back {
            Direction::North
        } else {
            Direction::South
        },
    }
}

/// The front or the back.
pub open spec fn plane(w: int, h: int, back: bool, rgb: (u8, u8, u8)) -> Seq<SpriteVertex> {
    Seq::new(6, |k: int| plane_vertex(w, h, back, k, rgb))
}

/// The mesh of a sprite.
pub open spec fn extruded(mask: AlphaMask, rgb: (u8, u8, u8)) -> Seq<SpriteVertex> {
    plane(mask.width as int, mask.height as int, false, rgb) + plane(
        mask.width as int,
        mask.height as int,
        true,
        rgb,
    ) + walls(mask, rgb, mask.width * mask.height)
}

fn push_plane(vertices: &mut Vec<SpriteVertex>, w: i32, h: i32, back: bool, rgb: (u8, u8, u8))
    requires
        0 <= w <= 0x4000,
        0 <= h <= 0x4000,
    ensures
        final(vertices)@ == old(vertices)@ + plane(w as int, h as int, back, rgb),
{
    let corners = FRONT_CORNERS;
    let light_tint = pack_light_tint(FULL_LIGHT, rgb);
    let ghost before = vertices@;
    let mut k: usize = 0;
    assert(vertices@ =~= before + plane(w as int, h as int, back, rgb).take(0));
    while k < 6
        invariant
            k <= 6,
            corners == FRONT_CORNERS,
            light_tint == packed(FULL_LIGHT, rgb),
            0 <= w <= 0x4000,
            0 <= h <= 0x4000,
            vertices@ == before + plane(w as int, h as int, back, rgb).take(k as int),
        decreases 6 - k,
    {
        let right = corners[k].0 != back;
        let top = corners[k].1;
        vertices.push(
            SpriteVertex {
                x: if right {
                    w
                } else {
                    -w
                },
                y: if top {
                    h
                } else {
                    -h
                },
                z: if back {
                    -1
                } else {
                    1
                },
                u: if right {
                    10 * w
                } else {
                    0
                },
                v: if top {
                    0
                } else {
                    10 * h
                },
                light_tint,
                normal: if back {
                    Direction::North
                } else {
                    Direction::South
                },
            },
        );
        k = k + 1;
        assert(vertices@ =~= before + plane(w as int, h as int, back, rgb).take(k as int));
    }
    assert(plane(w as int, h as int, back, rgb).take(6) =~= plane(w as int, h as int, back, rgb));
}

fn corner_of_wall(
    w: i32,
    h: i32,
    px: i32,
    py: i32,
    side: Side,
    c: u8,
    rgb: (u8, u8, u8),
) -> (vertex: SpriteVertex)
    requires
        0 <= px < w <= 0x4000,
        0 <= py < h <= 0x4000,
        c < 4,
    ensures
        vertex == wall_vertex(w as int, h as int, px as int, py as int, side, c as int, rgb),
{
    let left: i32 = 2 * px - w;
    let right: i32 = left + 2;
    let bottom: i32 = h - 2 * py - 2;
    let top: i32 = bottom + 2;
    let u0: i32 = 10 * px + 1;
    let u1: i32 = 10 * px + 9;
    let v0: i32 = 10 * py + 1;
    let v1: i32 = 10 * py + 9;
    let first = c < 2;
    let outer = c == 0 || c == 3;
    let (x, y, u, v, normal): (i32, i32, i32, i32, Direction) = match side {
        Side::Top => (
            if first {
                left
            } else {
                right
            },
            top,
            if first {
                u0
            } else {
                u1
            },
            if outer {
                v0
            } else {
                v1
            },
            Direction::Up,
        ),
        Side::Bottom => (
            if first {
                right
            } else {
                left
            },
            bottom,
            if first {
                u1
            } else {
                u0
            },
            if outer {
                v1
            } else {
                v0
            },
            Direction::Down,
        ),
        Side::Left => (
            left,
            if first {
                bottom
            } else {
                top
            },
            if outer {
                u1
            } else {
                u0
            },
            if first {
                v1
            } else {
                v0
            },
            Direction::West,
        ),
        Side::Right => (
            right,
            if first {
                top
            } else {
                bottom
            },
            if outer {
                u0
            } else {
                u1
            },
            if first {
                v0
            } else {
                v1
            },
            Direction::East,
        ),
    };
    SpriteVertex {
        x,
        y,
        z: if outer {
            -1
        } else {
            1
        },
        u,
        v,
        light_tint: pack_light_tint(WALL_LIGHT, rgb),
        normal,
    }
}

fn push_wall(
    vertices: &mut Vec<SpriteVertex>,
    mask: &AlphaMask,
    px: i32,
    py: i32,
    side: Side,
    rgb: (u8, u8, u8),
)
    requires
        mask.wf(),
        0 <= px < mask.width,
        0 <= py < mask.height,
    ensures
        final(vertices)@ == old(vertices)@ + wall_if(*mask, px as int, py as int, side, rgb),
{
    let (nx, ny): (i32, i32) = match side {
        Side::Top => (px, py - 1),
        Side::Bottom => (px, py + 1),
        Side::Left => (px - 1, py),
        Side::Right => (px + 1, py),
    };
    let ghost before = vertices@;
    if mask.has_exposed_edge(px, py, nx, ny) {
        let w: i32 = mask.width as i32;
        let h: i32 = mask.height as i32;
        let a = corner_of_wall(w, h, px, py, side, 0, rgb);
        let b = corner_of_wall(w, h, px, py, side, 1, rgb);
        let c = corner_of_wall(w, h, px, py, side, 2, rgb);
        let d = corner_of_wall(w, h, px, py, side, 3, rgb);
        vertices.push(a);
        vertices.push(b);
        vertices.push(c);
        vertices.push(a);
        vertices.push(c);
        vertices.push(d);
        assert(vertices@ =~= before + wall(
            w as int,
            h as int,
            px as int,
            py as int,
            side,
            rgb,
        ));
    } else {
        assert(vertices@ =~= before + wall_if(*mask, px as int, py as int, side, rgb));
    }
}

/// Gives a sprite thickness, tinted with one colour.
pub fn build_extruded_item_mask(mask: &AlphaMask, rgb: (u8, u8, u8)) -> (vertices: Vec<SpriteVertex>)
    requires
        mask.wf(),
    ensures
        vertices@ == extruded(*mask, rgb),
{
    let w: u32 = mask.width;
    let h: u32 = mask.height;
    let mut vertices: Vec<SpriteVertex> = Vec::new();
    push_plane(&mut vertices, w as i32, h as i32, false, rgb);
    push_plane(&mut vertices, w as i32, h as i32, true, rgb);
    let ghost planes = plane(w as int, h as int, false, rgb) + plane(w as int, h as int, true, rgb);
    assert(vertices@ =~= planes);
    proof {
        assert(0 <= w * h <= 0x4000 * 0x4000) by (nonlinear_arith)
            requires
                0 <= w <= 0x4000,
                0 <= h <= 0x4000,
        ;
    }
    let total: u32 = w * h;
    let mut n: u32 = 0;
    assert(vertices@ =~= planes + walls(*mask, rgb, 0));
    while n < total
        invariant
            n <= total,
            total == w * h,
            w == mask.width,
            h == mask.height,
            mask.wf(),
            vertices@ == planes + walls(*mask, rgb, n as int),
        decreases total - n,
    {
        proof {
            crate::pixels::lemma_grid(n as int, w as int, h as int);
        }
        let px: i32 = (n % w) as i32;
        let py: i32 = (n / w) as i32;
        let ghost before = vertices@;
        push_wall(&mut vertices, mask, px, py, Side::Top, rgb);
        push_wall(&mut vertices, mask, px, py, Side::Bottom, rgb);
        push_wall(&mut vertices, mask, px, py, Side::Left, rgb);
        push_wall(&mut vertices, mask, px, py, Side::Right, rgb);
        n = n + 1;
        assert(vertices@ =~= planes + walls(*mask, rgb, n as int)) by {
            assert(vertices@ =~= before + pixel_walls(*mask, px as int, py as int, rgb));
        }
    }
    vertices
}

/// The flat quad shown where a sprite's mask is not known.
pub fn build_flat_quad(rgb: (u8, u8, u8)) -> (vertices: Vec<SpriteVertex>)
    ensures
        vertices@.len() == 6,
        forall|k: int|
            0 <= k < 6 ==> #[trigger] vertices@[k] == (SpriteVertex {
                z: 0,
                ..plane_vertex(1, 1, false, k, rgb)
            }),
{
    let mut vertices: Vec<SpriteVertex> = Vec::new();
    push_plane(&mut vertices, 1, 1, false, rgb);
    assert(vertices@ =~= plane(1, 1, false, rgb));
    let ghost given = vertices@;
    let mut k: usize = 0;
    while k < 6
        invariant
            k <= 6,
            vertices@.len() == 6,
            given == plane(1, 1, false, rgb),
            forall|j: int| k <= j < 6 ==> vertices@[j] == given[j],
            forall|j: int|
                0 <= j < k ==> #[trigger] vertices@[j] == (SpriteVertex {
                    z: 0,
                    ..plane_vertex(1, 1, false, j, rgb)
                }),
        decreases 6 - k,
    {
        let mut vertex = vertices[k];
        assert(vertex == given[k as int]);
        assert(given[k as int] == plane_vertex(1, 1, false, k as int, rgb));
        vertex.z = 0;
        vertices.set(k, vertex);
        k = k + 1;
    }
    vertices
}

/// How far the turn from one triangle edge to the next points along a direction.
pub open spec fn turn(a: SpriteVertex, b: SpriteVertex, c: SpriteVertex, d: Direction) -> int {
    let (ax, ay, az) = (b.x - a.x, b.y - a.y, b.z - a.z);
    let (bx, by, bz) = (c.x - a.x, c.y - a.y, c.z - a.z);
    match d {
        Direction::Down => ax * bz - az * bx,
        Direction::Up => az * bx - ax * bz,
        Direction::North => ay * bx - ax * by,
        Direction::South => ax * by - ay * bx,
        Direction::West => az * by - ay * bz,
        Direction::East => ay * bz - az * by,
    }
}

/// Both triangles of every wall, and of the front and the back, are wound so that
/// they are seen from outside, along their normals.
pub proof fn law_faces_wind_outward(
    w: int,
    h: int,
    px: int,
    py: int,
    side: Side,
    rgb: (u8, u8, u8),
    back: bool,
)
    requires
        0 <= px < w <= 0x4000,
        0 <= py < h <= 0x4000,
    ensures
        ({
            let q = wall(w, h, px, py, side, rgb);
            &&& turn(q[0], q[1], q[2], q[0].normal) > 0
            &&& turn(q[3], q[4], q[5], q[0].normal) > 0
        }),
        ({
            let q = plane(w, h, back, rgb);
            &&& turn(q[0], q[1], q[2], q[0].normal) > 0
            &&& turn(q[3], q[4], q[5], q[0].normal) > 0
        }),
{
    assert(FRONT_CORNERS[0].0 == false);
    let q = plane(w, h, back, rgb);
    lemma_plane_turn(q[0], q[1], q[2], w, h, back);
    lemma_plane_turn(q[3], q[4], q[5], w, h, back);
    let q = wall(w, h, px, py, side, rgb);
    lemma_wall_turn(q[0], q[1], q[2], side);
    lemma_wall_turn(q[3], q[4], q[5], side);
}

proof fn lemma_plane_turn(
    a: SpriteVertex,
    b: SpriteVertex,
    c: SpriteVertex,
    w: int,
    h: int,
    back: bool,
)
    requires
        0 < w,
        0 < h,
        b.x - a.x == (if back {
            -2 * w
        } else {
            2 * w
        }),
        c.y - a.y == 2 * h,
        b.y == a.y || c.x == a.x,
    ensures
        turn(
            a,
            b,
            c,
            if back {
                Direction::North
            } else {
                Direction::South
            },
        ) > 0,
{
    let (ax, ay) = (b.x - a.x, b.y - a.y);
    let (bx, by) = (c.x - a.x, c.y - a.y);
    if back {
        assert(ay * bx - ax * by > 0) by (nonlinear_arith)
            requires
                ax == -2 * w,
                by == 2 * h,
                ay == 0 || bx == 0,
                0 < w,
                0 < h,
        ;
    } else {
        assert(ax * by - ay * bx > 0) by (nonlinear_arith)
            requires
                ax == 2 * w,
                by == 2 * h,
                ay == 0 || bx == 0,
                0 < w,
                0 < h,
        ;
    }
}

proof fn lemma_wall_turn(a: SpriteVertex, b: SpriteVertex, c: SpriteVertex, side: Side)
    requires
        ({
            let (ax, ay, az) = (b.x - a.x, b.y - a.y, b.z - a.z);
            let (bx, by, bz) = (c.x - a.x, c.y - a.y, c.z - a.z);
            &&& az == 2
            &&& match side {
                Side::Top => bx == 2 && (ax == 0 || bz == 0),
                Side::Bottom => bx == -2 && (ax == 0 || bz == 0),
                Side::Left => by == 2 && (ay == 0 || bz == 0),
                Side::Right => by == -2 && (ay == 0 || bz == 0),
            }
        }),
    ensures
        turn(a, b, c, side_normal(side)) > 0,
{
    let (ax, ay, az) = (b.x - a.x, b.y - a.y, b.z - a.z);
    let (bx, by, bz) = (c.x - a.x, c.y - a.y, c.z - a.z);
    assert(ax == 0 || bz == 0 ==> ax * bz == 0) by (nonlinear_arith);
    assert(ay == 0 || bz == 0 ==> ay * bz == 0) by (nonlinear_arith);
    assert(az * bx == 2 * bx && az * by == 2 * by) by (nonlinear_arith)
        requires
            az == 2,
    ;
}

/// The mesh lies inside the sprite's box, takes its texture from inside the sprite,
/// and is made of whole quads.
pub proof fn law_mesh_stays_in_its_box(mask: AlphaMask, rgb: (u8, u8, u8), n: int, k: int)
    requires
        mask.wf(),
        0 <= n <= mask.width * mask.height,
    ensures
        walls(mask, rgb, n).len() % 6 == 0,
        0 <= k < walls(mask, rgb, n).len() ==> {
            let v = walls(mask, rgb, n)[k];
            &&& -mask.width <= v.x <= mask.width
            &&& -mask.height <= v.y <= mask.height
            &&& 0 < v.u < 10 * mask.width
            &&& 0 < v.v < 10 * mask.height
        },
{
    lemma_whole_quads(mask, rgb, n);
    if 0 <= k < walls(mask, rgb, n).len() {
        let w = mask.width as int;
        let h = mask.height as int;
        let (p, side, i) = lemma_wall_source(mask, rgb, n, k);
        if w == 0 {
            assert(w * h == 0) by (nonlinear_arith)
                requires
                    w == 0,
            ;
        }
        crate::pixels::lemma_grid(p, w, h);
        law_walls_stand_on_their_pixel(w, h, p % w, p / w, side, rgb, i);
    }
}

proof fn lemma_whole_quads(mask: AlphaMask, rgb: (u8, u8, u8), n: int)
    ensures
        walls(mask, rgb, n).len() % 6 == 0,
    decreases n,
{
    if n > 0 {
        lemma_whole_quads(mask, rgb, n - 1);
    }
}

/// The wall on a side of a pixel stands on that edge of the pixel as the front shows it:
/// it reaches from one end of the edge to the other and from the back to the front, in
/// two triangles that share a diagonal. The front shows the point `(x, y)` where its
/// texture is `u = 5 (x + w)`, `v = 5 (h - y)`; a wall's own texture is of the same
/// pixel, a tenth of it away from its edges, and runs along the edge as the front's does.
pub proof fn law_walls_stand_on_their_pixel(
    w: int,
    h: int,
    px: int,
    py: int,
    side: Side,
    rgb: (u8, u8, u8),
    k: int,
)
    requires
        0 <= px < w <= 0x4000,
        0 <= py < h <= 0x4000,
        0 <= k < 6,
    ensures
        wall(w, h, px, py, side, rgb).len() == 6,
        ({
            let q = wall(w, h, px, py, side, rgb);
            let c = q[k];
            // Where the front shows the corner.
            let (u, v) = (5 * (c.x + w), 5 * (h - c.y));
            &&& match side {
                Side::Top => v == 10 * py && c.normal == Direction::Up,
                Side::Bottom => v == 10 * py + 10 && c.normal == Direction::Down,
                Side::Left => u == 10 * px && c.normal == Direction::West,
                Side::Right => u == 10 * px + 10 && c.normal == Direction::East,
            }
            &&& u == 10 * px || u == 10 * px + 10
            &&& v == 10 * py || v == 10 * py + 10
            &&& c.z == -1 || c.z == 1
            &&& c.u == 10 * px + 1 || c.u == 10 * px + 9
            &&& c.v == 10 * py + 1 || c.v == 10 * py + 9
            &&& side is Top || side is Bottom ==> (c.u == 10 * px + 1 <==> u == 10 * px)
            &&& side is Left || side is Right ==> (c.v == 10 * py + 1 <==> v == 10 * py)
            // A light of 204 and the tint, a byte each.
            &&& c.light_tint == 204 + rgb.0 * 0x100 + rgb.1 * 0x1_0000 + rgb.2 * 0x100_0000
            // Both triangles have the ends of one diagonal, and each one end of the other.
            &&& q[3] == q[0] && q[4] == q[2]
            &&& q[0].z == q[5].z && q[1].z == q[2].z && q[0].z == -q[1].z
            &&& q[0].x == q[1].x && q[0].y == q[1].y && q[2].x == q[5].x && q[2].y == q[5].y
            &&& q[0].x != q[2].x || q[0].y != q[2].y
        }),
{
    let c = wall(w, h, px, py, side, rgb)[k];
    assert(c == wall_vertex(w, h, px, py, side, wall_corner(k), rgb));
}

/// Whether a frame shows a pixel: its flags run along the rows from the top, and nothing
/// outside the sprite is shown.
pub open spec fn frame_shows(mask: AlphaMask, f: int, x: int, y: int) -> bool {
    0 <= x < mask.width && 0 <= y < mask.height && mask.frames@[f]@[x + y * mask.width]
}

/// Some frame shows a pixel but not what lies beyond one of its sides: above it, below it,
/// to its left or to its right.
pub open spec fn edge_shows(mask: AlphaMask, px: int, py: int, side: Side) -> bool {
    exists|f: int|
        0 <= f < mask.frames@.len() && #[trigger] frame_shows(mask, f, px, py) && !(match side {
            Side::Top => frame_shows(mask, f, px, py - 1),
            Side::Bottom => frame_shows(mask, f, px, py + 1),
            Side::Left => frame_shows(mask, f, px - 1, py),
            Side::Right => frame_shows(mask, f, px + 1, py),
        })
}

proof fn lemma_edges_agree(mask: AlphaMask, px: int, py: int, side: Side)
    ensures
        edge_shows(mask, px, py, side) == has_wall(mask, px, py, side),
{
    let (nx, ny) = neighbour(px, py, side);
    if edge_shows(mask, px, py, side) {
        let f = choose|f: int|
            0 <= f < mask.frames@.len() && #[trigger] frame_shows(mask, f, px, py) && !(match side {
                Side::Top => frame_shows(mask, f, px, py - 1),
                Side::Bottom => frame_shows(mask, f, px, py + 1),
                Side::Left => frame_shows(mask, f, px - 1, py),
                Side::Right => frame_shows(mask, f, px + 1, py),
            });
        assert(mask.exposed_in(f, px, py, nx, ny));
    }
    if has_wall(mask, px, py, side) {
        let f = choose|f: int|
            0 <= f < mask.frames@.len() && #[trigger] mask.exposed_in(f, px, py, nx, ny);
        assert(frame_shows(mask, f, px, py));
        assert(frame_shows(mask, f, nx, ny) == mask.visible(f, nx, ny));
    }
}

/// Six vertices of the mesh, from `k` on, are the wall on a side of a pixel.
pub open spec fn stands_at(
    mask: AlphaMask,
    rgb: (u8, u8, u8),
    k: int,
    px: int,
    py: int,
    side: Side,
) -> bool {
    &&& 0 <= k <= extruded(mask, rgb).len() - 6
    &&& forall|i: int|
        0 <= i < 6 ==> #[trigger] extruded(mask, rgb)[k + i] == wall(
            mask.width as int,
            mask.height as int,
            px,
            py,
            side,
            rgb,
        )[i]
}

proof fn lemma_wall_in_pixel(mask: AlphaMask, rgb: (u8, u8, u8), px: int, py: int, side: Side) -> (k: int)
    requires
        has_wall(mask, px, py, side),
    ensures
        0 <= k <= pixel_walls(mask, px, py, rgb).len() - 6,
        k % 6 == 0,
        forall|i: int|
            0 <= i < 6 ==> #[trigger] pixel_walls(mask, px, py, rgb)[k + i] == wall(
                mask.width as int,
                mask.height as int,
                px,
                py,
                side,
                rgb,
            )[i],
{
    let top = wall_if(mask, px, py, Side::Top, rgb);
    let bottom = wall_if(mask, px, py, Side::Bottom, rgb);
    let left = wall_if(mask, px, py, Side::Left, rgb);
    match side {
        Side::Top => 0,
        Side::Bottom => top.len() as int,
        Side::Left => (top.len() + bottom.len()) as int,
        Side::Right => (top.len() + bottom.len() + left.len()) as int,
    }
}

proof fn lemma_wall_among(
    mask: AlphaMask,
    rgb: (u8, u8, u8),
    n: int,
    p: int,
    side: Side,
) -> (k: int)
    requires
        0 <= p < n,
        has_wall(mask, p % mask.width as int, p / mask.width as int, side),
    ensures
        0 <= k <= walls(mask, rgb, n).len() - 6,
        forall|i: int|
            0 <= i < 6 ==> #[trigger] walls(mask, rgb, n)[k + i] == wall(
                mask.width as int,
                mask.height as int,
                p % mask.width as int,
                p / mask.width as int,
                side,
                rgb,
            )[i],
    decreases n,
{
    let w = mask.width as int;
    let before = walls(mask, rgb, n - 1);
    let here = pixel_walls(mask, (n - 1) % w, (n - 1) / w, rgb);
    if p == n - 1 {
        let j = lemma_wall_in_pixel(mask, rgb, p % w, p / w, side);
        assert forall|i: int| 0 <= i < 6 implies #[trigger] walls(mask, rgb, n)[before.len() + j + i]
            == wall(w, mask.height as int, p % w, p / w, side, rgb)[i] by {
            assert(here[j + i] == wall(w, mask.height as int, p % w, p / w, side, rgb)[i]);
        }
        before.len() + j
    } else {
        let k = lemma_wall_among(mask, rgb, n - 1, p, side);
        assert forall|i: int| 0 <= i < 6 implies #[trigger] walls(mask, rgb, n)[k + i] == wall(
            w,
            mask.height as int,
            p % w,
            p / w,
            side,
            rgb,
        )[i] by {
            assert(walls(mask, rgb, n)[k + i] == before[k + i]);
        }
        k
    }
}

proof fn lemma_wall_source(mask: AlphaMask, rgb: (u8, u8, u8), n: int, k: int) -> (at: (int, Side, int))
    requires
        0 <= n,
        0 <= k < walls(mask, rgb, n).len(),
    ensures
        0 <= at.0 < n,
        0 <= at.2 < 6,
        has_wall(mask, at.0 % mask.width as int, at.0 / mask.width as int, at.1),
        walls(mask, rgb, n)[k] == wall(
            mask.width as int,
            mask.height as int,
            at.0 % mask.width as int,
            at.0 / mask.width as int,
            at.1,
            rgb,
        )[at.2],
    decreases n,
{
    let w = mask.width as int;
    let before = walls(mask, rgb, n - 1);
    if k < before.len() {
        lemma_wall_source(mask, rgb, n - 1, k)
    } else {
        let (px, py) = ((n - 1) % w, (n - 1) / w);
        let top = wall_if(mask, px, py, Side::Top, rgb).len() as int;
        let bottom = wall_if(mask, px, py, Side::Bottom, rgb).len() as int;
        let left = wall_if(mask, px, py, Side::Left, rgb).len() as int;
        let j = k - before.len();
        if j < top {
            (n - 1, Side::Top, j)
        } else if j < top + bottom {
            (n - 1, Side::Bottom, j - top)
        } else if j < top + bottom + left {
            (n - 1, Side::Left, j - top - bottom)
        } else {
            (n - 1, Side::Right, j - top - bottom - left)
        }
    }
}

/// Wherever some frame shows a pixel but not its neighbour, the mesh has a wall between
/// them.
pub proof fn law_every_edge_has_a_wall(mask: AlphaMask, rgb: (u8, u8, u8), px: int, py: int, side: Side)
    requires
        mask.wf(),
        0 <= px < mask.width,
        0 <= py < mask.height,
        edge_shows(mask, px, py, side),
    ensures
        exists|k: int| #[trigger] stands_at(mask, rgb, k, px, py, side),
{
    let w = mask.width as int;
    let h = mask.height as int;
    lemma_edges_agree(mask, px, py, side);
    let p = px + py * w;
    assert(0 <= p < w * h) by (nonlinear_arith)
        requires
            p == px + py * w,
            0 <= px < w,
            0 <= py < h,
    ;
    vstd::arithmetic::div_mod::lemma_fundamental_div_mod_converse(p, w, py, px);
    let j = lemma_wall_among(mask, rgb, w * h, p, side);
    assert forall|i: int| 0 <= i < 6 implies #[trigger] extruded(mask, rgb)[12 + j + i] == wall(
        w,
        h,
        px,
        py,
        side,
        rgb,
    )[i] by {
        assert(extruded(mask, rgb)[12 + j + i] == walls(mask, rgb, w * h)[j + i]);
    }
    assert(stands_at(mask, rgb, 12 + j, px, py, side));
}

/// Behind its front and its back, six vertices each, the mesh is made of nothing but walls
/// on edges that some frame shows.
pub proof fn law_walls_stand_on_edges_only(mask: AlphaMask, rgb: (u8, u8, u8), k: int)
    requires
        mask.wf(),
        12 <= k < extruded(mask, rgb).len(),
    ensures
        exists|px: int, py: int, side: Side, i: int|
            0 <= px < mask.width && 0 <= py < mask.height && 0 <= i < 6 && edge_shows(
                mask,
                px,
                py,
                side,
            ) && extruded(mask, rgb)[k] == #[trigger] wall(
                mask.width as int,
                mask.height as int,
                px,
                py,
                side,
                rgb,
            )[i],
{
    let w = mask.width as int;
    let h = mask.height as int;
    assert(extruded(mask, rgb)[k] == walls(mask, rgb, w * h)[k - 12]);
    if w == 0 {
        assert(w * h == 0) by (nonlinear_arith)
            requires
                w == 0,
        ;
    } else if h == 0 {
        assert(w * h == 0) by (nonlinear_arith)
            requires
                h == 0,
        ;
    }
    let (p, side, i) = lemma_wall_source(mask, rgb, w * h, k - 12);
    crate::pixels::lemma_grid(p, w, h);
    lemma_edges_agree(mask, p % w, p / w, side);
    assert(extruded(mask, rgb)[k] == wall(w, h, p % w, p / w, side, rgb)[i]);
}

/// The front and the back show the whole sprite upright, at the same place seen from
/// either side: each corner is one of the sprite's, the four of them all occur, and its
/// texture is the sprite's own there. The front stands a thirty-second of a block before
/// the middle and the back as far behind it, and both are fully lit.
pub proof fn law_planes_show_the_sprite(mask: AlphaMask, rgb: (u8, u8, u8), k: int)
    requires
        mask.wf(),
        0 <= k < 12,
    ensures
        extruded(mask, rgb).len() >= 12,
        ({
            let (w, h) = (mask.width as int, mask.height as int);
            let c = extruded(mask, rgb)[k];
            let from = if k < 6 {
                0int
            } else {
                6
            };
            let q = |i: int| extruded(mask, rgb)[from + i];
            &&& c.x == -w || c.x == w
            &&& c.y == -h || c.y == h
            &&& c.u == 5 * (c.x + w)
            &&& c.v == 5 * (h - c.y)
            &&& c.z == if k < 6 {
                1int
            } else {
                -1
            }
            &&& c.normal == if k < 6 {
                Direction::South
            } else {
                Direction::North
            }
            &&& c.light_tint == 255 + rgb.0 * 0x100 + rgb.1 * 0x1_0000 + rgb.2 * 0x100_0000
            &&& q(3) == q(0) && q(4) == q(2)
            &&& q(1).x == -q(0).x && q(1).y == q(0).y
            &&& q(2).x == -q(0).x && q(2).y == -q(0).y
            &&& q(5).x == q(0).x && q(5).y == -q(0).y
        }),
{
    let (w, h) = (mask.width as int, mask.height as int);
    assert(w * h >= 0) by (nonlinear_arith)
        requires
            0 <= w,
            0 <= h,
    ;
    let all = extruded(mask, rgb);
    assert forall|i: int| 0 <= i < 12 implies #[trigger] all[i] == plane_vertex(
        w,
        h,
        i >= 6,
        if i < 6 {
            i
        } else {
            i - 6
        },
        rgb,
    ) by {}
    assert(FRONT_CORNERS[0] == (false, false) && FRONT_CORNERS[1] == (true, false)
        && FRONT_CORNERS[2] == (true, true) && FRONT_CORNERS[3] == (false, false)
        && FRONT_CORNERS[4] == (true, true) && FRONT_CORNERS[5] == (false, true));
}

} // verus!
