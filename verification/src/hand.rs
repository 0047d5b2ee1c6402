//! The player's arm in first person: its skin and its box.
use vstd::prelude::*;

verus! {

pub const SKIN_TEXTURE: &'static str = "minecraft/textures/entity/player/wide/steve.png";

/// Side of the skin shown where none can be loaded.
pub const FALLBACK_SKIN_SIZE: u32 = 64;

/// The colour of that skin.
pub const FALLBACK_SKIN_COLOR: [u8; 4] = [196, 161, 125, 255];

/// A skin of one colour: bytes, width and height.
pub fn fallback_skin() -> (skin: (Vec<u8>, u32, u32))
    ensures
        skin.0@ == Seq::new(64 * 64 * 4, |k: int| FALLBACK_SKIN_COLOR[k % 4]),
        skin.1 == 64,
        skin.2 == 64,
{
    let color = FALLBACK_SKIN_COLOR;
    let mut pixels: Vec<u8> = Vec::new();
    let mut k: usize = 0;
    while k < 64 * 64 * 4
        invariant
            k <= 64 * 64 * 4,
            color == FALLBACK_SKIN_COLOR,
            pixels@ =~= Seq::new(k as nat, |j: int| FALLBACK_SKIN_COLOR[j % 4]),
        decreases 64 * 64 * 4 - k,
    {
        pixels.push(color[k % 4]);
        k = k + 1;
    }
    (pixels, FALLBACK_SKIN_SIZE, FALLBACK_SKIN_SIZE)
}

/// A vertex of the arm: position in sixteenths of a block, texture position in
/// pixels of a 64-pixel skin's layout.
#[derive(Clone, Copy, Debug, PartialEq, Eq, Structural)]
pub struct ArmVertex {
    pub x: i32,
    pub y: i32,
    pub z: i32,
    pub u: u32,
    pub v: u32,
}

/// The corners of the box, on its low (`false`) or high (`true`) side of each
/// axis: first the four at low z, then the four at high z.
pub const BOX_CORNERS: [(bool, bool, bool); 8] = [
    (false, false, false),
    (true, false, false),
    (true, true, false),
    (false, true, false),
    (false, false, true),
    (true, false, true),
    (true, true, true),
    (false, true, true),
];

/// The corners of each face: shoulder, hand, outer, front, inner and back.
pub const FACE_CORNERS: [(usize, usize, usize, usize); 6] = [
    (5, 4, 0, 1),
    (2, 3, 7, 6),
    (0, 4, 7, 3),
    (1, 0, 3, 2),
    (5, 1, 2, 6),
    (4, 5, 6, 7),
];

/// The texture of each face: left column, top row, right column and bottom row.
pub const FACE_TEXELS: [(usize, usize, usize, usize); 6] = [
    (1, 0, 2, 1),
    (2, 1, 5, 0),
    (0, 1, 1, 2),
    (1, 1, 2, 2),
    (2, 1, 3, 2),
    (3, 1, 4, 2),
];

/// The corners of a quad's two triangles.
pub const QUAD_ORDER: [usize; 6] = [0, 1, 2, 0, 2, 3];

/// Rows of the texture layout.
pub const TEXEL_ROWS: [u32; 3] = [16, 20, 32];

/// Width of the arm in sixteenths.
pub open spec fn arm_width(slim: bool) -> int {
    if slim {
        3
    } else {
        4
    }
}

/// Columns of the texture layout: the unfolded box side by side, then the right
/// edge of the hand's end.
pub open spec fn texel_column(slim: bool, i: int) -> int {
    let w = arm_width(slim);
    if i == 0 {
        40
    } else if i == 1 {
        44
    } else if i == 2 {
        44 + w
    } else if i == 3 {
        48 + w
    } else if i == 4 {
        48 + 2 * w
    } else {
        44 + 2 * w
    }
}

/// The entry of a four-tuple.
pub open spec fn pick(t: (usize, usize, usize, usize), i: int) -> int {
    if i == 0 {
        t.0 as int
    } else if i == 1 {
        t.1 as int
    } else if i == 2 {
        t.2 as int
    } else {
        t.3 as int
    }
}

/// Corner `corner` of face `face`. Going round a face the texture runs right to
/// left along the top and back along the bottom.
pub open spec fn arm_vertex(slim: bool, face: int, corner: int) -> ArmVertex {
    let at = BOX_CORNERS[pick(FACE_CORNERS[face], corner)];
    let t = FACE_TEXELS[face];
    let x0 = if slim {
        -2int
    } else {
        -3int
    };
    ArmVertex {
        x: (if at.0 {
            x0 + arm_width(slim)
        } else {
            x0
        }) as i32,
        y: if at.1 {
            10
        } else {
            -2i32
        },
        z: if at.2 {
            2
        } else {
            -2i32
        },
        u: texel_column(
            slim,
            if corner == 0 || corner == 3 {
                t.2 as int
            } else {
                t.0 as int
            },
        ) as u32,
        v: TEXEL_ROWS[if corner < 2 {
            t.1 as int
        } else {
            t.3 as int
        }],
    }
}

fn column(slim: bool, i: usize) -> (u: u32)
    requires
        i < 6,
    ensures
        u == texel_column(slim, i as int),
{
    let w: u32 = if slim {
        3
    } else {
        4
    };
    if i == 0 {
        40
    } else if i == 1 {
        44
    } else if i == 2 {
        44 + w
    } else if i == 3 {
        48 + w
    } else if i == 4 {
        48 + 2 * w
    } else {
        44 + 2 * w
    }
}

fn corner_vertex(slim: bool, face: usize, corner: usize) -> (vertex: ArmVertex)
    requires
        face < 6,
        corner < 4,
    ensures
        vertex == arm_vertex(slim, face as int, corner as int),
{
    let faces = FACE_CORNERS;
    let corners = BOX_CORNERS;
    let texels = FACE_TEXELS;
    let rows = TEXEL_ROWS;
    let f = faces[face];
    let t = texels[face];
    proof {
        law_arm_stays_on_its_skin(slim, face as int, corner as int);
    }
    let at = corners[if corner == 0 {
        f.0
    } else if corner == 1 {
        f.1
    } else if corner == 2 {
        f.2
    } else {
        f.3
    }];
    let (x0, x1): (i32, i32) = if slim {
        (-2, 1)
    } else {
        (-3, 1)
    };
    ArmVertex {
        x: if at.0 {
            x1
        } else {
            x0
        },
        y: if at.1 {
            10
        } else {
            -2
        },
        z: if at.2 {
            2
        } else {
            -2
        },
        u: column(
            slim,
            if corner == 0 || corner == 3 {
                t.2
            } else {
                t.0
            },
        ),
        v: rows[if corner < 2 {
            t.1
        } else {
            t.3
        }],
    }
}

/// The arm's six faces, two triangles each.
pub fn build_arm_vertices(slim: bool) -> (vertices: Vec<ArmVertex>)
    ensures
        vertices@ == Seq::new(
            36,
            |k: int| arm_vertex(slim, k / 6, QUAD_ORDER[k % 6] as int),
        ),
{
    let order = QUAD_ORDER;
    let mut vertices: Vec<ArmVertex> = Vec::new();
    let mut k: usize = 0;
    while k < 36
        invariant
            k <= 36,
            order == QUAD_ORDER,
            vertices@ =~= Seq::new(
                k as nat,
                |j: int| arm_vertex(slim, j / 6, QUAD_ORDER[j % 6] as int),
            ),
        decreases 36 - k,
    {
        assert(QUAD_ORDER[k as int % 6] < 4);
        vertices.push(corner_vertex(slim, k / 6, order[k % 6]));
        k = k + 1;
    }
    vertices
}

/// The tables stay within each other, and the arm within its box and its part of
/// the skin.
pub proof fn law_arm_stays_on_its_skin(slim: bool, face: int, corner: int)
    requires
        0 <= face < 6,
        0 <= corner < 4,
    ensures
        0 <= pick(FACE_CORNERS[face], corner) < 8,
        FACE_TEXELS[face].0 < 6,
        FACE_TEXELS[face].2 < 6,
        FACE_TEXELS[face].1 < 3,
        FACE_TEXELS[face].3 < 3,
        40 <= arm_vertex(slim, face, corner).u <= 56,
        16 <= arm_vertex(slim, face, corner).v <= 32,
        -3 <= arm_vertex(slim, face, corner).x <= 1,
        -2 <= arm_vertex(slim, face, corner).y <= 10,
        -2 <= arm_vertex(slim, face, corner).z <= 2,
{
    assert(FACE_CORNERS[0].0 == 5);
    assert(FACE_TEXELS[0].0 == 1);
    assert(TEXEL_ROWS[0] == 16);
    assert(BOX_CORNERS[0].0 == false);
}

/// Every face is flat, and the sides of its texture have the lengths of its own
/// sides: no part of the skin is stretched.
pub proof fn law_arm_texture_is_not_stretched(slim: bool, face: int)
    requires
        0 <= face < 6,
    ensures
        ({
            let a = arm_vertex(slim, face, 0);
            let b = arm_vertex(slim, face, 1);
            let c = arm_vertex(slim, face, 2);
            let d = arm_vertex(slim, face, 3);
            &&& (a.x == b.x == c.x == d.x) || (a.y == b.y == c.y == d.y) || (a.z == b.z == c.z
                == d.z)
            &&& span(a.x - b.x) + span(a.y - b.y) + span(a.z - b.z) == span(a.u - b.u)
            &&& a.v == b.v
            &&& span(b.x - c.x) + span(b.y - c.y) + span(b.z - c.z) == span(b.v - c.v)
            &&& b.u == c.u
            &&& c.v == d.v
            &&& d.u == a.u
        }),
{
    assert(FACE_CORNERS[0].0 == 5);
    assert(FACE_TEXELS[0].0 == 1);
    assert(TEXEL_ROWS[0] == 16);
    assert(BOX_CORNERS[0].0 == false);
}

/// The size of a difference.
pub open spec fn span(d: int) -> int {
    if d < 0 {
        -d
    } else {
        d
    }
}

/// Each face lies on its own side of the box, and the skin is folded round it: along
/// the sides its rows run down the arm from shoulder to hand and its columns run on
/// from the outer side over the front and the inner side to the back, while the two
/// ends show the squares above the front and the inner side.
pub proof fn law_skin_is_folded_round_the_arm(slim: bool, corner: int)
    requires
        0 <= corner < 4,
    ensures
        ({
            let w: int = if slim {
                3
            } else {
                4
            };
            let left: int = if slim {
                -2
            } else {
                -3
            };
            let shoulder = arm_vertex(slim, 0, corner);
            let hand = arm_vertex(slim, 1, corner);
            let outer = arm_vertex(slim, 2, corner);
            let front = arm_vertex(slim, 3, corner);
            let inner = arm_vertex(slim, 4, corner);
            let back = arm_vertex(slim, 5, corner);
            &&& shoulder.y == -2 && shoulder.u == 44 + shoulder.x - left && shoulder.v == 18
                - shoulder.z
            &&& hand.y == 10 && hand.u == 44 + w + hand.x - left && hand.v == 18 - hand.z
            &&& outer.x == left && outer.u == 42 - outer.z && outer.v == 22 + outer.y
            &&& front.z == -2 && front.u == 44 + front.x - left && front.v == 22 + front.y
            &&& inner.x == left + w && inner.u == 46 + w + inner.z && inner.v == 22 + inner.y
            &&& back.z == 2 && back.u == 48 + 2 * w + left - back.x && back.v == 22 + back.y
        }),
{
    assert(FACE_CORNERS[0].0 == 5);
    assert(FACE_TEXELS[0].0 == 1);
    assert(TEXEL_ROWS[0] == 16);
    assert(BOX_CORNERS[0].0 == false);
}

/// The two triangles of a quad share a diagonal and between them touch all four
/// corners, and no two corners of a face are the same point.
pub proof fn law_arm_faces_are_whole(slim: bool, face: int, i: int, j: int)
    requires
        0 <= face < 6,
        0 <= i < j < 4,
    ensures
        ({
            let a = arm_vertex(slim, face, i);
            let b = arm_vertex(slim, face, j);
            (a.x, a.y, a.z) != (b.x, b.y, b.z)
        }),
        QUAD_ORDER@ =~= seq![0usize, 1, 2, 0, 2, 3],
{
    assert(FACE_CORNERS[0].0 == 5);
    assert(BOX_CORNERS[0].0 == false);
}

} // verus!
