//! The corners of glyphs: in text on the overlay, and on signs.
use vstd::prelude::*;

use crate::mc_text::FontScale;
use crate::menu_elements::glyph_copies;
use crate::menu_elements::GlyphCopy;
use crate::menu_elements::ShaderMode;
use crate::menu_elements::MENU_CORNERS;

verus! {

/// A glyph: its place on the font atlas in texels, and its shape in 256ths of a font
/// pixel.
#[derive(Clone, Copy, Debug, PartialEq, Eq, Structural)]
pub struct GlyphShape {
    pub layer: u32,
    pub colored: bool,
    pub x: u32,
    pub y: u32,
    pub w: u32,
    pub h: u32,
    pub left: i64,
    pub top: i64,
    pub draw_w: i64,
    pub draw_h: i64,
    pub bold_offset: i64,
    pub shadow_offset: i64,
}

/// Lengths of no more than 65536 font pixels.
pub open spec fn glyph_length(v: int) -> bool {
    -0x100_0000 <= v <= 0x100_0000
}

impl GlyphShape {
    pub open spec fn wf(self) -> bool {
        &&& self.x + self.w <= u32::MAX
        &&& self.y + self.h <= u32::MAX
        &&& glyph_length(self.left as int)
        &&& glyph_length(self.top as int)
        &&& glyph_length(self.draw_w as int)
        &&& glyph_length(self.draw_h as int)
        &&& glyph_length(self.bold_offset as int)
        &&& glyph_length(self.shadow_offset as int)
    }

    /// The texel at the right or left, and at the bottom or top.
    pub open spec fn texel(self, right: bool, bottom: bool) -> (u32, u32) {
        (
            if right {
                (self.x + self.w) as u32
            } else {
                self.x
            },
            if bottom {
                (self.y + self.h) as u32
            } else {
                self.y
            },
        )
    }
}

/// How a glyph is sampled.
pub fn glyph_mode(colored: bool) -> (mode: ShaderMode)
    ensures
        mode == (if colored {
            ShaderMode::ColoredGlyph
        } else {
            ShaderMode::Glyph
        }),
{
    if colored {
        ShaderMode::ColoredGlyph
    } else {
        ShaderMode::Glyph
    }
}

/// A length of a glyph on screen. Lengths on screen are counted in parts of a pixel:
/// 1024 times the scale's denominator of them make one.
pub open spec fn on_screen(v: int, scale: FontScale) -> int {
    4 * (v * scale.num)
}

/// The parts of a pixel.
pub open spec fn pixel_parts(scale: FontScale) -> int {
    1024 * scale.den
}

/// A length rounded to whole pixels; halves go away from zero.
pub open spec fn nearest_pixel(v: int, scale: FontScale) -> int {
    let one = pixel_parts(scale);
    if v >= 0 {
        (2 * v + one) / (2 * one) * one
    } else {
        -((-2 * v + one) / (2 * one) * one)
    }
}

/// How far an edge `y` below the line's top leans to the right in italics.
pub open spec fn lean(y: int, italic: bool, scale: FontScale) -> int {
    if italic {
        (1024 - y) * scale.num
    } else {
        0
    }
}

/// A corner of a glyph in text.
#[derive(Clone, Copy, Debug, PartialEq, Eq, Structural)]
pub struct TextCorner {
    pub x: i64,
    pub y: i64,
    pub u: u32,
    pub v: u32,
    pub shadow: bool,
}

/// The place of a corner of a copy of a glyph drawn at `(ox, oy)`.
pub open spec fn corner_place(
    g: GlyphShape,
    ox: int,
    oy: int,
    scale: FontScale,
    italic: bool,
    copy: GlyphCopy,
    right: bool,
    bottom: bool,
) -> (int, int) {
    let moved = if copy.shadow {
        on_screen(g.shadow_offset as int, scale)
    } else {
        0
    };
    (
        nearest_pixel(ox + on_screen(g.left as int, scale), scale) + moved + (if copy.bold {
            on_screen(g.bold_offset as int, scale)
        } else {
            0
        }) + (if right {
            nearest_pixel(on_screen(g.draw_w as int, scale), scale)
        } else {
            0
        }) + lean(
            if bottom {
                g.top + g.draw_h
            } else {
                g.top as int
            },
            italic,
            scale,
        ),
        nearest_pixel(oy + on_screen(g.top as int, scale), scale) + moved + (if bottom {
            nearest_pixel(on_screen(g.draw_h as int, scale), scale)
        } else {
            0
        }),
    )
}

/// A corner of a copy of a glyph.
pub open spec fn text_corner(
    g: GlyphShape,
    ox: int,
    oy: int,
    scale: FontScale,
    italic: bool,
    copy: GlyphCopy,
    k: int,
) -> TextCorner {
    let right = MENU_CORNERS@[k].0;
    let bottom = MENU_CORNERS@[k].1;
    let place = corner_place(g, ox, oy, scale, italic, copy, right, bottom);
    let texel = g.texel(right, bottom);
    TextCorner {
        x: place.0 as i64,
        y: place.1 as i64,
        u: texel.0,
        v: texel.1,
        shadow: copy.shadow,
    }
}

/// The corners of a list of copies, six each.
pub open spec fn text_corners(
    g: GlyphShape,
    ox: int,
    oy: int,
    scale: FontScale,
    italic: bool,
    copies: Seq<GlyphCopy>,
) -> Seq<TextCorner> {
    Seq::new(
        (6 * copies.len()) as nat,
        |i: int| text_corner(g, ox, oy, scale, italic, copies[i / 6], i % 6),
    )
}

proof fn lemma_screen_bound(v: int, m: int, scale: FontScale)
    requires
        -m <= v <= m,
    ensures
        -0x4_0000_0000 * m <= on_screen(v, scale) <= 0x4_0000_0000 * m,
{
    assert(-0x1_0000_0000 * m <= v * scale.num <= 0x1_0000_0000 * m) by (nonlinear_arith)
        requires
            -m <= v <= m,
            0 <= scale.num <= 0xffff_ffff,
    ;
}

fn scaled(v: i64, scale: FontScale) -> (w: i64)
    requires
        glyph_length(v as int),
    ensures
        w == on_screen(v as int, scale),
        -0x400_0000_0000_0000 <= w <= 0x400_0000_0000_0000,
{
    proof {
        lemma_screen_bound(v as int, 0x100_0000, scale);
    }
    4 * (v * scale.num as i64)
}

fn rounded(v: i64, scale: FontScale) -> (w: i64)
    requires
        scale.den > 0,
        -0x800_0000_0000_0000 <= v <= 0x800_0000_0000_0000,
    ensures
        w == nearest_pixel(v as int, scale),
        -0x801_0000_0000_0000 <= w <= 0x801_0000_0000_0000,
{
    let one: i64 = 1024 * scale.den as i64;
    let size: i64 = if v >= 0 {
        v
    } else {
        -v
    };
    let count: i64 = (2 * size + one) / (2 * one);
    proof {
        let top = 2 * size + one;
        vstd::arithmetic::div_mod::lemma_fundamental_div_mod(top, 2 * one);
        vstd::arithmetic::div_mod::lemma_mod_bound(top, 2 * one);
        assert(0 <= 2 * (count * one) <= top) by (nonlinear_arith)
            requires
                top == (2 * one) * count + top % (2 * one),
                0 <= top % (2 * one) < 2 * one,
                0 <= top,
                0 < one,
        ;
    }
    if v >= 0 {
        count * one
    } else {
        -(count * one)
    }
}

fn leaning(y: i64, italic: bool, scale: FontScale) -> (w: i64)
    requires
        -0x200_0000 <= y <= 0x200_0000,
    ensures
        w == lean(y as int, italic, scale),
        -0x400_0000_0000_0000 <= w <= 0x400_0000_0000_0000,
{
    if italic {
        assert(-0x300_0000_0000_0000 <= (1024 - y) * scale.num <= 0x300_0000_0000_0000)
            by (nonlinear_arith)
            requires
                -0x300_0000 <= 1024 - y <= 0x300_0000,
                0 <= scale.num <= 0xffff_ffff,
        ;
        (1024 - y) * scale.num as i64
    } else {
        0
    }
}

/// The six corners of one copy of a glyph drawn at `(ox, oy)`.
pub fn glyph_corners(
    g: &GlyphShape,
    ox: i64,
    oy: i64,
    scale: FontScale,
    italic: bool,
    copy: GlyphCopy,
) -> (corners: Vec<TextCorner>)
    requires
        g.wf(),
        scale.den > 0,
        -0x400_0000_0000_0000 <= ox <= 0x400_0000_0000_0000,
        -0x400_0000_0000_0000 <= oy <= 0x400_0000_0000_0000,
    ensures
        corners@ == Seq::new(
            6,
            |k: int| text_corner(*g, ox as int, oy as int, scale, italic, copy, k),
        ),
{
    let left: i64 = rounded(ox + scaled(g.left, scale), scale);
    let top: i64 = rounded(oy + scaled(g.top, scale), scale);
    let width: i64 = rounded(scaled(g.draw_w, scale), scale);
    let height: i64 = rounded(scaled(g.draw_h, scale), scale);
    let lean_top: i64 = leaning(g.top, italic, scale);
    let lean_bottom: i64 = leaning(g.top + g.draw_h, italic, scale);
    let moved: i64 = if copy.shadow {
        scaled(g.shadow_offset, scale)
    } else {
        0
    };
    let x: i64 = left + moved + if copy.bold {
        scaled(g.bold_offset, scale)
    } else {
        0
    };
    let y: i64 = top + moved;
    let table = MENU_CORNERS;
    let ghost want = Seq::new(
        6,
        |k: int| text_corner(*g, ox as int, oy as int, scale, italic, copy, k),
    );
    let mut corners: Vec<TextCorner> = Vec::new();
    let mut k: usize = 0;
    while k < 6
        invariant
            k <= 6,
            g.wf(),
            table == MENU_CORNERS,
            want == Seq::new(
                6,
                |k: int| text_corner(*g, ox as int, oy as int, scale, italic, copy, k),
            ),
            width == nearest_pixel(on_screen(g.draw_w as int, scale), scale),
            height == nearest_pixel(on_screen(g.draw_h as int, scale), scale),
            lean_top == lean(g.top as int, italic, scale),
            lean_bottom == lean(g.top + g.draw_h, italic, scale),
            x == nearest_pixel(ox + on_screen(g.left as int, scale), scale) + moved + (
            if copy.bold {
                on_screen(g.bold_offset as int, scale)
            } else {
                0
            }),
            y == nearest_pixel(oy + on_screen(g.top as int, scale), scale) + moved,
            moved == (if copy.shadow {
                on_screen(g.shadow_offset as int, scale)
            } else {
                0
            }),
            -0x1001_0000_0000_0000 <= x <= 0x1001_0000_0000_0000,
            -0x1001_0000_0000_0000 <= y <= 0x1001_0000_0000_0000,
            -0x801_0000_0000_0000 <= width <= 0x801_0000_0000_0000,
            -0x801_0000_0000_0000 <= height <= 0x801_0000_0000_0000,
            -0x400_0000_0000_0000 <= lean_top <= 0x400_0000_0000_0000,
            -0x400_0000_0000_0000 <= lean_bottom <= 0x400_0000_0000_0000,
            corners@ =~= want.take(k as int),
        decreases 6 - k,
    {
        let (right, bottom) = table[k];
        corners.push(
            TextCorner {
                x: x + if right {
                    width
                } else {
                    0
                } + if bottom {
                    lean_bottom
                } else {
                    lean_top
                },
                y: y + if bottom {
                    height
                } else {
                    0
                },
                u: if right {
                    g.x + g.w
                } else {
                    g.x
                },
                v: if bottom {
                    g.y + g.h
                } else {
                    g.y
                },
                shadow: copy.shadow,
            },
        );
        assert(want[k as int] == text_corner(
            *g,
            ox as int,
            oy as int,
            scale,
            italic,
            copy,
            k as int,
        ));
        k = k + 1;
    }
    assert(corners@ =~= want);
    corners
}

/// The corners of a glyph drawn at `(ox, oy)`, shadow and bold copies among them, in
/// drawing order. `style` says whether it is bold, and italic.
pub fn push_mc_glyph_quads(
    g: &GlyphShape,
    ox: i64,
    oy: i64,
    scale: FontScale,
    style: (bool, bool),
    shadow: bool,
) -> (corners: Vec<TextCorner>)
    requires
        g.wf(),
        scale.den > 0,
        -0x400_0000_0000_0000 <= ox <= 0x400_0000_0000_0000,
        -0x400_0000_0000_0000 <= oy <= 0x400_0000_0000_0000,
    ensures
        corners@ == text_corners(
            *g,
            ox as int,
            oy as int,
            scale,
            style.1,
            crate::menu_elements::copies_of(g.w, g.h, shadow, style.0),
        ),
{
    let (bold, italic) = style;
    let copies = glyph_copies(g.w, g.h, shadow, bold);
    let ghost want = text_corners(*g, ox as int, oy as int, scale, italic, copies@);
    let mut corners: Vec<TextCorner> = Vec::new();
    let mut c: usize = 0;
    while c < copies.len()
        invariant
            c <= copies@.len(),
            g.wf(),
            scale.den > 0,
            -0x400_0000_0000_0000 <= ox <= 0x400_0000_0000_0000,
            -0x400_0000_0000_0000 <= oy <= 0x400_0000_0000_0000,
            want == text_corners(*g, ox as int, oy as int, scale, italic, copies@),
            corners@ =~= want.take(6 * c),
        decreases copies@.len() - c,
    {
        let mut six = glyph_corners(g, ox, oy, scale, italic, copies[c]);
        proof {
            assert forall|k: int| 0 <= k < 6 implies six@[k] == #[trigger] want[6 * c + k] by {
                assert((6 * c + k) / 6 == c && (6 * c + k) % 6 == k);
            }
            assert(want.take(6 * (c + 1)) =~= want.take(6 * c) + six@);
        }
        corners.append(&mut six);
        c = c + 1;
    }
    assert(corners@ =~= want);
    corners
}

/// In italics the top of a glyph stands a quarter of its height to the right of its
/// bottom.
pub proof fn law_italics_lean_a_quarter(g: GlyphShape, scale: FontScale)
    ensures
        4 * (lean(g.top as int, true, scale) - lean(g.top + g.draw_h, true, scale)) == on_screen(
            g.draw_h as int,
            scale,
        ),
{
    assert((1024 - g.top) * scale.num - (1024 - (g.top + g.draw_h)) * scale.num == g.draw_h
        * scale.num) by (nonlinear_arith);
}

/// A shadow is the glyph itself, moved down and to the right by the same amount.
pub proof fn law_shadow_is_the_glyph_moved(
    g: GlyphShape,
    ox: int,
    oy: int,
    scale: FontScale,
    italic: bool,
    bold: bool,
    right: bool,
    bottom: bool,
)
    ensures
        ({
            let own = corner_place(
                g,
                ox,
                oy,
                scale,
                italic,
                (GlyphCopy { shadow: false, bold }),
                right,
                bottom,
            );
            let cast = corner_place(
                g,
                ox,
                oy,
                scale,
                italic,
                (GlyphCopy { shadow: true, bold }),
                right,
                bottom,
            );
            let step = on_screen(g.shadow_offset as int, scale);
            cast.0 == own.0 + step && cast.1 == own.1 + step
        }),
{
}

/// The corners of a sign's glyph: right, and bottom.
pub const SIGN_CORNERS: [(bool, bool); 6] = [
    (false, false),
    (false, true),
    (true, true),
    (false, false),
    (true, true),
    (true, false),
];

/// A corner of a glyph on a sign, in 512ths of a font pixel.
#[derive(Clone, Copy, Debug, PartialEq, Eq, Structural)]
pub struct SignCorner {
    pub x: i64,
    pub y: i64,
    pub u: u32,
    pub v: u32,
}

/// Corner `k` of a glyph drawn at `(x, y)` 512ths of a font pixel on a sign.
pub open spec fn sign_corner(g: GlyphShape, x: int, y: int, k: int) -> SignCorner {
    let right = SIGN_CORNERS@[k].0;
    let bottom = SIGN_CORNERS@[k].1;
    let texel = g.texel(right, bottom);
    SignCorner {
        x: (x + 2 * (g.left + if right {
            g.draw_w as int
        } else {
            0
        })) as i64,
        y: (y + 2 * (g.top + if bottom {
            g.draw_h as int
        } else {
            0
        })) as i64,
        u: texel.0,
        v: texel.1,
    }
}

/// The corners of a glyph on a sign, after `used` vertices. One without pixels, or
/// that no longer fits the buffer, is not drawn.
pub fn push_sign_glyph(g: &GlyphShape, x: i64, y: i64, used: usize) -> (corners: Vec<SignCorner>)
    requires
        g.wf(),
        -0x400_0000_0000_0000 <= x <= 0x400_0000_0000_0000,
        -0x400_0000_0000_0000 <= y <= 0x400_0000_0000_0000,
    ensures
        corners@ == (if g.w == 0 || g.h == 0 || used + 6
            > crate::block_entity::MAX_SIGN_VERTICES {
            Seq::empty()
        } else {
            Seq::new(6, |k: int| sign_corner(*g, x as int, y as int, k))
        }),
{
    let mut corners: Vec<SignCorner> = Vec::new();
    if g.w == 0 || g.h == 0 || used > crate::block_entity::MAX_SIGN_VERTICES - 6 {
        return corners;
    }
    let table = SIGN_CORNERS;
    let ghost want = Seq::new(6, |k: int| sign_corner(*g, x as int, y as int, k));
    let mut k: usize = 0;
    while k < 6
        invariant
            k <= 6,
            g.wf(),
            -0x400_0000_0000_0000 <= x <= 0x400_0000_0000_0000,
            -0x400_0000_0000_0000 <= y <= 0x400_0000_0000_0000,
            table == SIGN_CORNERS,
            want == Seq::new(6, |k: int| sign_corner(*g, x as int, y as int, k)),
            corners@ =~= want.take(k as int),
        decreases 6 - k,
    {
        let (right, bottom) = table[k];
        corners.push(
            SignCorner {
                x: x + 2 * (g.left + if right {
                    g.draw_w
                } else {
                    0
                }),
                y: y + 2 * (g.top + if bottom {
                    g.draw_h
                } else {
                    0
                }),
                u: if right {
                    g.x + g.w
                } else {
                    g.x
                },
                v: if bottom {
                    g.y + g.h
                } else {
                    g.y
                },
            },
        );
        assert(want[k as int] == sign_corner(*g, x as int, y as int, k as int));
        k = k + 1;
    }
    assert(corners@ =~= want);
    corners
}

/// The size of a number.
pub open spec fn magnitude(v: int) -> int {
    if v < 0 {
        -v
    } else {
        v
    }
}

/// `w` is the multiple of `one` nearest to `v`, the one farther from nothing if two are.
pub open spec fn is_nearest(w: int, v: int, one: int) -> bool {
    &&& exists|count: int| w == #[trigger] (count * one)
    &&& 2 * magnitude(w - v) <= one
    &&& 2 * magnitude(w - v) == one ==> magnitude(w) > magnitude(v)
}

proof fn lemma_nearest(v: int, scale: FontScale)
    requires
        scale.den > 0,
    ensures
        is_nearest(nearest_pixel(v, scale), v, 1024 * scale.den),
{
    let one = 1024 * scale.den;
    let size = magnitude(v);
    let top = 2 * size + one;
    let count = top / (2 * one);
    vstd::arithmetic::div_mod::lemma_fundamental_div_mod(top, 2 * one);
    vstd::arithmetic::div_mod::lemma_mod_bound(top, 2 * one);
    assert((2 * one) * count == 2 * (count * one)) by (nonlinear_arith);
    assert(-(count * one) == (-count) * one) by (nonlinear_arith);
    if v >= 0 {
        assert(nearest_pixel(v, scale) == count * one);
    } else {
        assert(nearest_pixel(v, scale) == (-count) * one);
    }
}

/// An upright glyph stands on whole pixels: its corner is the pixel nearest to where
/// its shape puts it, and it is as wide and as high as the whole pixels nearest to its
/// shape's width and height.
pub proof fn law_glyphs_stand_on_whole_pixels(
    g: GlyphShape,
    ox: int,
    oy: int,
    scale: FontScale,
)
    requires
        scale.den > 0,
    ensures
        ({
            let plain = GlyphCopy { shadow: false, bold: false };
            let one = 1024 * scale.den;
            let low = corner_place(g, ox, oy, scale, false, plain, false, false);
            let high = corner_place(g, ox, oy, scale, false, plain, true, true);
            &&& is_nearest(low.0, ox + 4 * (g.left * scale.num), one)
            &&& is_nearest(low.1, oy + 4 * (g.top * scale.num), one)
            &&& is_nearest(high.0 - low.0, 4 * (g.draw_w * scale.num), one)
            &&& is_nearest(high.1 - low.1, 4 * (g.draw_h * scale.num), one)
        }),
{
    lemma_nearest(ox + on_screen(g.left as int, scale), scale);
    lemma_nearest(oy + on_screen(g.top as int, scale), scale);
    lemma_nearest(on_screen(g.draw_w as int, scale), scale);
    lemma_nearest(on_screen(g.draw_h as int, scale), scale);
}

/// A copy of a glyph is a box whose sides differ only in width and height: bold moves
/// it to the right, a shadow right and down, and italics lean its edges to the right by
/// a quarter of how far they stand above the fourth font pixel.
pub proof fn law_copies_are_the_glyph_moved(
    g: GlyphShape,
    ox: int,
    oy: int,
    scale: FontScale,
    italic: bool,
    copy: GlyphCopy,
    right: bool,
    bottom: bool,
)
    ensures
        ({
            let plain = GlyphCopy { shadow: false, bold: false };
            let low = corner_place(g, ox, oy, scale, false, plain, false, false);
            let high = corner_place(g, ox, oy, scale, false, plain, true, true);
            let edge = if bottom {
                g.top + g.draw_h
            } else {
                g.top as int
            };
            let cast: int = if copy.shadow {
                4 * (g.shadow_offset * scale.num)
            } else {
                0
            };
            let thick: int = if copy.bold {
                4 * (g.bold_offset * scale.num)
            } else {
                0
            };
            let slant: int = if italic {
                (1024 - edge) * scale.num
            } else {
                0
            };
            corner_place(g, ox, oy, scale, italic, copy, right, bottom) == (
                (if right {
                    high.0
                } else {
                    low.0
                }) + cast + thick + slant,
                (if bottom {
                    high.1
                } else {
                    low.1
                }) + cast,
            )
        }),
{
}

/// The corners of a copy in text: two triangles over the box of the glyph, and at each
/// corner the texel at the same corner of its place on the atlas.
pub proof fn law_text_corners_show_their_texels(
    g: GlyphShape,
    ox: int,
    oy: int,
    scale: FontScale,
    italic: bool,
    copies: Seq<GlyphCopy>,
    c: int,
    k: int,
)
    requires
        g.wf(),
        0 <= c < copies.len(),
        0 <= k < 6,
    ensures
        text_corners(g, ox, oy, scale, italic, copies).len() == 6 * copies.len(),
        ({
            let corner = text_corners(g, ox, oy, scale, italic, copies)[6 * c + k];
            let right = k == 1 || k == 3 || k == 4;
            let bottom = k == 2 || k == 4 || k == 5;
            let place = corner_place(g, ox, oy, scale, italic, copies[c], right, bottom);
            &&& corner.shadow == copies[c].shadow
            &&& i64::MIN <= place.0 <= i64::MAX ==> corner.x == place.0
            &&& i64::MIN <= place.1 <= i64::MAX ==> corner.y == place.1
            &&& corner.u == g.x + (if right {
                g.w
            } else {
                0
            })
            &&& corner.v == g.y + (if bottom {
                g.h
            } else {
                0
            })
        }),
{
    assert((6 * c + k) / 6 == c && (6 * c + k) % 6 == k);
    assert(MENU_CORNERS@[0] == (false, false));
}

/// The corners of a glyph on a sign: two triangles over its shape, at twice its
/// lengths, with the texel of the same corner at each.
pub proof fn law_sign_corners_show_their_texels(g: GlyphShape, x: int, y: int, k: int)
    requires
        g.wf(),
        -0x400_0000_0000_0000 <= x <= 0x400_0000_0000_0000,
        -0x400_0000_0000_0000 <= y <= 0x400_0000_0000_0000,
        0 <= k < 6,
    ensures
        ({
            let corner = sign_corner(g, x, y, k);
            let right = k == 2 || k == 4 || k == 5;
            let bottom = k == 1 || k == 2 || k == 4;
            &&& corner.x == x + 2 * g.left + (if right {
                2 * g.draw_w
            } else {
                0
            })
            &&& corner.y == y + 2 * g.top + (if bottom {
                2 * g.draw_h
            } else {
                0
            })
            &&& corner.u == g.x + (if right {
                g.w
            } else {
                0
            })
            &&& corner.v == g.y + (if bottom {
                g.h
            } else {
                0
            })
        }),
{
    assert(SIGN_CORNERS@[0] == (false, false));
}

} // verus!
