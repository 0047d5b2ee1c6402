//! The interface font's atlas: rasterized glyphs laid out on shelves.
use vstd::prelude::*;

use crate::pixels::blank_pixels;
use crate::pixels::blit_image;
use crate::pixels::Stamp;

verus! {

/// Side of the square atlas in pixels.
pub const ATLAS_SIZE: u32 = 512;

pub const ICON_USER: char = '\u{f007}';

pub const ICON_LINK: char = '\u{f0c1}';

pub const ICON_PAINTBRUSH: char = '\u{f1fc}';

pub const ICON_GEAR: char = '\u{f013}';

pub const ICON_GLOBE: char = '\u{f0ac}';

pub const ICON_COMMENT: char = '\u{f075}';

pub const ICON_CODE: char = '\u{f121}';

pub const ICON_CHECK: char = '\u{f00c}';

pub const ICON_USERS: char = '\u{f0c0}';

pub const ICON_LANGUAGE: char = '\u{f1ab}';

pub const ICON_UNIVERSAL_ACCESS: char = '\u{f29a}';

/// The symbols taken from the icon font, in atlas order.
pub const ICONS: [char; 11] = [
    ICON_USER,
    ICON_LINK,
    ICON_PAINTBRUSH,
    ICON_GEAR,
    ICON_GLOBE,
    ICON_COMMENT,
    ICON_CODE,
    ICON_CHECK,
    ICON_USERS,
    ICON_LANGUAGE,
    ICON_UNIVERSAL_ACCESS,
];

/// The printable characters the atlas starts with.
pub const TEXT_CHARS: usize = 95;

/// The `i`-th character of the atlas: from space to tilde, then the icons.
pub open spec fn atlas_char(i: int) -> char {
    if i < TEXT_CHARS {
        (32 + i) as char
    } else {
        ICONS[i - TEXT_CHARS]
    }
}

/// The characters to rasterize, and whether each comes from the icon font.
pub fn atlas_chars() -> (list: Vec<(char, bool)>)
    ensures
        list@.len() == 106,
        forall|i: int|
            0 <= i < 106 ==> #[trigger] list@[i] == (atlas_char(i), i >= TEXT_CHARS),
{
    let icons = ICONS;
    let mut list: Vec<(char, bool)> = Vec::new();
    let mut code: u8 = 32;
    while code < 127
        invariant
            32 <= code <= 127,
            list@.len() == code - 32,
            forall|i: int|
                0 <= i < code - 32 ==> #[trigger] list@[i] == (atlas_char(i), i >= TEXT_CHARS),
        decreases 127 - code,
    {
        list.push((code as char, false));
        code = code + 1;
    }
    let mut i: usize = 0;
    while i < 11
        invariant
            i <= 11,
            icons == ICONS,
            list@.len() == TEXT_CHARS + i,
            forall|j: int|
                0 <= j < TEXT_CHARS + i ==> #[trigger] list@[j] == (
                    atlas_char(j),
                    j >= TEXT_CHARS,
                ),
        decreases 11 - i,
    {
        list.push((icons[i], true));
        i = i + 1;
    }
    list
}

/// A rasterized glyph: one coverage byte for each pixel.
pub struct GlyphBitmap {
    pub width: u32,
    pub height: u32,
    pub alpha: Vec<u8>,
}

impl GlyphBitmap {
    /// A glyph that fits on a shelf, with a byte for each of its pixels.
    pub open spec fn wf(self) -> bool {
        &&& self.width + 1 <= ATLAS_SIZE
        &&& self.height <= u32::MAX - 1024
        &&& self.alpha@.len() == self.width * self.height
    }
}

/// Where the next glyph would go: the cursor and the height of its shelf.
pub struct Shelf {
    pub x: int,
    pub y: int,
    pub row: int,
}

/// Opens a new shelf if a glyph `w` wide does not fit on this one.
pub open spec fn wrapped(s: Shelf, w: int) -> Shelf {
    if s.x + w + 1 > ATLAS_SIZE {
        Shelf { x: 0, y: s.y + s.row + 1, row: 0 }
    } else {
        s
    }
}

/// The cursor after the first `n` glyphs.
pub open spec fn shelf(glyphs: Seq<GlyphBitmap>, n: int) -> Shelf
    decreases n,
{
    if n <= 0 {
        Shelf { x: 0, y: 0, row: 0 }
    } else {
        let g = glyphs[n - 1];
        let at = wrapped(shelf(glyphs, n - 1), g.width as int);
        Shelf {
            x: at.x + g.width + 1,
            y: at.y,
            row: if at.row >= g.height {
                at.row
            } else {
                g.height as int
            },
        }
    }
}

/// Where glyph `i` goes.
pub open spec fn spot(glyphs: Seq<GlyphBitmap>, i: int) -> Shelf {
    wrapped(shelf(glyphs, i), glyphs[i].width as int)
}

/// Glyph `i` still fits below the shelves before it.
pub open spec fn fits(glyphs: Seq<GlyphBitmap>, i: int) -> bool {
    spot(glyphs, i).y + glyphs[i].height + 1 <= ATLAS_SIZE
}

/// White pixels whose opacity is the coverage.
pub open spec fn white(alpha: Seq<u8>) -> Seq<u8> {
    Seq::new(
        alpha.len() * 4,
        |k: int|
            if k % 4 == 3 {
                alpha[k / 4]
            } else {
                255u8
            },
    )
}

/// Glyph `i` as it is put on the atlas.
pub open spec fn glyph_stamp(glyphs: Seq<GlyphBitmap>, i: int) -> Stamp {
    let at = spot(glyphs, i);
    Stamp {
        src: white(glyphs[i].alpha@),
        x: at.x,
        y: at.y,
        w: glyphs[i].width as int,
        h: glyphs[i].height as int,
    }
}

/// The first `n` glyphs as they are put on the atlas.
pub open spec fn glyph_stamps(glyphs: Seq<GlyphBitmap>, n: int) -> Seq<Stamp> {
    Seq::new(n as nat, |i: int| glyph_stamp(glyphs, i))
}

/// All glyphs are well formed.
pub open spec fn glyphs_wf(glyphs: Seq<GlyphBitmap>) -> bool {
    forall|i: int| 0 <= i < glyphs.len() ==> (#[trigger] glyphs[i]).wf()
}

/// A glyph's place on the atlas.
#[derive(Clone, Copy, Debug, PartialEq, Eq, Structural)]
pub struct GlyphPlace {
    pub x: u32,
    pub y: u32,
    pub w: u32,
    pub h: u32,
}

/// The finished atlas; the places are those of the first glyphs, in order.
pub struct FontAtlas {
    pub places: Vec<GlyphPlace>,
    pub pixels: Vec<u8>,
}

fn white_pixels(alpha: &Vec<u8>) -> (pixels: Vec<u8>)
    ensures
        pixels@ == white(alpha@),
{
    let mut pixels: Vec<u8> = Vec::new();
    let mut i: usize = 0;
    while i < alpha.len()
        invariant
            i <= alpha@.len(),
            pixels@.len() == 4 * i,
            forall|k: int| 0 <= k < 4 * i ==> #[trigger] pixels@[k] == white(alpha@)[k],
        decreases alpha@.len() - i,
    {
        pixels.push(255);
        pixels.push(255);
        pixels.push(255);
        pixels.push(alpha[i]);
        i = i + 1;
    }
    assert(pixels@ =~= white(alpha@));
    pixels
}

proof fn lemma_cursor_bounds(glyphs: Seq<GlyphBitmap>, n: int)
    requires
        glyphs_wf(glyphs),
        0 <= n <= glyphs.len(),
        forall|i: int| 0 <= i < n ==> #[trigger] fits(glyphs, i),
    ensures
        0 <= shelf(glyphs, n).x <= ATLAS_SIZE,
        0 <= shelf(glyphs, n).y,
        0 <= shelf(glyphs, n).row,
        shelf(glyphs, n).y + shelf(glyphs, n).row < ATLAS_SIZE,
    decreases n,
{
    if n > 0 {
        lemma_cursor_bounds(glyphs, n - 1);
        assert(fits(glyphs, n - 1));
        assert(glyphs[n - 1].wf());
    }
}

/// Packs glyphs until one does not fit any more.
pub fn pack_glyphs(glyphs: &Vec<GlyphBitmap>) -> (atlas: FontAtlas)
    requires
        glyphs_wf(glyphs@),
    ensures
        atlas.places@.len() <= glyphs@.len(),
        forall|i: int| 0 <= i < atlas.places@.len() ==> #[trigger] fits(glyphs@, i),
        atlas.places@.len() < glyphs@.len() ==> !fits(glyphs@, atlas.places@.len() as int),
        forall|i: int|
            0 <= i < atlas.places@.len() ==> {
                let p = #[trigger] atlas.places@[i];
                p.x == spot(glyphs@, i).x && p.y == spot(glyphs@, i).y && p.w == glyphs@[i].width
                    && p.h == glyphs@[i].height
            },
        atlas.pixels@ == crate::pixels::stamped(
            crate::pixels::blank(512 * 512 * 4),
            512,
            glyph_stamps(glyphs@, atlas.places@.len() as int),
            atlas.places@.len() as int,
        ),
{
    let mut places: Vec<GlyphPlace> = Vec::new();
    let mut pixels = blank_pixels(512 * 512 * 4);
    let mut x: u32 = 0;
    let mut y: u32 = 0;
    let mut row: u32 = 0;
    let mut i: usize = 0;
    let mut full = false;
    let ghost stamps = glyph_stamps(glyphs@, glyphs@.len() as int);
    while i < glyphs.len() && !full
        invariant
            i <= glyphs@.len(),
            glyphs_wf(glyphs@),
            places@.len() == i,
            stamps == glyph_stamps(glyphs@, glyphs@.len() as int),
            forall|j: int| 0 <= j < i ==> #[trigger] fits(glyphs@, j),
            full ==> i < glyphs@.len() && !fits(glyphs@, i as int),
            !full ==> shelf(glyphs@, i as int) == (Shelf {
                x: x as int,
                y: y as int,
                row: row as int,
            }),
            forall|j: int|
                0 <= j < i ==> {
                    let p = #[trigger] places@[j];
                    p.x == spot(glyphs@, j).x && p.y == spot(glyphs@, j).y && p.w
                        == glyphs@[j].width && p.h == glyphs@[j].height
                },
            pixels@ == crate::pixels::stamped(
                crate::pixels::blank(512 * 512 * 4),
                512,
                stamps,
                i as int,
            ),
        decreases glyphs@.len() - i,
            if full {
                0int
            } else {
                1int
            },
    {
        proof {
            lemma_cursor_bounds(glyphs@, i as int);
            assert(glyphs@[i as int].wf());
        }
        let w: u32 = glyphs[i].width;
        let h: u32 = glyphs[i].height;
        if x + w + 1 > ATLAS_SIZE {
            x = 0;
            y = y + (row + 1);
            row = 0;
        }
        assert(spot(glyphs@, i as int) == (Shelf { x: x as int, y: y as int, row: row as int }));
        if y + h + 1 > ATLAS_SIZE {
            full = true;
        } else {
            let ghost before = pixels@;
            let src = white_pixels(&glyphs[i].alpha);
            proof {
                assert(h * w * 4 <= 512 * 512 * 4) by (nonlinear_arith)
                    requires
                        0 <= h <= 512,
                        0 <= w <= 512,
                ;
                crate::pixels::blit_of(ATLAS_SIZE, w, x, y, w, h).lemma_inside(512);
                assert(stamps[i as int] == glyph_stamp(glyphs@, i as int));
            }
            blit_image(&mut pixels, ATLAS_SIZE, src.as_slice(), w, x, y, w, h);
            places.push(GlyphPlace { x, y, w, h });
            if h > row {
                row = h;
            }
            x = x + (w + 1);
            i = i + 1;
            assert(fits(glyphs@, i - 1));
        }
    }
    proof {
        crate::pixels::lemma_stamped_prefix(
            crate::pixels::blank(512 * 512 * 4),
            512,
            stamps,
            glyph_stamps(glyphs@, i as int),
            i as int,
        );
    }
    FontAtlas { places, pixels }
}

/// Where the cursor stands relative to a glyph that was placed earlier.
proof fn lemma_cursor_passes(glyphs: Seq<GlyphBitmap>, a: int, n: int)
    requires
        glyphs_wf(glyphs),
        0 <= a < n <= glyphs.len(),
        forall|i: int| 0 <= i < n ==> #[trigger] fits(glyphs, i),
    ensures
        ({
            let s = shelf(glyphs, n);
            let g = spot(glyphs, a);
            ||| s.y == g.y && s.x >= g.x + glyphs[a].width + 1 && s.row >= glyphs[a].height
            ||| s.y >= g.y + glyphs[a].height + 1
        }),
    decreases n,
{
    lemma_cursor_bounds(glyphs, n - 1);
    if a < n - 1 {
        lemma_cursor_passes(glyphs, a, n - 1);
    }
}

/// The glyphs lie inside the atlas, and no two of them overlap.
pub proof fn law_glyphs_are_apart(glyphs: Seq<GlyphBitmap>, n: int)
    requires
        glyphs_wf(glyphs),
        0 <= n <= glyphs.len(),
        forall|i: int| 0 <= i < n ==> #[trigger] fits(glyphs, i),
    ensures
        forall|i: int| 0 <= i < n ==> (#[trigger] glyph_stamp(glyphs, i)).inside(512),
        forall|a: int, b: int|
            0 <= a < b < n ==> crate::pixels::apart(
                #[trigger] glyph_stamp(glyphs, a),
                #[trigger] glyph_stamp(glyphs, b),
            ),
{
    assert forall|i: int| 0 <= i < n implies (#[trigger] glyph_stamp(glyphs, i)).inside(512) by {
        lemma_cursor_bounds(glyphs, i);
        assert(fits(glyphs, i));
        assert(glyphs[i].wf());
        assert(white(glyphs[i].alpha@).len() == glyphs[i].width * glyphs[i].height * 4);
    }
    assert forall|a: int, b: int| 0 <= a < b < n implies crate::pixels::apart(
        #[trigger] glyph_stamp(glyphs, a),
        #[trigger] glyph_stamp(glyphs, b),
    ) by {
        lemma_cursor_passes(glyphs, a, b);
        lemma_cursor_bounds(glyphs, b);
    }
}

/// Each placed glyph can be read back from the atlas: at every pixel of its
/// place the atlas is white with the glyph's own coverage.
pub proof fn law_glyphs_read_back(glyphs: Seq<GlyphBitmap>, n: int, i: int, col: int, row: int)
    requires
        glyphs_wf(glyphs),
        0 <= i < n <= glyphs.len(),
        forall|j: int| 0 <= j < n ==> #[trigger] fits(glyphs, j),
        0 <= col < glyphs[i].width,
        0 <= row < glyphs[i].height,
    ensures
        ({
            let atlas = crate::pixels::stamped(
                crate::pixels::blank(512 * 512 * 4),
                512,
                glyph_stamps(glyphs, n),
                n,
            );
            let at = crate::pixels::offset(512, spot(glyphs, i).x + col, spot(glyphs, i).y + row);
            &&& atlas[at] == 255 && atlas[at + 1] == 255 && atlas[at + 2] == 255
            &&& atlas[at + 3] == glyphs[i].alpha@[row * glyphs[i].width + col]
        }),
{
    let stamps = glyph_stamps(glyphs, n);
    let canvas = crate::pixels::blank(512 * 512 * 4);
    law_glyphs_are_apart(glyphs, n);
    assert forall|a: int| 0 <= a < stamps.len() implies (#[trigger] stamps[a]).inside(512) by {
        assert(stamps[a] == glyph_stamp(glyphs, a));
    }
    assert forall|a: int, b: int| 0 <= a < b < stamps.len() implies crate::pixels::apart(
        #[trigger] stamps[a],
        #[trigger] stamps[b],
    ) by {
        assert(crate::pixels::apart(glyph_stamp(glyphs, a), glyph_stamp(glyphs, b)));
    }
    assert(stamps[i] == glyph_stamp(glyphs, i));
    crate::pixels::law_stamps_read_back(canvas, 512, stamps, n, i, col, row, 0);
    crate::pixels::law_stamps_read_back(canvas, 512, stamps, n, i, col, row, 1);
    crate::pixels::law_stamps_read_back(canvas, 512, stamps, n, i, col, row, 2);
    crate::pixels::law_stamps_read_back(canvas, 512, stamps, n, i, col, row, 3);
    let g = glyphs[i];
    assert(0 <= row * g.width + col < g.width * g.height) by (nonlinear_arith)
        requires
            0 <= col < g.width,
            0 <= row < g.height,
    ;
    assert(g.wf());
}

/// The atlas has the printable characters from the space on, then the icons in the order
/// of their names.
pub proof fn law_atlas_holds_text_before_icons(i: int)
    requires
        0 <= i < 106,
    ensures
        i < 95 ==> atlas_char(i) as int == 32 + i,
        i >= 95 ==> atlas_char(i) as int == seq![
            0xf007int,
            0xf0c1,
            0xf1fc,
            0xf013,
            0xf0ac,
            0xf075,
            0xf121,
            0xf00c,
            0xf0c0,
            0xf1ab,
            0xf29a,
        ][i - 95],
{
    assert(ICONS@[0] == ICON_USER);
}

proof fn lemma_shelf_is_as_high_as_its_tallest(glyphs: Seq<GlyphBitmap>, n: int)
    requires
        0 < n <= glyphs.len(),
    ensures
        shelf(glyphs, n).y == spot(glyphs, n - 1).y,
        forall|j: int|
            0 <= j < n && (#[trigger] spot(glyphs, j)).y == shelf(glyphs, n).y ==> glyphs[j].height
                <= shelf(glyphs, n).row,
        exists|j: int|
            0 <= j < n && (#[trigger] spot(glyphs, j)).y == shelf(glyphs, n).y && (glyphs[j].height
                == shelf(glyphs, n).row),
        forall|j: int| 0 <= j < n ==> (#[trigger] spot(glyphs, j)).y <= shelf(glyphs, n).y,
    decreases n,
{
    let here = spot(glyphs, n - 1);
    if n > 1 {
        lemma_shelf_is_as_high_as_its_tallest(glyphs, n - 1);
        let before = shelf(glyphs, n - 1);
        let tallest = choose|j: int|
            0 <= j < n - 1 && (#[trigger] spot(glyphs, j)).y == before.y && glyphs[j].height
                == before.row;
        if shelf(glyphs, n).row == glyphs[n - 1].height {
            assert(spot(glyphs, n - 1).y == shelf(glyphs, n).y);
        } else {
            assert(here.y == before.y);
            assert(spot(glyphs, tallest).y == shelf(glyphs, n).y);
        }
    } else {
        assert(spot(glyphs, 0).y == shelf(glyphs, 1).y);
    }
}

/// Glyphs stand side by side on shelves, a pixel apart, the first in the upper left
/// corner. A new shelf is begun only where the glyph does not fit on the old one, a pixel
/// below the tallest glyph of that.
pub proof fn law_glyphs_stand_on_shelves(glyphs: Seq<GlyphBitmap>, i: int)
    requires
        glyphs_wf(glyphs),
        0 <= i < glyphs.len() - 1,
    ensures
        spot(glyphs, 0).x == 0,
        spot(glyphs, 0).y == 0,
        ({
            let a = spot(glyphs, i);
            let b = spot(glyphs, i + 1);
            let beside = a.x + glyphs[i].width + 1;
            if beside + glyphs[i + 1].width + 1 <= 512 {
                b.y == a.y && b.x == beside
            } else {
                &&& b.x == 0
                &&& forall|j: int|
                    0 <= j <= i && (#[trigger] spot(glyphs, j)).y == a.y ==> b.y > a.y
                        + glyphs[j].height
                &&& exists|j: int|
                    0 <= j <= i && (#[trigger] spot(glyphs, j)).y == a.y && b.y == a.y
                        + glyphs[j].height + 1
            }
        }),
        fits(glyphs, i) <==> spot(glyphs, i).y + glyphs[i].height < 512,
{
    assert(glyphs[0].wf());
    lemma_shelf_is_as_high_as_its_tallest(glyphs, i + 1);
    let s = shelf(glyphs, i + 1);
    let a = spot(glyphs, i);
    let b = spot(glyphs, i + 1);
    let tallest = choose|j: int|
        0 <= j < i + 1 && (#[trigger] spot(glyphs, j)).y == s.y && glyphs[j].height == s.row;
    assert(spot(glyphs, tallest).y == a.y);
}

} // verus!
