//! The text on signs: which glyphs fit, where they go, and in which ink.
use vstd::prelude::*;

use crate::block_entity::BlockEntityKind;
use crate::block_entity_draw::fit_line;
use crate::block_entity_draw::plan_sign_line;
use crate::block_entity_draw::sign_ink;
use crate::block_entity_draw::GlyphSize;
use crate::block_entity_draw::SignInk;
use crate::block_entity_draw::SignQuad;
use crate::glyph_quads::GlyphShape;
use crate::mc_text::same_number;

verus! {

/// The width of a line, in 256ths of a font pixel.
pub const SIGN_LINE_WIDTH: i64 = 23_040;

/// Quads the vertex buffer holds.
pub const MAX_SIGN_QUADS: usize = 10_922;

/// A glyph of a line, and how far it moves the next one on.
#[derive(Clone, Copy, Debug, PartialEq, Eq, Structural)]
pub struct SignGlyph {
    pub shape: GlyphShape,
    pub advance: i64,
}

/// A dye's red, green and blue, as the bits of single-precision numbers.
#[derive(Clone, Copy, Debug, PartialEq, Eq, Structural)]
pub struct Dye {
    pub r: u32,
    pub g: u32,
    pub b: u32,
}

/// The red and the green of the black dye, 29 of 255, as bits.
pub const BLACK_RED: u32 = 0x3de8_e8e9;

/// The blue of the black dye, 33 of 255, as bits.
pub const BLACK_BLUE: u32 = 0x3e04_8485;

/// A dye is the black one.
pub open spec fn dyed_black(dye: Dye) -> bool {
    crate::mc_text::equal_numbers(dye.r, BLACK_RED) && crate::mc_text::equal_numbers(
        dye.g,
        BLACK_RED,
    ) && crate::mc_text::equal_numbers(dye.b, BLACK_BLUE)
}

/// Whether a dye is the black one.
pub fn is_black(dye: Dye) -> (black: bool)
    ensures
        black == dyed_black(dye),
{
    same_number(dye.r, BLACK_RED) && same_number(dye.g, BLACK_RED) && same_number(
        dye.b,
        BLACK_BLUE,
    )
}

/// The text on a side of a sign.
pub struct SignSide {
    pub lines: Vec<Vec<SignGlyph>>,
    pub dye: Dye,
    pub glowing: bool,
}

/// A block entity that may be a sign with text.
pub struct SignItem {
    pub kind: BlockEntityKind,
    pub front: Option<SignSide>,
    pub back: Option<SignSide>,
    /// Close enough for an outline.
    pub near: bool,
}

/// A side that is drawn: which block entity's, and whether its front.
#[derive(Clone, Copy, Debug, PartialEq, Eq, Structural)]
pub struct SidePick {
    pub item: usize,
    pub front: bool,
}

/// The sides with text of a block entity: none but a sign has any, and the front goes
/// before the back.
pub open spec fn sides_of(item: SignItem, i: int) -> Seq<SidePick> {
    if item.kind != BlockEntityKind::Sign {
        Seq::empty()
    } else {
        (if item.front is Some {
            seq![SidePick { item: i as usize, front: true }]
        } else {
            Seq::empty()
        }) + (if item.back is Some {
            seq![SidePick { item: i as usize, front: false }]
        } else {
            Seq::empty()
        })
    }
}

/// The sides with text of the first `n` block entities.
pub open spec fn all_sides(items: Seq<SignItem>, n: int) -> Seq<SidePick>
    decreases n,
{
    if n <= 0 {
        Seq::empty()
    } else {
        all_sides(items, n - 1) + sides_of(items[n - 1], n - 1)
    }
}

/// A picked side has text.
pub open spec fn picked(items: Seq<SignItem>, pick: SidePick) -> bool {
    &&& pick.item < items.len()
    &&& items[pick.item as int].kind == BlockEntityKind::Sign
    &&& pick.front ==> items[pick.item as int].front is Some
    &&& !pick.front ==> items[pick.item as int].back is Some
}

/// The sides that are drawn, in order.
pub fn sign_sides(items: &Vec<SignItem>) -> (sides: Vec<SidePick>)
    ensures
        sides@ == all_sides(items@, items@.len() as int),
        forall|k: int| 0 <= k < sides@.len() ==> picked(items@, #[trigger] sides@[k]),
{
    let mut sides: Vec<SidePick> = Vec::new();
    let mut i: usize = 0;
    while i < items.len()
        invariant
            i <= items@.len(),
            sides@ == all_sides(items@, i as int),
            forall|k: int| 0 <= k < sides@.len() ==> picked(items@, #[trigger] sides@[k]),
        decreases items@.len() - i,
    {
        let ghost before = sides@;
        if items[i].kind == BlockEntityKind::Sign {
            if items[i].front.is_some() {
                sides.push(SidePick { item: i, front: true });
            }
            if items[i].back.is_some() {
                sides.push(SidePick { item: i, front: false });
            }
        }
        assert(sides@ =~= before + sides_of(items@[i as int], i as int));
        i = i + 1;
    }
    sides
}

/// A picked side as it is drawn.
pub open spec fn face_of(items: Seq<SignItem>, pick: SidePick) -> SignFace {
    let item = items[pick.item as int];
    let side = if pick.front {
        item.front->0
    } else {
        item.back->0
    };
    SignFace {
        lines: side.lines,
        black: dyed_black(side.dye),
        glowing: side.glowing,
        near: item.near,
    }
}

/// The sides that are drawn.
pub open spec fn drawn_faces(items: Seq<SignItem>) -> Seq<SignFace> {
    all_sides(items, items.len() as int).map_values(|pick: SidePick| face_of(items, pick))
}

/// One side of a sign with text on it.
pub struct SignFace {
    pub lines: Vec<Vec<SignGlyph>>,
    /// Dyed black.
    pub black: bool,
    pub glowing: bool,
    /// Close enough for an outline.
    pub near: bool,
}

/// A quad of a glyph: the side, line and glyph it is of, its place in 512ths of a font
/// pixel from the side's middle, and whether it takes the dark colour.
#[derive(Clone, Copy, Debug, PartialEq, Eq, Structural)]
pub struct SignGlyphQuad {
    pub face: usize,
    pub row: usize,
    pub glyph: usize,
    pub x: i64,
    pub y: i64,
    pub dark: bool,
}

/// The advances of a line.
pub open spec fn advances_of(line: Seq<SignGlyph>) -> Seq<i64> {
    line.map_values(|g: SignGlyph| g.advance)
}

/// `n` glyphs of a line are shown: those before the first that would reach past its
/// width.
pub open spec fn fits(line: Seq<SignGlyph>, n: int) -> bool {
    let advances = advances_of(line);
    &&& 0 <= n <= line.len()
    &&& n <= 256
    &&& forall|k: int|
        0 <= k <= n ==> #[trigger] crate::block_entity_draw::width_of(advances, k)
            <= SIGN_LINE_WIDTH
    &&& n < line.len() && n < 256 ==> crate::block_entity_draw::width_of(advances, n + 1)
        > SIGN_LINE_WIDTH
}

/// The glyphs of a line that are shown.
pub open spec fn shown_count(line: Seq<SignGlyph>) -> int {
    choose|n: int| fits(line, n)
}

/// The sizes of the shown glyphs.
pub open spec fn sizes_of(line: Seq<SignGlyph>, n: int) -> Seq<GlyphSize> {
    Seq::new(
        n as nat,
        |i: int| GlyphSize { width: line[i].shape.w, height: line[i].shape.h },
    )
}

/// Whether a side is outlined.
pub open spec fn outlined(face: SignFace) -> bool {
    face.glowing && (face.black || face.near)
}

/// A quad in its place: lines are centred, ten pixels apart, the third one in the
/// middle. The copies of an outline are dark, and so is text that does not glow.
pub open spec fn placed(
    line: Seq<SignGlyph>,
    n: int,
    face: int,
    row: int,
    glowing: bool,
    q: SignQuad,
) -> SignGlyphQuad {
    let advances = advances_of(line);
    SignGlyphQuad {
        face: face as usize,
        row: row as usize,
        glyph: q.glyph,
        x: (2 * crate::block_entity_draw::width_of(advances, q.glyph as int)
            - crate::block_entity_draw::width_of(advances, n) + q.dx * 256) as i64,
        y: ((row * 10 - 20) * 512 + q.dy * 256) as i64,
        dark: !glowing || q.dx != 0 || q.dy != 0,
    }
}

/// The quads of a line.
pub open spec fn line_of(face: SignFace, f: int, row: int) -> Seq<SignGlyphQuad> {
    let line = face.lines@[row]@;
    let n = shown_count(line);
    crate::block_entity_draw::line_quads(sizes_of(line, n), outlined(face)).map_values(
        |q: SignQuad| placed(line, n, f, row, face.glowing, q),
    )
}

/// The quads of the first `n` lines of a side.
pub open spec fn lines_of(face: SignFace, f: int, n: int) -> Seq<SignGlyphQuad>
    decreases n,
{
    if n <= 0 {
        Seq::empty()
    } else {
        lines_of(face, f, n - 1) + line_of(face, f, n - 1)
    }
}

/// The quads of the first `n` sides.
pub open spec fn faces_of(faces: Seq<SignFace>, n: int) -> Seq<SignGlyphQuad>
    decreases n,
{
    if n <= 0 {
        Seq::empty()
    } else {
        faces_of(faces, n - 1) + lines_of(
            faces[n - 1],
            n - 1,
            faces[n - 1].lines@.len() as int,
        )
    }
}

/// As many quads as the buffer holds.
pub open spec fn kept(quads: Seq<SignGlyphQuad>) -> Seq<SignGlyphQuad> {
    if quads.len() <= MAX_SIGN_QUADS {
        quads
    } else {
        quads.take(MAX_SIGN_QUADS as int)
    }
}

/// A line shows one number of glyphs only.
proof fn lemma_fits_once(line: Seq<SignGlyph>, a: int, b: int)
    requires
        fits(line, a),
        fits(line, b),
    ensures
        a == b,
{
    let advances = advances_of(line);
    if a < b {
        assert(crate::block_entity_draw::width_of(advances, a + 1) <= SIGN_LINE_WIDTH);
    }
    if b < a {
        assert(crate::block_entity_draw::width_of(advances, b + 1) <= SIGN_LINE_WIDTH);
    }
}

proof fn lemma_quads_bounded(glyphs: Seq<GlyphSize>, n: int)
    requires
        0 <= n <= glyphs.len(),
        glyphs.len() <= usize::MAX,
    ensures
        forall|k: int|
            0 <= k < crate::block_entity_draw::outline_quads(glyphs, n).len() ==> quad_ok(
                #[trigger] crate::block_entity_draw::outline_quads(glyphs, n)[k],
                n,
            ),
        forall|k: int|
            0 <= k < crate::block_entity_draw::face_quads(glyphs, n).len() ==> quad_ok(
                #[trigger] crate::block_entity_draw::face_quads(glyphs, n)[k],
                n,
            ),
    decreases n,
{
    if n > 0 {
        lemma_quads_bounded(glyphs, n - 1);
        let below = crate::block_entity_draw::outline_quads(glyphs, n - 1);
        let all = crate::block_entity_draw::outline_quads(glyphs, n);
        assert forall|k: int| 0 <= k < all.len() implies quad_ok(#[trigger] all[k], n) by {
            if k < below.len() {
                assert(quad_ok(below[k], n - 1));
            } else {
                let c = k - below.len();
                assert(all[k] == crate::block_entity_draw::outline_copies((n - 1) as usize, 8)[c]);
                assert(0 <= c < 8);
            }
        }
        let above = crate::block_entity_draw::face_quads(glyphs, n - 1);
        let faces = crate::block_entity_draw::face_quads(glyphs, n);
        assert forall|k: int| 0 <= k < faces.len() implies quad_ok(#[trigger] faces[k], n) by {
            if k < above.len() {
                assert(quad_ok(above[k], n - 1));
            }
        }
    }
}

/// A quad of one of the first `n` glyphs, half a pixel away at most.
pub open spec fn quad_ok(q: SignQuad, n: int) -> bool {
    q.glyph < n && -1 <= q.dx <= 1 && -1 <= q.dy <= 1
}

fn push_sign_line(
    line: &Vec<SignGlyph>,
    ink: SignInk,
    f: usize,
    row: usize,
    quads: &mut Vec<SignGlyphQuad>,
    Ghost(face): Ghost<SignFace>,
    Ghost(all): Ghost<Seq<SignGlyphQuad>>,
)
    requires
        row < face.lines@.len() <= 0x4_0000_0000_0000,
        line_ok(line@),
        *line == face.lines@[row as int],
        ink.full_bright == face.glowing,
        ink.outline == outlined(face),
        old(quads)@ == kept(all),
    ensures
        final(quads)@ == kept(all + line_of(face, f as int, row as int)),
{
    let mut advances: Vec<i64> = Vec::new();
    let mut i: usize = 0;
    while i < line.len()
        invariant
            i <= line@.len(),
            advances@ =~= advances_of(line@).take(i as int),
        decreases line@.len() - i,
    {
        advances.push(line[i].advance);
        i = i + 1;
    }
    assert(advances@ =~= advances_of(line@));
    assert forall|i: int| 0 <= i < advances@.len() implies crate::block_entity_draw::small_advance(
        #[trigger] advances@[i],
    ) by {
        assert(crate::block_entity_draw::small_advance(line@[i].advance));
    }
    let (n, width) = fit_line(advances.as_slice(), SIGN_LINE_WIDTH);
    proof {
        assert(fits(line@, n as int));
        lemma_fits_once(line@, shown_count(line@), n as int);
    }
    let mut sizes: Vec<GlyphSize> = Vec::new();
    let mut lefts: Vec<i64> = Vec::new();
    let mut left: i64 = 0;
    i = 0;
    while i < n
        invariant
            i <= n <= line@.len(),
            n <= 256,
            advances@ == advances_of(line@),
            line_ok(line@),
            -0x100_0000_0000 * i <= left <= 0x100_0000_0000 * i,
            left == crate::block_entity_draw::width_of(advances@, i as int),
            sizes@ =~= sizes_of(line@, n as int).take(i as int),
            lefts@.len() == i,
            forall|k: int|
                0 <= k < i ==> #[trigger] lefts@[k] == crate::block_entity_draw::width_of(
                    advances@,
                    k,
                ) && -0x1_0000_0000_0000 <= lefts@[k] <= 0x1_0000_0000_0000,
        decreases n - i,
    {
        assert(crate::block_entity_draw::small_advance(line@[i as int].advance));
        let g = line[i];
        sizes.push(GlyphSize { width: g.shape.w, height: g.shape.h });
        lefts.push(left);
        assert(advances@[i as int] == g.advance);
        left = left + g.advance;
        i = i + 1;
    }
    assert(sizes@ =~= sizes_of(line@, n as int));
    let flat = plan_sign_line(sizes.as_slice(), ink.outline, quads.len() * 6);
    let ghost every = crate::block_entity_draw::line_quads(sizes@, ink.outline);
    let ghost want = line_of(face, f as int, row as int);
    proof {
        lemma_quads_bounded(sizes@, n as int);
        assert forall|k: int| 0 <= k < every.len() implies quad_ok(#[trigger] every[k], n as int) by {
            let below = crate::block_entity_draw::outline_quads(sizes@, n as int);
            let above = crate::block_entity_draw::face_quads(sizes@, n as int);
            if ink.outline {
                if k < below.len() {
                    assert(quad_ok(below[k], n as int));
                } else {
                    assert(quad_ok(above[k - below.len()], n as int));
                }
            } else {
                assert(quad_ok(above[k], n as int));
            }
        }
    }
    let ghost before = quads@;
    let mut k: usize = 0;
    while k < flat.len()
        invariant
            k <= flat@.len() <= every.len(),
            forall|j: int| 0 <= j < flat@.len() ==> #[trigger] flat@[j] == every[j],
            forall|j: int| 0 <= j < every.len() ==> quad_ok(#[trigger] every[j], n as int),
            n <= 256,
            ink.full_bright == face.glowing,
            row < 0x4_0000_0000_0000,
            lefts@.len() == n,
            width == crate::block_entity_draw::width_of(advances_of(line@), n as int),
            -0x1_0000_0000_0000 <= width <= 0x1_0000_0000_0000,
            forall|j: int|
                0 <= j < n ==> #[trigger] lefts@[j] == crate::block_entity_draw::width_of(
                    advances_of(line@),
                    j,
                ) && -0x1_0000_0000_0000 <= lefts@[j] <= 0x1_0000_0000_0000,
            want.len() == every.len(),
            forall|j: int|
                0 <= j < every.len() ==> #[trigger] want[j] == placed(
                    line@,
                    n as int,
                    f as int,
                    row as int,
                    face.glowing,
                    every[j],
                ),
            quads@ =~= before + want.take(k as int),
        decreases flat@.len() - k,
    {
        let q = flat[k];
        assert(flat@[k as int] == every[k as int]);
        assert(quad_ok(q, n as int));
        let x: i64 = 2 * lefts[q.glyph] - width + q.dx as i64 * 256;
        let y: i64 = (row as i64 * 10 - 20) * 512 + q.dy as i64 * 256;
        quads.push(
            SignGlyphQuad {
                face: f,
                row,
                glyph: q.glyph,
                x,
                y,
                dark: !ink.full_bright || q.dx != 0 || q.dy != 0,
            },
        );
        assert(want.take(k + 1) =~= want.take(k as int).push(want[k as int]));
        k = k + 1;
    }
    assert(quads@ =~= kept(all + want));
}

/// The text of signs: the sides drawn, and the quads on them.
pub struct SignText {
    pub sides: Vec<SidePick>,
    pub quads: Vec<SignGlyphQuad>,
}

/// The advances of a line can be added.
pub open spec fn line_ok(line: Seq<SignGlyph>) -> bool {
    forall|i: int|
        0 <= i < line.len() ==> crate::block_entity_draw::small_advance(
            (#[trigger] line[i]).advance,
        )
}

/// A side's lines can be placed.
pub open spec fn placeable(side: Option<SignSide>) -> bool {
    side matches Some(s) ==> s.lines@.len() <= 0x4_0000_0000_0000 && forall|r: int|
        0 <= r < s.lines@.len() ==> line_ok(#[trigger] s.lines@[r]@)
}

/// The text on signs, as far as the vertex buffer holds it.
pub fn draw_sign_text(items: &Vec<SignItem>) -> (text: SignText)
    requires
        forall|i: int|
            0 <= i < items@.len() ==> placeable((#[trigger] items@[i]).front) && placeable(
                items@[i].back,
            ),
    ensures
        text.sides@ == all_sides(items@, items@.len() as int),
        text.quads@ == kept(faces_of(drawn_faces(items@), drawn_faces(items@).len() as int)),
{
    let sides = sign_sides(items);
    let ghost faces = drawn_faces(items@);
    let mut quads: Vec<SignGlyphQuad> = Vec::new();
    let mut f: usize = 0;
    assert(kept(faces_of(faces, 0)) =~= quads@);
    while f < sides.len()
        invariant
            f <= sides@.len() == faces.len(),
            sides@ == all_sides(items@, items@.len() as int),
            faces == drawn_faces(items@),
            forall|k: int| 0 <= k < sides@.len() ==> picked(items@, #[trigger] sides@[k]),
            forall|i: int|
                0 <= i < items@.len() ==> placeable((#[trigger] items@[i]).front) && placeable(
                    items@[i].back,
                ),
            quads@ == kept(faces_of(faces, f as int)),
        decreases sides@.len() - f,
    {
        let pick = sides[f];
        assert(picked(items@, sides@[f as int]));
        let item = &items[pick.item];
        let side = if pick.front {
            &item.front
        } else {
            &item.back
        };
        if let Some(side) = side {
            let ghost face = faces[f as int];
            let ink = sign_ink(is_black(side.dye), side.glowing, item.near);
            let ghost start = faces_of(faces, f as int);
            assert(start + lines_of(face, f as int, 0) =~= start);
            let mut row: usize = 0;
            while row < side.lines.len()
                invariant
                    row <= side.lines@.len() <= 0x4_0000_0000_0000,
                    face.lines == side.lines,
                    forall|r: int| 0 <= r < side.lines@.len() ==> line_ok(#[trigger] side.lines@[r]@),
                    ink.full_bright == face.glowing,
                    ink.outline == outlined(face),
                    quads@ == kept(start + lines_of(face, f as int, row as int)),
                decreases side.lines@.len() - row,
            {
                let ghost all = start + lines_of(face, f as int, row as int);
                push_sign_line(
                    &side.lines[row],
                    ink,
                    f,
                    row,
                    &mut quads,
                    Ghost(face),
                    Ghost(all),
                );
                assert(all + line_of(face, f as int, row as int) =~= start + lines_of(
                    face,
                    f as int,
                    row + 1,
                ));
                row = row + 1;
            }
        }
        f = f + 1;
    }
    SignText { sides, quads }
}

/// Only sides of signs with text are drawn, and none twice; of two signs the first goes
/// first, and of the sides of one the front.
pub proof fn law_sides_are_drawn_in_order(items: Seq<SignItem>, a: int, b: int)
    requires
        items.len() <= usize::MAX,
        0 <= a < b < all_sides(items, items.len() as int).len(),
    ensures
        ({
            let sides = all_sides(items, items.len() as int);
            &&& picked(items, sides[a])
            &&& picked(items, sides[b])
            &&& sides[a].item < sides[b].item || sides[a].item == sides[b].item && sides[a].front
                && !sides[b].front
        }),
{
    lemma_sides(items, items.len() as int);
}

/// Every side of a sign with text is drawn.
pub proof fn law_every_side_with_text_is_drawn(items: Seq<SignItem>, pick: SidePick)
    requires
        picked(items, pick),
    ensures
        all_sides(items, items.len() as int).contains(pick),
{
    lemma_side_is_drawn(items, items.len() as int, pick);
}

proof fn lemma_side_is_drawn(items: Seq<SignItem>, n: int, pick: SidePick)
    requires
        picked(items, pick),
        pick.item < n <= items.len(),
    ensures
        all_sides(items, n).contains(pick),
    decreases n,
{
    let before = all_sides(items, n - 1);
    let here = sides_of(items[n - 1], n - 1);
    let all = all_sides(items, n);
    if pick.item == n - 1 {
        let k = if pick.front {
            0
        } else {
            here.len() - 1
        };
        assert(here[k] == pick);
        assert(all[before.len() + k] == pick);
    } else {
        lemma_side_is_drawn(items, n - 1, pick);
        let k = choose|k: int| 0 <= k < before.len() && before[k] == pick;
        assert(all[k] == pick);
    }
}

proof fn lemma_sides(items: Seq<SignItem>, n: int)
    requires
        0 <= n <= items.len() <= usize::MAX,
    ensures
        forall|k: int|
            0 <= k < all_sides(items, n).len() ==> picked(
                items,
                #[trigger] all_sides(items, n)[k],
            ) && all_sides(items, n)[k].item < n,
        forall|a: int, b: int|
            0 <= a < b < all_sides(items, n).len() ==> {
                let x = #[trigger] all_sides(items, n)[a];
                let y = #[trigger] all_sides(items, n)[b];
                x.item < y.item || x.item == y.item && x.front && !y.front
            },
    decreases n,
{
    if n > 0 {
        lemma_sides(items, n - 1);
        let before = all_sides(items, n - 1);
        let here = sides_of(items[n - 1], n - 1);
        let all = all_sides(items, n);
        assert(all == before + here);
        assert forall|k: int| 0 <= k < all.len() implies picked(items, #[trigger] all[k])
            && all[k].item < n by {
            if k < before.len() {
                assert(all[k] == before[k]);
            } else {
                assert(all[k] == here[k - before.len()]);
            }
        }
        assert forall|a: int, b: int| 0 <= a < b < all.len() implies {
            let x = #[trigger] all[a];
            let y = #[trigger] all[b];
            x.item < y.item || x.item == y.item && x.front && !y.front
        } by {
            if b < before.len() {
                assert(all[a] == before[a] && all[b] == before[b]);
            } else {
                assert(all[b] == here[b - before.len()]);
                if a < before.len() {
                    assert(all[a] == before[a]);
                } else {
                    assert(all[a] == here[a - before.len()]);
                }
            }
        }
    }
}

/// The text of all signs fits the vertex buffer, and what is left out is the end of it.
pub proof fn law_sign_text_fits_the_buffer(faces: Seq<SignFace>)
    ensures
        6 * kept(faces_of(faces, faces.len() as int)).len()
            <= crate::block_entity::MAX_SIGN_VERTICES,
        kept(faces_of(faces, faces.len() as int)).is_prefix_of(
            faces_of(faces, faces.len() as int),
        ),
{
}

/// What glyphs `from` to `to` of a line take up.
pub open spec fn advance_between(line: Seq<SignGlyph>, from: int, to: int) -> int
    decreases to - from,
{
    if from >= to {
        0
    } else {
        advance_between(line, from, to - 1) + line[to - 1].advance
    }
}

/// A line is cut after `n` glyphs: they take up no more than 90 pixels of the font, nor
/// did fewer of them, and one more would, or there are 256 of them or no more.
pub open spec fn cut_after(line: Seq<SignGlyph>, n: int) -> bool {
    &&& 0 <= n <= line.len()
    &&& n <= 256
    &&& forall|m: int| 0 <= m <= n ==> #[trigger] advance_between(line, 0, m) <= 90 * 256
    &&& n == line.len() || n == 256 || advance_between(line, 0, n + 1) > 90 * 256
}

/// The quad a glyph itself gets, not a copy of its outline.
pub open spec fn is_glyph_itself(face: SignFace, q: SignGlyphQuad) -> bool {
    !face.glowing || !q.dark
}

proof fn lemma_widths_agree(line: Seq<SignGlyph>, n: int)
    requires
        0 <= n <= line.len(),
    ensures
        crate::block_entity_draw::width_of(advances_of(line), n) == advance_between(line, 0, n),
    decreases n,
{
    if n > 0 {
        lemma_widths_agree(line, n - 1);
    }
}

proof fn lemma_shown_is_cut(line: Seq<SignGlyph>, n: int)
    requires
        cut_after(line, n),
    ensures
        shown_count(line) == n,
        fits(line, n),
{
    let advances = advances_of(line);
    assert forall|k: int| 0 <= k <= n implies #[trigger] crate::block_entity_draw::width_of(
        advances,
        k,
    ) <= SIGN_LINE_WIDTH by {
        lemma_widths_agree(line, k);
        assert(advance_between(line, 0, k) <= 90 * 256);
    }
    if n < line.len() {
        lemma_widths_agree(line, n + 1);
    }
    assert(fits(line, n));
    lemma_fits_once(line, shown_count(line), n);
}

proof fn lemma_line_source(face: SignFace, f: int, row: int, n: int, k: int) -> (sq: SignQuad)
    requires
        0 <= row < face.lines@.len(),
        0 <= f <= usize::MAX,
        face.lines@.len() <= usize::MAX,
        cut_after(face.lines@[row]@, n),
        0 <= k < line_of(face, f, row).len(),
    ensures
        line_of(face, f, row)[k] == placed(face.lines@[row]@, n, f, row, face.glowing, sq),
        quad_ok(sq, n),
        sq.dx != 0 || sq.dy != 0 ==> face.glowing && (face.black || face.near),
        sq == crate::block_entity_draw::line_quads(
            sizes_of(face.lines@[row]@, n),
            outlined(face),
        )[k],
{
    let line = face.lines@[row]@;
    lemma_shown_is_cut(line, n);
    let sizes = sizes_of(line, n);
    let below = crate::block_entity_draw::outline_quads(sizes, n);
    let above = crate::block_entity_draw::face_quads(sizes, n);
    let every = crate::block_entity_draw::line_quads(sizes, outlined(face));
    lemma_quads_bounded(sizes, n);
    lemma_faces_unshifted(sizes, n);
    if outlined(face) {
        if k < below.len() {
            assert(every[k] == below[k]);
            assert(quad_ok(below[k], n));
        } else {
            assert(every[k] == above[k - below.len()]);
            assert(quad_ok(above[k - below.len()], n));
        }
    } else {
        assert(every[k] == above[k]);
        assert(quad_ok(above[k], n));
    }
    every[k]
}

proof fn lemma_faces_unshifted(glyphs: Seq<GlyphSize>, n: int)
    requires
        0 <= n <= glyphs.len(),
    ensures
        forall|k: int|
            0 <= k < crate::block_entity_draw::face_quads(glyphs, n).len() ==> (
            #[trigger] crate::block_entity_draw::face_quads(glyphs, n)[k]).dx == 0
                && crate::block_entity_draw::face_quads(glyphs, n)[k].dy == 0,
        forall|k: int|
            0 <= k < crate::block_entity_draw::outline_quads(glyphs, n).len() ==> (
            #[trigger] crate::block_entity_draw::outline_quads(glyphs, n)[k]).dx != 0
                || crate::block_entity_draw::outline_quads(glyphs, n)[k].dy != 0,
    decreases n,
{
    if n > 0 {
        lemma_faces_unshifted(glyphs, n - 1);
        let below = crate::block_entity_draw::outline_quads(glyphs, n - 1);
        let all = crate::block_entity_draw::outline_quads(glyphs, n);
        assert forall|k: int| 0 <= k < all.len() implies (#[trigger] all[k]).dx != 0 || all[k].dy
            != 0 by {
            if k < below.len() {
                assert(all[k] == below[k]);
            } else {
                assert(all[k] == crate::block_entity_draw::outline_copies(
                    (n - 1) as usize,
                    8,
                )[k - below.len()]);
            }
        }
        let above = crate::block_entity_draw::face_quads(glyphs, n - 1);
        let faces = crate::block_entity_draw::face_quads(glyphs, n);
        assert forall|k: int| 0 <= k < faces.len() implies (#[trigger] faces[k]).dx == 0 && faces[k].dy
            == 0 by {
            if k < above.len() {
                assert(faces[k] == above[k]);
            }
        }
    }
}

/// Sides whose rows and numbers can be counted.
pub open spec fn countable(faces: Seq<SignFace>) -> bool {
    &&& faces.len() <= usize::MAX
    &&& forall|f: int|
        0 <= f < faces.len() ==> (#[trigger] faces[f]).lines@.len() <= 0x4_0000_0000_0000
            && faces[f].lines@.len() <= usize::MAX
    &&& forall|f: int, r: int|
        0 <= f < faces.len() && 0 <= r < faces[f].lines@.len() ==> line_ok(
            #[trigger] faces[f].lines@[r]@,
        )
}

/// Where each side's lines, and each line's quads, stand among all quads.
pub open spec fn line_start(faces: Seq<SignFace>, f: int, row: int) -> int {
    (faces_of(faces, f).len() + lines_of(faces[f], f, row).len()) as int
}

proof fn lemma_find_quad(faces: Seq<SignFace>, n: int, k: int) -> (at: (int, int, int))
    requires
        0 <= n <= faces.len(),
        0 <= k < faces_of(faces, n).len(),
    ensures
        0 <= at.0 < n,
        0 <= at.1 < faces[at.0].lines@.len(),
        0 <= at.2 < line_of(faces[at.0], at.0, at.1).len(),
        k == line_start(faces, at.0, at.1) + at.2,
        faces_of(faces, n)[k] == line_of(faces[at.0], at.0, at.1)[at.2],
    decreases n,
{
    let before = faces_of(faces, n - 1);
    if k < before.len() {
        lemma_find_quad(faces, n - 1, k)
    } else {
        let rows = faces[n - 1].lines@.len() as int;
        let (row, i) = lemma_find_in_lines(faces[n - 1], n - 1, rows, k - before.len());
        (n - 1, row, i)
    }
}

proof fn lemma_find_in_lines(face: SignFace, f: int, n: int, k: int) -> (at: (int, int))
    requires
        0 <= n <= face.lines@.len(),
        0 <= k < lines_of(face, f, n).len(),
    ensures
        0 <= at.0 < n,
        0 <= at.1 < line_of(face, f, at.0).len(),
        k == lines_of(face, f, at.0).len() + at.1,
        lines_of(face, f, n)[k] == line_of(face, f, at.0)[at.1],
    decreases n,
{
    let before = lines_of(face, f, n - 1);
    if k < before.len() {
        lemma_find_in_lines(face, f, n - 1, k)
    } else {
        (n - 1, k - before.len())
    }
}

proof fn lemma_quad_stands(faces: Seq<SignFace>, n: int, f: int, row: int, i: int)
    requires
        0 <= f < n <= faces.len(),
        0 <= row < faces[f].lines@.len(),
        0 <= i < line_of(faces[f], f, row).len(),
    ensures
        0 <= line_start(faces, f, row) + i < faces_of(faces, n).len(),
        faces_of(faces, n)[line_start(faces, f, row) + i] == line_of(faces[f], f, row)[i],
    decreases n,
{
    if f < n - 1 {
        lemma_quad_stands(faces, n - 1, f, row, i);
    } else {
        lemma_quad_in_lines(faces[f], f, faces[f].lines@.len() as int, row, i);
    }
}

proof fn lemma_quad_in_lines(face: SignFace, f: int, n: int, row: int, i: int)
    requires
        0 <= row < n <= face.lines@.len(),
        0 <= i < line_of(face, f, row).len(),
    ensures
        0 <= lines_of(face, f, row).len() + i < lines_of(face, f, n).len(),
        lines_of(face, f, n)[lines_of(face, f, row).len() + i] == line_of(face, f, row)[i],
    decreases n,
{
    if row < n - 1 {
        lemma_quad_in_lines(face, f, n - 1, row, i);
    }
}

/// Lines are stacked ten pixels of the font apart, the third in the middle of the side:
/// a glyph of row `r` stands `r - 2` times that below it. A copy of an outline is half a
/// pixel off at most. Each quad is of a glyph that the line of its row shows, and centred:
/// what stands to the left of it on the line, less what the line takes up in all, each
/// counted from the middle. Text that does not glow is dark all over; of text that glows
/// only outlines are, and there are none but on black text and on signs that are near.
pub proof fn law_sign_glyphs_stand_in_their_row(faces: Seq<SignFace>, k: int, n: int)
    requires
        countable(faces),
        0 <= k < faces_of(faces, faces.len() as int).len(),
        ({
            let q = faces_of(faces, faces.len() as int)[k];
            cut_after(faces[q.face as int].lines@[q.row as int]@, n)
        }),
    ensures
        ({
            let q = faces_of(faces, faces.len() as int)[k];
            let face = faces[q.face as int];
            let line = face.lines@[q.row as int]@;
            let down = q.y - (q.row - 2) * 10 * 512;
            let right = q.x - (2 * advance_between(line, 0, q.glyph as int) - advance_between(
                line,
                0,
                n,
            ));
            &&& q.face < faces.len()
            &&& q.row < face.lines@.len()
            &&& q.glyph < n
            &&& line[q.glyph as int].shape.w > 0 && line[q.glyph as int].shape.h > 0
            &&& down == -256 || down == 0 || down == 256
            &&& right == -256 || right == 0 || right == 256
            &&& is_glyph_itself(face, q) <==> down == 0 && right == 0
            &&& !face.glowing ==> q.dark
            &&& !is_glyph_itself(face, q) ==> face.black || face.near
        }),
{
    let (f, row, i) = lemma_find_quad(faces, faces.len() as int, k);
    let face = faces[f];
    let line = face.lines@[row]@;
    let q = faces_of(faces, faces.len() as int)[k];
    lemma_row_of(face, f, row, i);
    lemma_shown_is_cut(line, n);
    let sq = lemma_line_source(face, f, row, n, i);
    lemma_widths_agree(line, n);
    lemma_widths_agree(line, sq.glyph as int);
    lemma_line_quads_visible(sizes_of(line, n), outlined(face), i);
    lemma_between_small(line, n);
    lemma_between_small(line, sq.glyph as int);
}

proof fn lemma_row_of(face: SignFace, f: int, row: int, i: int)
    requires
        0 <= f <= usize::MAX,
        0 <= row < face.lines@.len() <= usize::MAX,
        0 <= i < line_of(face, f, row).len(),
    ensures
        line_of(face, f, row)[i].face == f,
        line_of(face, f, row)[i].row == row,
{
}

proof fn lemma_between_small(line: Seq<SignGlyph>, n: int)
    requires
        line_ok(line),
        0 <= n <= line.len(),
    ensures
        -0x100_0000_0000 * n <= advance_between(line, 0, n) <= 0x100_0000_0000 * n,
    decreases n,
{
    if n > 0 {
        lemma_between_small(line, n - 1);
        assert(crate::block_entity_draw::small_advance(line[n - 1].advance));
    }
}

proof fn lemma_line_quads_visible(glyphs: Seq<GlyphSize>, outline: bool, k: int)
    requires
        0 <= k < crate::block_entity_draw::line_quads(glyphs, outline).len(),
        glyphs.len() <= usize::MAX,
    ensures
        ({
            let q = crate::block_entity_draw::line_quads(glyphs, outline)[k];
            q.glyph < glyphs.len() && glyphs[q.glyph as int].width > 0 && glyphs[q.glyph as int].height
                > 0
        }),
{
    let n = glyphs.len() as int;
    lemma_visible_quads(glyphs, n);
    let below = crate::block_entity_draw::outline_quads(glyphs, n);
    let above = crate::block_entity_draw::face_quads(glyphs, n);
    let every = crate::block_entity_draw::line_quads(glyphs, outline);
    if outline && k < below.len() {
        assert(every[k] == below[k]);
    } else if outline {
        assert(every[k] == above[k - below.len()]);
    } else {
        assert(every[k] == above[k]);
    }
}

proof fn lemma_visible_quads(glyphs: Seq<GlyphSize>, n: int)
    requires
        0 <= n <= glyphs.len() <= usize::MAX,
    ensures
        forall|k: int|
            0 <= k < crate::block_entity_draw::face_quads(glyphs, n).len() ==> {
                let q = #[trigger] crate::block_entity_draw::face_quads(glyphs, n)[k];
                q.glyph < n && glyphs[q.glyph as int].width > 0 && glyphs[q.glyph as int].height > 0
            },
        forall|k: int|
            0 <= k < crate::block_entity_draw::outline_quads(glyphs, n).len() ==> {
                let q = #[trigger] crate::block_entity_draw::outline_quads(glyphs, n)[k];
                q.glyph < n && glyphs[q.glyph as int].width > 0 && glyphs[q.glyph as int].height > 0
            },
    decreases n,
{
    if n > 0 {
        lemma_visible_quads(glyphs, n - 1);
        let below = crate::block_entity_draw::outline_quads(glyphs, n - 1);
        let all = crate::block_entity_draw::outline_quads(glyphs, n);
        assert forall|k: int| 0 <= k < all.len() implies {
            let q = #[trigger] all[k];
            q.glyph < n && glyphs[q.glyph as int].width > 0 && glyphs[q.glyph as int].height > 0
        } by {
            if k < below.len() {
                assert(all[k] == below[k]);
            } else {
                assert(all[k] == crate::block_entity_draw::outline_copies(
                    (n - 1) as usize,
                    8,
                )[k - below.len()]);
            }
        }
        let above = crate::block_entity_draw::face_quads(glyphs, n - 1);
        let faces = crate::block_entity_draw::face_quads(glyphs, n);
        assert forall|k: int| 0 <= k < faces.len() implies {
            let q = #[trigger] faces[k];
            q.glyph < n && glyphs[q.glyph as int].width > 0 && glyphs[q.glyph as int].height > 0
        } by {
            if k < above.len() {
                assert(faces[k] == above[k]);
            }
        }
    }
}

/// Every glyph with pixels that a line shows is drawn, and if its side glows and is black
/// or near, so is a copy of it half a pixel off in each of the eight directions.
/// `(dx, dy)` is the direction, or `(0, 0)` for the glyph itself.
pub proof fn law_every_sign_glyph_is_drawn(
    faces: Seq<SignFace>,
    f: int,
    row: int,
    n: int,
    g: int,
    dx: int,
    dy: int,
)
    requires
        countable(faces),
        0 <= f < faces.len(),
        0 <= row < faces[f].lines@.len(),
        cut_after(faces[f].lines@[row]@, n),
        0 <= g < n,
        faces[f].lines@[row]@[g].shape.w > 0,
        faces[f].lines@[row]@[g].shape.h > 0,
        -1 <= dx <= 1,
        -1 <= dy <= 1,
        dx == 0 && dy == 0 || faces[f].glowing && (faces[f].black || faces[f].near),
    ensures
        ({
            let face = faces[f];
            let line = face.lines@[row]@;
            let all = faces_of(faces, faces.len() as int);
            exists|k: int|
                0 <= k < all.len() && (#[trigger] all[k]).face == f && all[k].row == row
                    && all[k].glyph == g && all[k].x == 2 * advance_between(line, 0, g)
                    - advance_between(line, 0, n) + dx * 256 && all[k].y == (row - 2) * 10 * 512
                    + dy * 256 && all[k].dark == (!face.glowing || dx != 0 || dy != 0)
        }),
{
    let face = faces[f];
    let line = face.lines@[row]@;
    lemma_shown_is_cut(line, n);
    let sizes = sizes_of(line, n);
    let below = crate::block_entity_draw::outline_quads(sizes, n);
    let above = crate::block_entity_draw::face_quads(sizes, n);
    let every = crate::block_entity_draw::line_quads(sizes, outlined(face));
    let i = if dx == 0 && dy == 0 {
        let j = lemma_face_quad_of(sizes, n, g);
        if outlined(face) {
            assert(every[below.len() + j] == above[j]);
            below.len() + j
        } else {
            assert(every[j] == above[j]);
            j
        }
    } else {
        let c = if dy < 0 {
            dx + 1
        } else if dy == 0 {
            if dx < 0 {
                3int
            } else {
                4
            }
        } else {
            dx + 6
        };
        let j = lemma_outline_quad_of(sizes, n, g, c);
        assert(every[j] == below[j]);
        j
    };
    let sq = every[i];
    assert(line_of(face, f, row)[i] == placed(line, n, f, row, face.glowing, sq));
    lemma_widths_agree(line, n);
    lemma_widths_agree(line, g);
    lemma_between_small(line, n);
    lemma_between_small(line, g);
    lemma_quad_stands(faces, faces.len() as int, f, row, i);
    let k = line_start(faces, f, row) + i;
    assert(faces_of(faces, faces.len() as int)[k].glyph == g);
    assert(line_ok(faces[f].lines@[row]@));
}

proof fn lemma_face_quad_of(glyphs: Seq<GlyphSize>, n: int, g: int) -> (k: int)
    requires
        0 <= g < n <= glyphs.len() <= usize::MAX,
        glyphs[g].width > 0,
        glyphs[g].height > 0,
    ensures
        0 <= k < crate::block_entity_draw::face_quads(glyphs, n).len(),
        crate::block_entity_draw::face_quads(glyphs, n)[k] == (SignQuad {
            glyph: g as usize,
            dx: 0,
            dy: 0,
        }),
    decreases n,
{
    if g < n - 1 {
        lemma_face_quad_of(glyphs, n - 1, g)
    } else {
        crate::block_entity_draw::face_quads(glyphs, n - 1).len() as int
    }
}

proof fn lemma_outline_quad_of(glyphs: Seq<GlyphSize>, n: int, g: int, c: int) -> (k: int)
    requires
        0 <= g < n <= glyphs.len() <= usize::MAX,
        0 <= c < 8,
        glyphs[g].width > 0,
        glyphs[g].height > 0,
    ensures
        0 <= k < crate::block_entity_draw::outline_quads(glyphs, n).len(),
        crate::block_entity_draw::outline_quads(glyphs, n)[k] == (SignQuad {
            glyph: g as usize,
            dx: crate::block_entity_draw::OUTLINE_DX[c],
            dy: crate::block_entity_draw::OUTLINE_DY[c],
        }),
    decreases n,
{
    if g < n - 1 {
        lemma_outline_quad_of(glyphs, n - 1, g, c)
    } else {
        let before = crate::block_entity_draw::outline_quads(glyphs, n - 1);
        assert(crate::block_entity_draw::outline_quads(glyphs, n)[before.len() + c]
            == crate::block_entity_draw::outline_copies(g as usize, 8)[c]);
        before.len() + c
    }
}

/// Sides are drawn one after the other, the lines of a side from the first on, and of a
/// line that glows its outline below its glyphs.
pub proof fn law_sign_quads_are_in_order(faces: Seq<SignFace>, a: int, b: int)
    requires
        countable(faces),
        0 <= a < b < faces_of(faces, faces.len() as int).len(),
    ensures
        ({
            let p = faces_of(faces, faces.len() as int)[a];
            let q = faces_of(faces, faces.len() as int)[b];
            &&& p.face < q.face || p.face == q.face && p.row <= q.row
            &&& p.face == q.face && p.row == q.row && faces[p.face as int].glowing && !p.dark
                ==> !q.dark && p.glyph < q.glyph
        }),
{
    let n = faces.len() as int;
    let (f, r, i) = lemma_find_quad(faces, n, a);
    let (g, t, j) = lemma_find_quad(faces, n, b);
    lemma_row_of(faces[f], f, r, i);
    lemma_row_of(faces[g], g, t, j);
    if g < f {
        lemma_faces_grow(faces, g + 1, f);
        lemma_lines_grow(faces[g], g, t + 1, faces[g].lines@.len() as int);
    } else if f == g && t < r {
        lemma_lines_grow(faces[f], f, t + 1, r);
    } else if f == g && t == r {
        let line = faces[f].lines@[r]@;
        let m = lemma_some_cut(line);
        lemma_shown_is_cut(line, m);
        let p = lemma_line_source(faces[f], f, r, m, i);
        let q = lemma_line_source(faces[f], f, r, m, j);
        let sizes = sizes_of(line, m);
        lemma_quads_ordered(sizes, m);
        lemma_faces_unshifted(sizes, m);
        let below = crate::block_entity_draw::outline_quads(sizes, m);
        let above = crate::block_entity_draw::face_quads(sizes, m);
        if outlined(faces[f]) {
            if i >= below.len() {
                assert(p == above[i - below.len()] && q == above[j - below.len()]);
            } else {
                assert(p == below[i]);
            }
        } else {
            assert(p == above[i] && q == above[j]);
        }
    }
}

proof fn lemma_some_cut(line: Seq<SignGlyph>) -> (n: int)
    ensures
        cut_after(line, n),
{
    lemma_cut_from(line, 0)
}

proof fn lemma_cut_from(line: Seq<SignGlyph>, m: int) -> (n: int)
    requires
        0 <= m <= line.len(),
        m <= 256,
        forall|k: int| 0 <= k <= m ==> #[trigger] advance_between(line, 0, k) <= 90 * 256,
    ensures
        cut_after(line, n),
    decreases 256 - m,
{
    if m == line.len() || m == 256 || advance_between(line, 0, m + 1) > 90 * 256 {
        m
    } else {
        lemma_cut_from(line, m + 1)
    }
}

proof fn lemma_quads_ordered(glyphs: Seq<GlyphSize>, n: int)
    requires
        0 <= n <= glyphs.len() <= usize::MAX,
    ensures
        forall|i: int, j: int|
            0 <= i < j < crate::block_entity_draw::face_quads(glyphs, n).len() ==> (
            #[trigger] crate::block_entity_draw::face_quads(glyphs, n)[i]).glyph < (
            #[trigger] crate::block_entity_draw::face_quads(glyphs, n)[j]).glyph,
    decreases n,
{
    if n > 0 {
        lemma_quads_ordered(glyphs, n - 1);
        lemma_visible_quads(glyphs, n - 1);
        let before = crate::block_entity_draw::face_quads(glyphs, n - 1);
        let all = crate::block_entity_draw::face_quads(glyphs, n);
        assert forall|i: int, j: int| 0 <= i < j < all.len() implies (#[trigger] all[i]).glyph < (
        #[trigger] all[j]).glyph by {
            assert(all[i] == before[i]);
            if j < before.len() {
                assert(all[j] == before[j]);
            }
        }
    }
}

proof fn lemma_faces_grow(faces: Seq<SignFace>, a: int, b: int)
    requires
        0 <= a <= b <= faces.len(),
    ensures
        faces_of(faces, a).len() <= faces_of(faces, b).len(),
    decreases b - a,
{
    if a < b {
        lemma_faces_grow(faces, a, b - 1);
    }
}

proof fn lemma_lines_grow(face: SignFace, f: int, a: int, b: int)
    requires
        0 <= a <= b <= face.lines@.len(),
    ensures
        lines_of(face, f, a).len() <= lines_of(face, f, b).len(),
    decreases b - a,
{
    if a < b {
        lemma_lines_grow(face, f, a, b - 1);
    }
}

/// A side that is drawn has the lines, the glow and the distance of its sign, and is black
/// if it is dyed in the one colour of red and green 29 and blue 33 of 255.
pub proof fn law_drawn_sides_are_those_of_their_sign(items: Seq<SignItem>, k: int)
    requires
        items.len() <= usize::MAX,
        0 <= k < all_sides(items, items.len() as int).len(),
    ensures
        ({
            let pick = all_sides(items, items.len() as int)[k];
            let item = items[pick.item as int];
            let face = drawn_faces(items)[k];
            let side = if pick.front {
                item.front
            } else {
                item.back
            };
            &&& drawn_faces(items).len() == all_sides(items, items.len() as int).len()
            &&& pick.item < items.len()
            &&& item.kind == BlockEntityKind::Sign
            &&& side is Some
            &&& face.lines == side->0.lines
            &&& face.glowing == side->0.glowing
            &&& face.near == item.near
            &&& face.black == (side->0.dye.r == 0x3de8_e8e9 && side->0.dye.g == 0x3de8_e8e9
                && side->0.dye.b == 0x3e04_8485)
        }),
{
    lemma_sides(items, items.len() as int);
}

/// The text of all signs is drawn as far as the buffer of 65536 vertices holds it, six for
/// each quad, and all of it if it does.
pub proof fn law_sign_text_fills_the_buffer(faces: Seq<SignFace>, k: int)
    requires
        0 <= k < faces_of(faces, faces.len() as int).len(),
    ensures
        6 * (k + 1) <= 65536 <==> k < kept(faces_of(faces, faces.len() as int)).len(),
        k < kept(faces_of(faces, faces.len() as int)).len() ==> kept(
            faces_of(faces, faces.len() as int),
        )[k] == faces_of(faces, faces.len() as int)[k],
{
}

} // verus!
