//! Sprites stretched to a size with their borders kept.
use vstd::prelude::*;

use crate::atlas::SpriteRegion;

verus! {

/// A rectangle on screen and the part of the atlas shown in it, all in pixels.
#[derive(Clone, Copy, Debug, PartialEq, Eq, Structural)]
pub struct SliceQuad {
    pub x: i64,
    pub y: i64,
    pub w: i64,
    pub h: i64,
    pub u0: i64,
    pub v0: i64,
    pub u1: i64,
    pub v1: i64,
}

/// The border of a sprite's texture; one that states none has three pixels.
pub open spec fn texture_border(region: SpriteRegion) -> int {
    if region.nine_slice_border > 0 {
        region.nine_slice_border as int
    } else {
        3
    }
}

/// The border shown: no more than half of what there is.
pub open spec fn shown_border(border: int, from: int, to: int) -> int {
    crate::pixels::least(
        if border > 0 {
            border
        } else {
            0
        },
        (to - from) / 2,
    )
}

/// The four cuts of an extent: its ends, and a border in from either.
pub open spec fn cut(from: int, to: int, border: int, i: int) -> int {
    if i == 0 {
        from
    } else if i == 1 {
        from + border
    } else if i == 2 {
        to - border
    } else {
        to
    }
}

/// The rectangle to fill, with its border.
#[derive(Clone, Copy, Debug, PartialEq, Eq, Structural)]
pub struct Frame {
    pub x0: i64,
    pub y0: i64,
    pub x1: i64,
    pub y1: i64,
    pub border: i64,
}

impl Frame {
    /// Coordinates that can be added without overflow.
    pub open spec fn wf(self) -> bool {
        &&& -0x4000_0000 <= self.x0 <= 0x4000_0000
        &&& -0x4000_0000 <= self.y0 <= 0x4000_0000
        &&& -0x4000_0000 <= self.x1 <= 0x4000_0000
        &&& -0x4000_0000 <= self.y1 <= 0x4000_0000
        &&& -0x4000_0000 <= self.border <= 0x4000_0000
    }

    /// Column cut `i`.
    pub open spec fn column(self, i: int) -> int {
        cut(
            self.x0 as int,
            self.x1 as int,
            shown_border(self.border as int, self.x0 as int, self.x1 as int),
            i,
        )
    }

    /// Row cut `i`.
    pub open spec fn row(self, i: int) -> int {
        cut(
            self.y0 as int,
            self.y1 as int,
            shown_border(self.border as int, self.y0 as int, self.y1 as int),
            i,
        )
    }
}

/// The quad in a row and a column.
pub open spec fn slice(frame: Frame, region: SpriteRegion, row: int, col: int) -> SliceQuad {
    let b = texture_border(region);
    let (u, uw) = (region.x as int, region.x + region.w);
    let (v, vh) = (region.y as int, region.y + region.h);
    SliceQuad {
        x: frame.column(col) as i64,
        y: frame.row(row) as i64,
        w: (frame.column(col + 1) - frame.column(col)) as i64,
        h: (frame.row(row + 1) - frame.row(row)) as i64,
        u0: cut(u, uw, b, col) as i64,
        v0: cut(v, vh, b, row) as i64,
        u1: cut(u, uw, b, col + 1) as i64,
        v1: cut(v, vh, b, row + 1) as i64,
    }
}

/// The quads among the first `n`, row by row, that are not empty.
pub open spec fn slices(frame: Frame, region: SpriteRegion, n: int) -> Seq<SliceQuad>
    decreases n,
{
    if n <= 0 {
        Seq::empty()
    } else {
        let before = slices(frame, region, n - 1);
        let q = slice(frame, region, (n - 1) / 3, (n - 1) % 3);
        if q.w <= 0 || q.h <= 0 {
            before
        } else {
            before.push(q)
        }
    }
}

fn clamped_border(border: i64, from: i64, to: i64) -> (shown: i64)
    requires
        -0x4000_0000 <= from <= 0x4000_0000,
        -0x4000_0000 <= to <= 0x4000_0000,
        -0x4000_0000 <= border <= 0x4000_0000,
    ensures
        shown == shown_border(border as int, from as int, to as int),
        -0x4000_0000 <= shown <= 0x4000_0000,
{
    let wanted: i64 = if border > 0 {
        border
    } else {
        0
    };
    let extent: i64 = to - from;
    let half: i64 = if extent >= 0 {
        extent / 2
    } else {
        -((1 - extent) / 2)
    };
    if wanted <= half {
        wanted
    } else {
        half
    }
}

fn cuts(from: i64, to: i64, border: i64) -> (at: [i64; 4])
    requires
        -0x4_0000_0000 <= from <= 0x4_0000_0000,
        -0x4_0000_0000 <= to <= 0x4_0000_0000,
        -0x4_0000_0000 <= border <= 0x4_0000_0000,
    ensures
        forall|i: int|
            0 <= i < 4 ==> #[trigger] at@[i] == cut(from as int, to as int, border as int, i),
        forall|i: int| 0 <= i < 4 ==> -0x8_0000_0000 <= #[trigger] at@[i] <= 0x8_0000_0000,
{
    [from, from + border, to - border, to]
}

/// Stretches a sprite over a rectangle: its corners keep their size, its edges are
/// stretched along, its middle both ways. Empty parts are left out.
pub fn nine_slice(frame: Frame, region: SpriteRegion) -> (quads: Vec<SliceQuad>)
    requires
        frame.wf(),
    ensures
        quads@ == slices(frame, region, 9),
{
    let bx = clamped_border(frame.border, frame.x0, frame.x1);
    let by = clamped_border(frame.border, frame.y0, frame.y1);
    let tex: i64 = if region.nine_slice_border > 0 {
        region.nine_slice_border as i64
    } else {
        3
    };
    let xs = cuts(frame.x0, frame.x1, bx);
    let ys = cuts(frame.y0, frame.y1, by);
    let us = cuts(region.x as i64, region.x as i64 + region.w as i64, tex);
    let vs = cuts(region.y as i64, region.y as i64 + region.h as i64, tex);
    let mut quads: Vec<SliceQuad> = Vec::new();
    let mut n: usize = 0;
    while n < 9
        invariant
            n <= 9,
            forall|i: int| 0 <= i < 4 ==> #[trigger] xs@[i] == frame.column(i),
            forall|i: int| 0 <= i < 4 ==> #[trigger] ys@[i] == frame.row(i),
            forall|i: int|
                0 <= i < 4 ==> #[trigger] us@[i] == cut(
                    region.x as int,
                    region.x + region.w,
                    texture_border(region),
                    i,
                ),
            forall|i: int|
                0 <= i < 4 ==> #[trigger] vs@[i] == cut(
                    region.y as int,
                    region.y + region.h,
                    texture_border(region),
                    i,
                ),
            forall|i: int| 0 <= i < 4 ==> -0x8_0000_0000 <= #[trigger] xs@[i] <= 0x8_0000_0000,
            forall|i: int| 0 <= i < 4 ==> -0x8_0000_0000 <= #[trigger] ys@[i] <= 0x8_0000_0000,
            quads@ == slices(frame, region, n as int),
        decreases 9 - n,
    {
        let row: usize = n / 3;
        let col: usize = n % 3;
        assert(xs@[col as int + 1] == frame.column(col as int + 1));
        assert(ys@[row as int + 1] == frame.row(row as int + 1));
        let quad = SliceQuad {
            x: xs[col],
            y: ys[row],
            w: xs[col + 1] - xs[col],
            h: ys[row + 1] - ys[row],
            u0: us[col],
            v0: vs[row],
            u1: us[col + 1],
            v1: vs[row + 1],
        };
        assert(quad == slice(frame, region, row as int, col as int));
        if !(quad.w <= 0 || quad.h <= 0) {
            quads.push(quad);
        }
        n = n + 1;
    }
    quads
}

/// A point lies in a quad.
pub open spec fn holds(q: SliceQuad, x: int, y: int) -> bool {
    q.x <= x < q.x + q.w && q.y <= y < q.y + q.h
}

/// The column, or row, of a coordinate.
pub open spec fn band(first: int, second: int, at: int) -> int {
    if at < first {
        0
    } else if at < second {
        1
    } else {
        2
    }
}

proof fn lemma_slices_hold(frame: Frame, region: SpriteRegion, n: int, k: int)
    requires
        0 <= k < n <= 9,
        slice(frame, region, k / 3, k % 3).w > 0,
        slice(frame, region, k / 3, k % 3).h > 0,
    ensures
        slices(frame, region, n).contains(slice(frame, region, k / 3, k % 3)),
    decreases n,
{
    let q = slice(frame, region, k / 3, k % 3);
    let before = slices(frame, region, n - 1);
    if k == n - 1 {
        assert(slices(frame, region, n)[before.len() as int] == q);
    } else {
        lemma_slices_hold(frame, region, n - 1, k);
        let i = choose|i: int| 0 <= i < before.len() && before[i] == q;
        assert(slices(frame, region, n)[i] == q);
    }
}

/// A rectangle is filled exactly: every pixel of it lies in one of the quads drawn,
/// and of the nine places no other holds it.
pub proof fn law_slices_tile_the_frame(
    frame: Frame,
    region: SpriteRegion,
    x: int,
    y: int,
    row: int,
    col: int,
)
    requires
        frame.wf(),
        frame.x0 <= x < frame.x1,
        frame.y0 <= y < frame.y1,
        0 <= row < 3,
        0 <= col < 3,
    ensures
        ({
            let r = band(frame.row(1), frame.row(2), y);
            let c = band(frame.column(1), frame.column(2), x);
            &&& holds(slice(frame, region, r, c), x, y)
            &&& slices(frame, region, 9).contains(slice(frame, region, r, c))
            &&& holds(slice(frame, region, row, col), x, y) ==> row == r && col == c
        }),
{
    let r = band(frame.row(1), frame.row(2), y);
    let c = band(frame.column(1), frame.column(2), x);
    assert((3 * r + c) / 3 == r && (3 * r + c) % 3 == c);
    lemma_slices_hold(frame, region, 9, 3 * r + c);
}

/// A frame is cut a border in from either end, or in the middle where it is too small
/// for two. The outer cells show the texture's border, in its own size or squeezed
/// together, and the middle ones what is left between.
pub proof fn law_borders_stay_at_the_edges(
    frame: Frame,
    region: SpriteRegion,
    row: int,
    col: int,
)
    requires
        frame.wf(),
        frame.x0 <= frame.x1,
        frame.y0 <= frame.y1,
        0 <= row < 3,
        0 <= col < 3,
    ensures
        ({
            let q = slice(frame, region, row, col);
            let shown = |extent: int|
                if frame.border <= 0 {
                    0int
                } else if 2 * frame.border <= extent {
                    frame.border as int
                } else {
                    extent / 2
                };
            let edge: int = if region.nine_slice_border == 0 {
                3
            } else {
                region.nine_slice_border as int
            };
            let bx = shown(frame.x1 - frame.x0);
            let by = shown(frame.y1 - frame.y0);
            &&& col == 0 ==> q.x == frame.x0 && q.w == bx && q.u0 == region.x && q.u1 - q.u0 == edge
            &&& col == 1 ==> q.x == frame.x0 + bx && q.x + q.w == frame.x1 - bx && q.u0 == region.x
                + edge && q.u1 == region.x + region.w - edge
            &&& col == 2 ==> q.w == bx && q.x + q.w == frame.x1 && q.u1 - q.u0 == edge && q.u1
                == region.x + region.w
            &&& row == 0 ==> q.y == frame.y0 && q.h == by && q.v0 == region.y && q.v1 - q.v0 == edge
            &&& row == 1 ==> q.y == frame.y0 + by && q.y + q.h == frame.y1 - by && q.v0 == region.y
                + edge && q.v1 == region.y + region.h - edge
            &&& row == 2 ==> q.h == by && q.y + q.h == frame.y1 && q.v1 - q.v0 == edge && q.v1
                == region.y + region.h
        }),
{
}

/// Nothing is drawn but the nine cells, and no empty one among them.
pub proof fn law_only_cells_are_drawn(frame: Frame, region: SpriteRegion, n: int, k: int)
    requires
        0 <= n <= 9,
        0 <= k < slices(frame, region, n).len(),
    ensures
        slices(frame, region, n)[k].w > 0,
        slices(frame, region, n)[k].h > 0,
        exists|row: int, col: int|
            0 <= row < 3 && 0 <= col < 3 && slices(frame, region, n)[k] == #[trigger] slice(
                frame,
                region,
                row,
                col,
            ),
    decreases n,
{
    let before = slices(frame, region, n - 1);
    if k < before.len() {
        law_only_cells_are_drawn(frame, region, n - 1, k);
    } else {
        assert(slices(frame, region, n)[k] == slice(frame, region, (n - 1) / 3, (n - 1) % 3));
    }
}

} // verus!
