//! Where boxes of text go: tooltips beside the pointer, displays in the world, and
//! sprites repeated over an area. Lengths are 256ths of a pixel.
use vstd::prelude::*;

use crate::mc_text::PIXEL;

verus! {

/// Lengths that can be added a few times over.
pub open spec fn moderate(v: int) -> bool {
    -0x100_0000_0000 <= v <= 0x100_0000_0000
}

/// A length rounded up to whole pixels.
pub open spec fn whole_pixels(v: int) -> int {
    (v + 255) / 256 * 256
}

fn round_up(v: i64) -> (whole: i64)
    requires
        0 <= v <= 0x400_0000_0000,
    ensures
        whole == whole_pixels(v as int),
        0 <= whole <= 0x400_0000_0100,
{
    (v + 255) / 256 * 256
}

/// The pointer, the screen, the size of the text and of a font pixel.
#[derive(Clone, Copy, Debug, PartialEq, Eq, Structural)]
pub struct TooltipPlace {
    pub x: i64,
    pub y: i64,
    pub screen_w: i64,
    pub screen_h: i64,
    pub scale: i64,
    pub px: i64,
}

impl TooltipPlace {
    pub open spec fn wf(self) -> bool {
        &&& moderate(self.x as int)
        &&& moderate(self.y as int)
        &&& moderate(self.screen_w as int)
        &&& moderate(self.screen_h as int)
        &&& 0 <= self.scale <= 0x100_0000
        &&& 0 <= self.px <= 0x100_0000
    }

    /// From one line to the next.
    pub open spec fn line_step(self) -> int {
        self.scale + 2 * self.px
    }
}

/// The width of a line, with the shadow it may cast.
pub open spec fn line_width(width: int, px: int) -> int {
    whole_pixels(width + px)
}

/// The widest of the first `n` lines.
pub open spec fn widest(widths: Seq<i64>, px: int, n: int) -> int
    decreases n,
{
    if n <= 0 {
        0
    } else {
        let before = widest(widths, px, n - 1);
        let here = line_width(widths[n - 1] as int, px);
        if here > before {
            here
        } else {
            before
        }
    }
}

/// The left of the text: right of the pointer, or left of it where it would leave
/// the screen, but not past the edge.
pub open spec fn text_left(p: TooltipPlace, content_w: int) -> int {
    let right = p.x + 12 * 256;
    if right + content_w > p.screen_w {
        let left = p.x - 24 * 256 - content_w;
        if left > 1024 {
            left
        } else {
            1024
        }
    } else {
        right
    }
}

/// The top of the text: above the pointer, moved up where it would leave the screen.
pub open spec fn text_top(p: TooltipPlace, content_h: int) -> int {
    let top = p.y - 12 * 256;
    if top + content_h + 3 * 256 > p.screen_h {
        p.screen_h - content_h - 3 * 256
    } else {
        top
    }
}

/// The height of `n` lines.
pub open spec fn text_height(p: TooltipPlace, n: int) -> int {
    n * p.line_step() - 2 * p.px
}

/// The heights of `n` lines add up to 64 bits, wherever on the screen they go.
pub open spec fn lines_fit(p: TooltipPlace, n: int) -> bool {
    n * p.line_step() <= i64::MAX - 0x200_0000_0000
}

/// Where the box behind text begins along one axis, and how far it extends.
pub open spec fn boxed(text: int, size: int, px: int) -> (int, int) {
    (text - 15 * px, size + 30 * px)
}

/// A tooltip: its text, the box behind it with the borders of background and frame,
/// and the left and top of each line.
pub struct TooltipLayout {
    pub text_x: i64,
    pub text_y: i64,
    pub content_w: i64,
    pub content_h: i64,
    pub box_x: i64,
    pub box_y: i64,
    pub box_w: i64,
    pub box_h: i64,
    pub background_border: i64,
    pub frame_border: i64,
    pub lines: Vec<(i64, i64)>,
}

/// Line `i` of a tooltip; one aligned right ends where the widest does.
pub open spec fn line_spot(
    p: TooltipPlace,
    widths: Seq<i64>,
    right: Seq<bool>,
    i: int,
) -> (int, int) {
    let n = widths.len() as int;
    let content_w = widest(widths, p.px as int, n);
    let left = text_left(p, content_w);
    (
        if right[i] {
            left + content_w - line_width(widths[i] as int, p.px as int)
        } else {
            left
        },
        text_top(p, text_height(p, n)) + i * p.line_step(),
    )
}

proof fn lemma_widest_bound(widths: Seq<i64>, px: int, n: int)
    requires
        0 <= n <= widths.len(),
        0 <= px <= 0x100_0000,
        forall|i: int| 0 <= i < widths.len() ==> 0 <= #[trigger] widths[i] <= 0x100_0000_0000,
    ensures
        0 <= widest(widths, px, n) <= 0x200_0000_0000,
        forall|i: int|
            0 <= i < n ==> line_width(#[trigger] widths[i] as int, px) <= widest(widths, px, n),
    decreases n,
{
    if n > 0 {
        lemma_widest_bound(widths, px, n - 1);
    }
}

proof fn lemma_steps(i: int, n: int, step: int)
    requires
        0 <= i < n,
        0 <= step,
    ensures
        0 <= i * step,
        (i + 1) * step == i * step + step,
        (i + 1) * step <= n * step,
{
    assert(0 <= i * step && (i + 1) * step == i * step + step && (i + 1) * step <= n * step)
        by (nonlinear_arith)
        requires
            0 <= i < n,
            0 <= step,
    ;
}

/// Lays a tooltip out, given the width of each line and whether it is aligned right.
pub fn place_tooltip(p: TooltipPlace, widths: &Vec<i64>, right: &Vec<bool>) -> (t: TooltipLayout)
    requires
        p.wf(),
        right@.len() == widths@.len(),
        lines_fit(p, widths@.len() as int),
        forall|i: int| 0 <= i < widths@.len() ==> 0 <= #[trigger] widths@[i] <= 0x100_0000_0000,
    ensures
        t.content_w == widest(widths@, p.px as int, widths@.len() as int),
        t.content_h == text_height(p, widths@.len() as int),
        t.text_x == text_left(p, t.content_w as int),
        t.text_y == text_top(p, t.content_h as int),
        (t.box_x as int, t.box_w as int) == boxed(
            t.text_x as int,
            t.content_w as int,
            p.px as int,
        ),
        (t.box_y as int, t.box_h as int) == boxed(
            t.text_y as int,
            t.content_h as int,
            p.px as int,
        ),
        t.box_x == t.text_x - 15 * p.px,
        t.box_y == t.text_y - 15 * p.px,
        t.box_w == t.content_w + 30 * p.px,
        t.box_h == t.content_h + 30 * p.px,
        t.background_border == 9 * p.px,
        t.frame_border == 10 * p.px,
        t.lines@.len() == widths@.len(),
        forall|i: int|
            0 <= i < t.lines@.len() ==> {
                let spot = line_spot(p, widths@, right@, i);
                (#[trigger] t.lines@[i]).0 == spot.0 && t.lines@[i].1 == spot.1
            },
{
    let n: usize = widths.len();
    let step: i64 = p.scale + 2 * p.px;
    let mut content_w: i64 = 0;
    let mut content_h: i64 = 0;
    let mut i: usize = 0;
    while i < n
        invariant
            i <= n,
            n == widths@.len(),
            p.wf(),
            lines_fit(p, n as int),
            step == p.line_step(),
            content_h == i * step,
            0 <= content_h,
            forall|j: int| 0 <= j < widths@.len() ==> 0 <= #[trigger] widths@[j] <= 0x100_0000_0000,
            content_w == widest(widths@, p.px as int, i as int),
            0 <= content_w,
        decreases n - i,
    {
        let width: i64 = round_up(widths[i] + p.px);
        if width > content_w {
            content_w = width;
        }
        proof {
            lemma_steps(i as int, n as int, step as int);
        }
        content_h = content_h + step;
        i = i + 1;
    }
    proof {
        lemma_widest_bound(widths@, p.px as int, n as int);
    }
    content_h = content_h - 2 * p.px;
    let mut text_x: i64 = p.x + 12 * PIXEL;
    let mut text_y: i64 = p.y - 12 * PIXEL;
    if text_x + content_w > p.screen_w {
        let left: i64 = p.x - 24 * PIXEL - content_w;
        text_x = if left > 4 * PIXEL {
            left
        } else {
            4 * PIXEL
        };
    }
    if text_y + content_h + 3 * PIXEL > p.screen_h {
        text_y = p.screen_h - content_h - 3 * PIXEL;
    }
    let mut lines: Vec<(i64, i64)> = Vec::new();
    let mut y: i64 = text_y;
    i = 0;
    while i < n
        invariant
            i <= n,
            n == widths@.len(),
            right@.len() == n,
            p.wf(),
            lines_fit(p, n as int),
            step == p.line_step(),
            0 <= step <= 0x400_0000,
            forall|j: int| 0 <= j < widths@.len() ==> 0 <= #[trigger] widths@[j] <= 0x100_0000_0000,
            content_w == widest(widths@, p.px as int, n as int),
            0 <= content_w <= 0x200_0000_0000,
            text_x == text_left(p, content_w as int),
            -0x800_0000_0000 <= text_x <= 0x800_0000_0000,
            text_y == text_top(p, text_height(p, n as int)),
            i64::MIN + 0x80_0000_0000 <= text_y <= 0x100_0000_0000,
            y == text_y + i * step,
            lines@.len() == i,
            forall|j: int|
                0 <= j < i ==> {
                    let spot = line_spot(p, widths@, right@, j);
                    (#[trigger] lines@[j]).0 == spot.0 && lines@[j].1 == spot.1
                },
        decreases n - i,
    {
        let x: i64 = if right[i] {
            text_x + content_w - round_up(widths[i] + p.px)
        } else {
            text_x
        };
        proof {
            lemma_steps(i as int, n as int, step as int);
        }
        lines.push((x, y));
        y = y + step;
        i = i + 1;
    }
    TooltipLayout {
        text_x,
        text_y,
        content_w,
        content_h,
        box_x: text_x - 15 * p.px,
        box_y: text_y - 15 * p.px,
        box_w: content_w + 30 * p.px,
        box_h: content_h + 30 * p.px,
        background_border: 9 * p.px,
        frame_border: 10 * p.px,
        lines,
    }
}

/// A tooltip never leaves the screen at the bottom; nor at the right, if the pointer
/// is no farther right than that and the text is narrow enough for the screen. Every
/// line lies within the content's width.
pub proof fn law_tooltips_stay_on_screen(
    p: TooltipPlace,
    widths: Seq<i64>,
    right: Seq<bool>,
    i: int,
)
    requires
        p.wf(),
        right.len() == widths.len(),
        forall|j: int| 0 <= j < widths.len() ==> 0 <= #[trigger] widths[j] <= 0x100_0000_0000,
        0 <= i < widths.len(),
    ensures
        ({
            let n = widths.len() as int;
            let w = widest(widths, p.px as int, n);
            let h = text_height(p, n);
            let left = text_left(p, w);
            let spot = line_spot(p, widths, right, i);
            &&& text_top(p, h) + h + 3 * 256 <= p.screen_h
            &&& p.x - 24 * 256 <= p.screen_w && w + 4 * 256 <= p.screen_w ==> left + w <= p.screen_w
            &&& left <= spot.0
            &&& spot.0 + line_width(widths[i] as int, p.px as int) <= left + w
        }),
{
    lemma_widest_bound(widths, p.px as int, widths.len() as int);
    assert(line_width(widths[i] as int, p.px as int) <= widest(
        widths,
        p.px as int,
        widths.len() as int,
    ));
}

/// How the lines of a display are aligned.
#[derive(Clone, Copy, Debug, PartialEq, Eq, Structural)]
pub enum Alignment {
    Left,
    Center,
    Right,
}

/// The alignment behind a number.
pub fn alignment(number: u8) -> (alignment: Alignment)
    ensures
        alignment == (if number == 1 {
            Alignment::Center
        } else if number == 2 {
            Alignment::Right
        } else {
            Alignment::Left
        }),
{
    match number {
        1 => Alignment::Center,
        2 => Alignment::Right,
        _ => Alignment::Left,
    }
}

/// Twice the left of a line `width` wide, in a display centred on `x` whose widest
/// line is `content_w` wide.
pub open spec fn display_left(alignment: Alignment, x: int, content_w: int, width: int) -> int {
    match alignment {
        Alignment::Left => 2 * x - content_w,
        Alignment::Center => 2 * x - width,
        Alignment::Right => 2 * x + content_w - 2 * width,
    }
}

/// Twice the left of a line of a display.
pub fn display_line_left(alignment: Alignment, x: i64, content_w: i64, width: i64) -> (twice: i64)
    requires
        moderate(x as int),
        moderate(content_w as int),
        moderate(width as int),
    ensures
        twice == display_left(alignment, x as int, content_w as int, width as int),
{
    match alignment {
        Alignment::Left => 2 * x - content_w,
        Alignment::Center => 2 * x - width,
        Alignment::Right => 2 * x + content_w - 2 * width,
    }
}

/// Lines stay between the ends of the widest, and a line as wide as that begins at
/// the same place however it is aligned.
pub proof fn law_display_lines_stay_inside(
    alignment: Alignment,
    x: int,
    content_w: int,
    width: int,
)
    requires
        0 <= width <= content_w,
    ensures
        2 * x - content_w <= display_left(alignment, x, content_w, width),
        display_left(alignment, x, content_w, width) + 2 * width <= 2 * x + content_w,
        width == content_w ==> display_left(alignment, x, content_w, width) == 2 * x - content_w,
{
}

/// A tile of a repeated sprite: its offset in the area, and the part of it shown.
#[derive(Clone, Copy, Debug, PartialEq, Eq, Structural)]
pub struct Tile {
    pub x: i64,
    pub y: i64,
    pub w: i64,
    pub h: i64,
}

/// How many tiles an extent takes.
pub open spec fn tile_count(extent: int, tile: int) -> int {
    if extent <= 0 {
        0
    } else {
        (extent + tile - 1) / tile
    }
}

/// The part of tile `i` within an extent.
pub open spec fn tile_part(extent: int, tile: int, i: int) -> int {
    crate::pixels::least(tile, extent - i * tile)
}

/// The tile in a row and a column.
pub open spec fn tile_at(w: int, h: int, tile: int, row: int, col: int) -> Tile {
    Tile {
        x: (col * tile) as i64,
        y: (row * tile) as i64,
        w: tile_part(w, tile, col) as i64,
        h: tile_part(h, tile, row) as i64,
    }
}

proof fn lemma_tile_bounds(extent: int, tile: int, i: int)
    requires
        0 < tile,
        0 <= i < tile_count(extent, tile),
    ensures
        0 <= i * tile < extent,
        0 < tile_part(extent, tile, i) <= tile,
        i * tile + tile_part(extent, tile, i) <= extent,
{
    let n = (extent + tile - 1) / tile;
    vstd::arithmetic::div_mod::lemma_fundamental_div_mod(extent + tile - 1, tile);
    vstd::arithmetic::div_mod::lemma_mod_bound(extent + tile - 1, tile);
    assert(0 <= i * tile && i * tile < extent) by (nonlinear_arith)
        requires
            extent + tile - 1 == tile * n + (extent + tile - 1) % tile,
            0 <= (extent + tile - 1) % tile,
            0 <= i < n,
            0 < tile,
    ;
}

fn count_tiles(extent: i64, tile: i64) -> (n: i64)
    requires
        moderate(extent as int),
        0 < tile <= 0x100_0000_0000,
    ensures
        n == tile_count(extent as int, tile as int),
        0 <= n <= 0x100_0000_0000,
{
    if extent <= 0 {
        0
    } else {
        let n: i64 = (extent + tile - 1) / tile;
        proof {
            let top = extent + tile - 1;
            vstd::arithmetic::div_mod::lemma_fundamental_div_mod(top, tile as int);
            vstd::arithmetic::div_mod::lemma_mod_bound(top, tile as int);
            assert(0 <= n <= extent) by (nonlinear_arith)
                requires
                    top == extent + tile - 1,
                    top == tile * n + top % (tile as int),
                    0 <= top % (tile as int) < tile,
                    0 < tile,
                    0 < extent,
            ;
        }
        n
    }
}

/// The tiles of an area, row by row.
pub fn tile_area(w: i64, h: i64, tile: i64) -> (tiles: Vec<Tile>)
    requires
        moderate(w as int),
        moderate(h as int),
        0 < tile <= 0x100_0000_0000,
        tile_count(w as int, tile as int) * tile_count(h as int, tile as int) <= i64::MAX,
    ensures
        ({
            let columns = tile_count(w as int, tile as int);
            tiles@ == Seq::new(
                (columns * tile_count(h as int, tile as int)) as nat,
                |k: int| tile_at(w as int, h as int, tile as int, k / columns, k % columns),
            )
        }),
{
    let columns: i64 = count_tiles(w, tile);
    let rows: i64 = count_tiles(h, tile);
    assert(0 <= columns * rows) by (nonlinear_arith)
        requires
            0 <= columns,
            0 <= rows,
    ;
    let total: i64 = columns * rows;
    let mut tiles: Vec<Tile> = Vec::new();
    let mut k: i64 = 0;
    while k < total
        invariant
            0 <= k <= total,
            total == columns * rows,
            columns == tile_count(w as int, tile as int),
            rows == tile_count(h as int, tile as int),
            0 <= columns,
            0 <= rows,
            moderate(w as int),
            moderate(h as int),
            0 < tile <= 0x100_0000_0000,
            tiles@ =~= Seq::new(
                k as nat,
                |j: int|
                    tile_at(w as int, h as int, tile as int, j / columns as int, j % columns as int),
            ),
        decreases total - k,
    {
        proof {
            if columns == 0 {
                assert(columns * rows == 0) by (nonlinear_arith)
                    requires
                        columns == 0,
                ;
            }
            crate::pixels::lemma_grid(k as int, columns as int, rows as int);
        }
        let row: i64 = k / columns;
        let col: i64 = k % columns;
        proof {
            lemma_tile_bounds(w as int, tile as int, col as int);
            lemma_tile_bounds(h as int, tile as int, row as int);
        }
        let x: i64 = col * tile;
        let y: i64 = row * tile;
        let shown_w: i64 = if tile <= w - x {
            tile
        } else {
            w - x
        };
        let shown_h: i64 = if tile <= h - y {
            tile
        } else {
            h - y
        };
        tiles.push(Tile { x, y, w: shown_w, h: shown_h });
        k = k + 1;
    }
    tiles
}

/// Tile `k` lies in its area.
pub proof fn lemma_tile_in_area(w: int, h: int, tile: int, k: int)
    requires
        0 < tile,
        moderate(w),
        moderate(h),
        moderate(tile),
        0 <= k < tile_count(w, tile) * tile_count(h, tile),
    ensures
        ({
            let t = tile_at(w, h, tile, k / tile_count(w, tile), k % tile_count(w, tile));
            &&& 0 <= t.x <= 0x100_0000_0000
            &&& 0 <= t.y <= 0x100_0000_0000
        }),
{
    let columns = tile_count(w, tile);
    let rows = tile_count(h, tile);
    vstd::arithmetic::div_mod::lemma_div_pos_is_pos(w + tile - 1, tile);
    if columns <= 0 {
        assert(columns * rows <= 0) by (nonlinear_arith)
            requires
                columns == 0,
        ;
    }
    crate::pixels::lemma_grid(k, columns, rows);
    lemma_tile_bounds(w, tile, k % columns);
    lemma_tile_bounds(h, tile, k / columns);
}

/// The tiles cover their area exactly: each point of it lies in one of them, and in
/// no other.
pub proof fn law_tiles_cover_the_area(
    w: int,
    h: int,
    tile: int,
    x: int,
    y: int,
    row: int,
    col: int,
)
    requires
        0 < tile,
        moderate(w),
        moderate(h),
        moderate(tile),
        0 <= x < w,
        0 <= y < h,
        0 <= row < tile_count(h, tile),
        0 <= col < tile_count(w, tile),
    ensures
        x / tile < tile_count(w, tile),
        y / tile < tile_count(h, tile),
        ({
            let t = tile_at(w, h, tile, row, col);
            t.x <= x < t.x + t.w && t.y <= y < t.y + t.h <==> row == y / tile && col == x / tile
        }),
{
    lemma_tile_bounds(w, tile, col);
    lemma_tile_bounds(h, tile, row);
    lemma_tile_of(w, tile, x, col);
    lemma_tile_of(h, tile, y, row);
}

proof fn lemma_tile_of(extent: int, tile: int, at: int, i: int)
    requires
        0 < tile,
        0 <= at < extent,
        0 <= i < tile_count(extent, tile),
    ensures
        0 <= at / tile < tile_count(extent, tile),
        i * tile <= at < i * tile + tile_part(extent, tile, i) <==> i == at / tile,
{
    let n = (extent + tile - 1) / tile;
    let q = at / tile;
    vstd::arithmetic::div_mod::lemma_fundamental_div_mod(at, tile);
    vstd::arithmetic::div_mod::lemma_mod_bound(at, tile);
    vstd::arithmetic::div_mod::lemma_fundamental_div_mod(extent + tile - 1, tile);
    vstd::arithmetic::div_mod::lemma_mod_bound(extent + tile - 1, tile);
    assert(0 <= q < n) by (nonlinear_arith)
        requires
            at == tile * q + at % tile,
            0 <= at % tile < tile,
            0 <= at < extent,
            extent + tile - 1 == tile * n + (extent + tile - 1) % tile,
            (extent + tile - 1) % tile < tile,
            0 < tile,
    ;
    lemma_tile_bounds(extent, tile, i);
    if i * tile <= at < i * tile + tile {
        vstd::arithmetic::div_mod::lemma_fundamental_div_mod_converse(at, tile, i, at - i * tile);
    }
    if i == q {
        assert(i * tile <= at < i * tile + tile) by (nonlinear_arith)
            requires
                at == tile * q + at % tile,
                0 <= at % tile < tile,
                i == q,
        ;
    }
}

/// A line takes whole pixels, the fewest that hold it and the shadow it may cast.
pub proof fn law_lines_take_whole_pixels(width: int, px: int)
    ensures
        line_width(width, px) % 256 == 0,
        width + px <= line_width(width, px) < width + px + 256,
{
}

/// The content is as wide as one of its lines, and none is wider; without lines it has
/// no width.
pub proof fn law_content_is_as_wide_as_its_widest_line(widths: Seq<i64>, px: int, n: int)
    requires
        0 <= n <= widths.len(),
        px >= 0,
        forall|i: int| 0 <= i < n ==> #[trigger] widths[i] >= 0,
    ensures
        n == 0 ==> widest(widths, px, n) == 0,
        forall|i: int|
            0 <= i < n ==> line_width(#[trigger] widths[i] as int, px) <= widest(widths, px, n),
        n > 0 ==> exists|i: int|
            0 <= i < n && line_width(#[trigger] widths[i] as int, px) == widest(widths, px, n),
    decreases n,
{
    if n > 0 {
        law_content_is_as_wide_as_its_widest_line(widths, px, n - 1);
        let here = line_width(widths[n - 1] as int, px);
        let before = widest(widths, px, n - 1);
        if here > before || n == 1 {
            assert(line_width(widths[n - 1] as int, px) == widest(widths, px, n));
        } else {
            let i = choose|i: int|
                0 <= i < n - 1 && line_width(#[trigger] widths[i] as int, px) == before;
            assert(line_width(widths[i] as int, px) == widest(widths, px, n));
        }
    }
}

/// A tooltip begins twelve pixels right of the pointer where it fits there. Where it
/// does not, it ends twenty-four pixels left of the pointer, unless that would bring it
/// closer than four pixels to the edge, where it stays.
pub proof fn law_tooltips_stand_beside_the_pointer(p: TooltipPlace, w: int)
    ensures
        p.x + 3072 + w <= p.screen_w ==> text_left(p, w) - p.x == 3072,
        p.x + 3072 + w > p.screen_w ==> {
            &&& text_left(p, w) >= 1024
            &&& text_left(p, w) + w >= p.x - 6144
            &&& text_left(p, w) == 1024 || text_left(p, w) + w == p.x - 6144
        },
{
}

/// A tooltip begins twelve pixels above the pointer where it fits there with three
/// pixels to spare, and otherwise ends three pixels above the bottom of the screen.
pub proof fn law_tooltips_rise_from_the_bottom(p: TooltipPlace, h: int)
    ensures
        p.y - 3072 + h + 768 <= p.screen_h ==> p.y - text_top(p, h) == 3072,
        p.y - 3072 + h + 768 > p.screen_h ==> p.screen_h - (text_top(p, h) + h) == 768,
{
}

/// Lines follow one another at the size of the text and two font pixels, the first at
/// the top of the content and the last ending at its bottom. Each begins at its left,
/// or ends at its right if it is aligned so.
pub proof fn law_lines_are_stacked(p: TooltipPlace, widths: Seq<i64>, right: Seq<bool>, i: int)
    requires
        0 <= i < widths.len(),
        right.len() == widths.len(),
    ensures
        ({
            let n = widths.len() as int;
            let w = widest(widths, p.px as int, n);
            let h = text_height(p, n);
            let spot = line_spot(p, widths, right, i);
            &&& i == 0 ==> spot.1 == text_top(p, h)
            &&& i > 0 ==> spot.1 == line_spot(p, widths, right, i - 1).1 + p.scale + 2 * p.px
            &&& i == n - 1 ==> spot.1 + p.scale == text_top(p, h) + h
            &&& !right[i] ==> spot.0 == text_left(p, w)
            &&& right[i] ==> spot.0 + line_width(widths[i] as int, p.px as int) == text_left(p, w)
                + w
        }),
{
    let step = p.scale + 2 * p.px;
    let n = widths.len() as int;
    assert(i * step == (i - 1) * step + step) by (nonlinear_arith);
    assert(n * step == (n - 1) * step + step) by (nonlinear_arith);
    assert(0 * step == 0);
}

/// Aligned left a line begins where the widest begins, aligned right it ends where that
/// ends, and centred it leaves as much room before it as after it.
pub proof fn law_display_lines_are_aligned(x: int, content_w: int, width: int)
    ensures
        ({
            let low = 2 * x - content_w;
            let high = 2 * x + content_w;
            let middle = display_left(Alignment::Center, x, content_w, width);
            &&& display_left(Alignment::Left, x, content_w, width) == low
            &&& display_left(Alignment::Right, x, content_w, width) + 2 * width == high
            &&& middle - low == high - (middle + 2 * width)
        }),
{
}

/// The box of a tooltip reaches fifteen font pixels past its text on either side.
pub proof fn law_boxes_surround_their_text(text: int, size: int, px: int)
    ensures
        ({
            let (from, extent) = boxed(text, size, px);
            &&& text - from == 15 * px
            &&& (from + extent) - (text + size) == 15 * px
        }),
{
}

} // verus!
