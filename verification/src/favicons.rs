//! The atlas of server icons, player faces and other pictures loaded at run time.
use vstd::prelude::*;
use vstd::string::*;

use crate::text_map::TextMap;

verus! {

/// Side of an icon's cell in pixels.
pub const ATLAS_CELL: u32 = 64;

/// A square picture under a key.
pub struct Favicon {
    pub key: String,
    pub rgba: Vec<u8>,
    pub size: u32,
}

/// Where a picture lies on the atlas: its left and top pixel.
#[derive(Clone, Copy, Debug, PartialEq, Eq, Structural)]
pub struct IconCell {
    pub x: u32,
    pub y: u32,
}

/// The atlas.
pub struct FaviconAtlas {
    pub width: u32,
    pub height: u32,
    pub pixels: Vec<u8>,
    pub regions: TextMap<IconCell>,
}

/// Every picture has a size whose offsets fit 32 bits.
pub open spec fn icons_wf(icons: Seq<Favicon>) -> bool {
    forall|i: int| 0 <= i < icons.len() ==> 1 <= (#[trigger] icons[i]).size <= 32767
}

/// `cols` is the least number of columns whose square holds `n` cells.
pub open spec fn least_square(cols: int, n: int) -> bool {
    (cols - 1) * (cols - 1) < n <= cols * cols
}

/// The source column, or row, shown at column, or row, `at` of a cell.
pub open spec fn sampled(at: int, size: int) -> int {
    crate::pixels::least(at * size / 64, size - 1)
}

/// One channel of a picture scaled to its cell by taking the nearest pixel; a
/// pixel missing from the bytes is left blank.
pub open spec fn sample(icon: Favicon, px: int, py: int, channel: int) -> u8 {
    let size = icon.size as int;
    let at = crate::pixels::offset(size, sampled(px, size), sampled(py, size));
    if at + 3 < icon.rgba@.len() {
        icon.rgba@[at + channel]
    } else {
        0
    }
}

/// One byte of the atlas.
pub open spec fn atlas_byte(icons: Seq<Favicon>, cols: int, k: int) -> u8 {
    let x = k / 4 % (cols * 64);
    let y = k / 4 / (cols * 64);
    let i = y / 64 * cols + x / 64;
    if i < icons.len() {
        sample(icons[i], x % 64, y % 64, k % 4)
    } else {
        0
    }
}

/// The cell of picture `i`.
pub open spec fn cell_of(i: int, cols: int) -> IconCell {
    IconCell { x: (i % cols * 64) as u32, y: (i / cols * 64) as u32 }
}

/// The cells of the first `n` pictures by key; of two under one key the later.
pub open spec fn cells_by_key(icons: Seq<Favicon>, cols: int, n: int) -> Map<Seq<char>, IconCell>
    decreases n,
{
    if n <= 0 {
        Map::empty()
    } else {
        cells_by_key(icons, cols, n - 1).insert(icons[n - 1].key@, cell_of(n - 1, cols))
    }
}

/// The least number of columns whose square holds `n` cells.
pub fn columns_for(n: u32) -> (cols: u32)
    requires
        1 <= n <= 261632,
    ensures
        1 <= cols <= 512,
        least_square(cols as int, n as int),
{
    let mut cols: u32 = 1;
    assert(512 * 512 >= n);
    while cols * cols < n
        invariant
            1 <= cols <= 512,
            1 <= n <= 261632,
            (cols - 1) * (cols - 1) < n,
            cols * cols <= 262144,
        decreases 512 - cols,
    {
        assert(cols < 512) by (nonlinear_arith)
            requires
                cols * cols < n,
                n <= 262144,
                1 <= cols,
        ;
        assert((cols + 1) * (cols + 1) <= 262144) by (nonlinear_arith)
            requires
                1 <= cols < 512,
        ;
        cols = cols + 1;
    }
    cols
}

proof fn lemma_rows(n: int, cols: int, rows: int)
    requires
        1 <= n <= 261632,
        1 <= cols <= 512,
        least_square(cols, n),
        rows == (n + cols - 1) / cols,
    ensures
        1 <= rows <= cols,
        n <= rows * cols,
        (rows - 1) * cols < n,
        cols * 64 * (rows * 64) * 4 <= u32::MAX,
        0 <= cols * 64 * (rows * 64),
{
    vstd::arithmetic::div_mod::lemma_fundamental_div_mod(n + cols - 1, cols);
    vstd::arithmetic::div_mod::lemma_mod_bound(n + cols - 1, cols);
    assert(n <= rows * cols && (rows - 1) * cols < n) by (nonlinear_arith)
        requires
            n + cols - 1 == cols * rows + (n + cols - 1) % cols,
            0 <= (n + cols - 1) % cols < cols,
    ;
    assert(1 <= rows) by (nonlinear_arith)
        requires
            1 <= n <= rows * cols,
            1 <= cols,
    ;
    assert(rows <= cols) by (nonlinear_arith)
        requires
            (rows - 1) * cols < n,
            n <= cols * cols,
            1 <= cols,
    ;
    if cols == 512 {
        assert(rows <= 511);
    }
    assert(cols * rows <= 261632) by (nonlinear_arith)
        requires
            1 <= rows <= cols,
            cols <= 511 || (cols == 512 && rows <= 511),
    ;
    assert(cols * 64 * (rows * 64) == cols * rows * 4096) by (nonlinear_arith);
}

fn sample_at(icon: &Favicon, px: u32, py: u32) -> (pixel: [u8; 4])
    requires
        1 <= icon.size <= 32767,
        px < 64,
        py < 64,
    ensures
        forall|c: int| 0 <= c < 4 ==> #[trigger] pixel@[c] == sample(*icon, px as int, py as int, c),
{
    let size: u32 = icon.size;
    proof {
        assert(px * size <= 63 * 32767) by (nonlinear_arith)
            requires
                0 <= px < 64,
                0 <= size <= 32767,
        ;
        assert(py * size <= 63 * 32767) by (nonlinear_arith)
            requires
                0 <= py < 64,
                0 <= size <= 32767,
        ;
        assert(0 <= px * size && 0 <= py * size) by (nonlinear_arith)
            requires
                0 <= px,
                0 <= py,
                0 <= size,
        ;
    }
    let fx: u32 = px * size / 64;
    let sx: u32 = if fx <= size - 1 {
        fx
    } else {
        size - 1
    };
    let fy: u32 = py * size / 64;
    let sy: u32 = if fy <= size - 1 {
        fy
    } else {
        size - 1
    };
    proof {
        assert(0 <= sy * size && sy * size + sx < 32767 * 32767) by (nonlinear_arith)
            requires
                0 <= sy < size,
                0 <= sx < size,
                size <= 32767,
        ;
    }
    let at: usize = ((sy * size + sx) * 4) as usize;
    if at + 3 < icon.rgba.len() {
        [icon.rgba[at], icon.rgba[at + 1], icon.rgba[at + 2], icon.rgba[at + 3]]
    } else {
        [0, 0, 0, 0]
    }
}

fn atlas_pixels(icons: &Vec<Favicon>, cols: u32, rows: u32) -> (pixels: Vec<u8>)
    requires
        icons_wf(icons@),
        1 <= cols <= 512,
        1 <= rows <= 512,
        cols * 64 * (rows * 64) * 4 <= u32::MAX,
    ensures
        pixels@ == Seq::new(
            (cols * 64 * (rows * 64) * 4) as nat,
            |k: int| atlas_byte(icons@, cols as int, k),
        ),
{
    assert(0 <= cols * 64 * (rows * 64)) by (nonlinear_arith)
        requires
            0 <= cols,
            0 <= rows,
    ;
    let width: u32 = cols * 64;
    let height: u32 = rows * 64;
    let total: u32 = width * height;
    let mut pixels: Vec<u8> = Vec::new();
    let mut p: u32 = 0;
    while p < total
        invariant
            p <= total,
            total == cols * 64 * (rows * 64),
            cols * 64 * (rows * 64) * 4 <= u32::MAX,
            width == cols * 64,
            height == rows * 64,
            1 <= cols <= 512,
            1 <= rows <= 512,
            icons_wf(icons@),
            pixels@.len() == 4 * p,
            forall|k: int|
                0 <= k < 4 * p ==> #[trigger] pixels@[k] == atlas_byte(icons@, cols as int, k),
        decreases total - p,
    {
        let x: u32 = p % width;
        let y: u32 = p / width;
        proof {
            vstd::arithmetic::div_mod::lemma_fundamental_div_mod(p as int, width as int);
            vstd::arithmetic::div_mod::lemma_mod_bound(p as int, width as int);
            assert(y < rows * 64) by (nonlinear_arith)
                requires
                    p == width * y + x,
                    0 <= x,
                    p < width * (rows * 64),
                    0 < width,
            ;
            assert(0 <= y / 64 * cols && y / 64 * cols <= 512 * 512) by (nonlinear_arith)
                requires
                    0 <= y < 512 * 64,
                    0 <= cols <= 512,
            ;
        }
        let i: u32 = y / 64 * cols + x / 64;
        let ghost before = pixels@;
        let mut pixel: [u8; 4] = [0, 0, 0, 0];
        if (i as usize) < icons.len() {
            assert(1 <= icons@[i as int].size <= 32767);
            pixel = sample_at(&icons[i as usize], x % 64, y % 64);
        }
        proof {
            assert forall|c: int| 0 <= c < 4 implies #[trigger] pixel@[c] == atlas_byte(
                icons@,
                cols as int,
                4 * p + c,
            ) by {
                assert((4 * p + c) / 4 == p && (4 * p + c) % 4 == c);
            }
        }
        pixels.push(pixel[0]);
        pixels.push(pixel[1]);
        pixels.push(pixel[2]);
        pixels.push(pixel[3]);
        proof {
            assert forall|k: int| 0 <= k < 4 * p + 4 implies #[trigger] pixels@[k] == atlas_byte(
                icons@,
                cols as int,
                k,
            ) by {
                if k < 4 * p {
                    assert(pixels@[k] == before[k]);
                } else {
                    let c = k - 4 * p;
                    assert(pixels@[k] == pixel@[c]);
                }
            }
        }
        p = p + 1;
    }
    pixels
}

/// Lays the pictures out on a grid as square as possible. Without pictures there
/// is no new atlas.
pub fn build_favicon_atlas(icons: &Vec<Favicon>) -> (atlas: Option<FaviconAtlas>)
    requires
        icons@.len() <= 261632,
        icons_wf(icons@),
    ensures
        icons@.len() == 0 <==> atlas is None,
        atlas matches Some(a) ==> {
            let n = icons@.len() as int;
            let cols = (a.width / 64) as int;
            let rows = (a.height / 64) as int;
            &&& least_square(cols, n)
            &&& rows == (n + cols - 1) / cols
            &&& a.width == cols * 64
            &&& a.height == rows * 64
            &&& a.pixels@ == Seq::new(
                (a.width * a.height * 4) as nat,
                |k: int| atlas_byte(icons@, cols, k),
            )
            &&& a.regions.wf()
            &&& a.regions@ == cells_by_key(icons@, cols, n)
        },
{
    if icons.len() == 0 {
        return None;
    }
    let n: u32 = icons.len() as u32;
    let cols: u32 = columns_for(n);
    let rows: u32 = (n + cols - 1) / cols;
    proof {
        lemma_rows(n as int, cols as int, rows as int);
    }
    let pixels = atlas_pixels(icons, cols, rows);
    let mut regions: TextMap<IconCell> = TextMap::new();
    let mut i: u32 = 0;
    while i < n
        invariant
            i <= n,
            n == icons@.len(),
            n <= 261632,
            1 <= cols <= 512,
            1 <= rows <= 512,
            n <= rows * cols,
            regions.wf(),
            regions@ == cells_by_key(icons@, cols as int, i as int),
        decreases n - i,
    {
        proof {
            vstd::arithmetic::div_mod::lemma_fundamental_div_mod(i as int, cols as int);
            vstd::arithmetic::div_mod::lemma_mod_bound(i as int, cols as int);
            assert(i as int / cols as int <= 512) by (nonlinear_arith)
                requires
                    i as int == cols as int * (i as int / cols as int) + i as int % cols as int,
                    0 <= i as int % cols as int,
                    i < rows * cols,
                    1 <= cols,
                    rows <= 512,
            ;
        }
        let cell = IconCell { x: i % cols * ATLAS_CELL, y: i / cols * ATLAS_CELL };
        regions.insert(icons[i as usize].key.as_str().to_owned(), cell);
        i = i + 1;
    }
    Some(FaviconAtlas { width: cols * ATLAS_CELL, height: rows * ATLAS_CELL, pixels, regions })
}

/// Every picture has a cell of its own inside the atlas, and the grid has neither
/// a column nor a row more than it needs.
pub proof fn law_cells_are_apart(n: int, cols: int, rows: int, i: int, j: int)
    requires
        1 <= n <= 261632,
        1 <= cols <= 512,
        least_square(cols, n),
        rows == (n + cols - 1) / cols,
        0 <= i < n,
        0 <= j < n,
    ensures
        cell_of(i, cols).x + 64 <= cols * 64,
        cell_of(i, cols).y + 64 <= rows * 64,
        i != j ==> cell_of(i, cols) != cell_of(j, cols),
        rows <= cols,
        (rows - 1) * cols < n <= rows * cols,
{
    lemma_rows(n, cols, rows);
    vstd::arithmetic::div_mod::lemma_fundamental_div_mod(i, cols);
    vstd::arithmetic::div_mod::lemma_mod_bound(i, cols);
    vstd::arithmetic::div_mod::lemma_fundamental_div_mod(j, cols);
    vstd::arithmetic::div_mod::lemma_mod_bound(j, cols);
    assert(0 <= i / cols < rows) by (nonlinear_arith)
        requires
            i == cols * (i / cols) + i % cols,
            0 <= i % cols < cols,
            0 <= i < rows * cols,
    ;
    assert(0 <= j / cols < rows) by (nonlinear_arith)
        requires
            j == cols * (j / cols) + j % cols,
            0 <= j % cols < cols,
            0 <= j < rows * cols,
    ;
}

/// A key leads to the cell of the last picture under it.
pub proof fn law_keys_lead_to_their_picture(icons: Seq<Favicon>, cols: int, n: int, i: int)
    requires
        0 <= i < n <= icons.len(),
        forall|j: int| i < j < n ==> (#[trigger] icons[j]).key@ != icons[i].key@,
    ensures
        cells_by_key(icons, cols, n).dom().contains(icons[i].key@),
        cells_by_key(icons, cols, n)[icons[i].key@] == cell_of(i, cols),
    decreases n,
{
    if i < n - 1 {
        law_keys_lead_to_their_picture(icons, cols, n - 1, i);
    }
}

/// No key leads anywhere that is not under a picture's name.
pub proof fn law_keys_are_those_of_pictures(
    icons: Seq<Favicon>,
    cols: int,
    n: int,
    key: Seq<char>,
)
    requires
        0 <= n <= icons.len(),
        cells_by_key(icons, cols, n).dom().contains(key),
    ensures
        exists|i: int| 0 <= i < n && (#[trigger] icons[i]).key@ == key,
    decreases n,
{
    if n > 0 && icons[n - 1].key@ != key {
        law_keys_are_those_of_pictures(icons, cols, n - 1, key);
    }
}

/// A cell shows its picture scaled to 64 pixels a side: each pixel of the cell is that
/// pixel of the picture whose extent its own upper left corner falls into.
pub proof fn law_cells_show_their_picture(
    icons: Seq<Favicon>,
    cols: int,
    i: int,
    px: int,
    py: int,
    sx: int,
    sy: int,
    channel: int,
)
    requires
        1 <= cols <= 512,
        0 <= i < icons.len() <= 261632,
        i < 512 * cols,
        1 <= icons[i].size <= 32767,
        icons[i].rgba@.len() >= 4 * (icons[i].size * icons[i].size),
        0 <= px < 64,
        0 <= py < 64,
        64 * sx <= px * icons[i].size < 64 * (sx + 1),
        64 * sy <= py * icons[i].size < 64 * (sy + 1),
        0 <= channel < 4,
    ensures
        ({
            let cell = cell_of(i, cols);
            atlas_byte(icons, cols, 4 * ((cell.y + py) * (cols * 64) + cell.x + px) + channel)
                == icons[i].rgba@[4 * (sy * icons[i].size + sx) + channel]
        }),
{
    let size = icons[i].size as int;
    let col = i % cols;
    let row = i / cols;
    vstd::arithmetic::div_mod::lemma_fundamental_div_mod(i, cols);
    vstd::arithmetic::div_mod::lemma_mod_bound(i, cols);
    assert(0 <= row < 512) by (nonlinear_arith)
        requires
            i == cols * row + col,
            0 <= col < cols,
            0 <= i < 512 * cols,
    ;
    let cell = cell_of(i, cols);
    let w = cols * 64;
    let x = cell.x + px;
    let y = cell.y + py;
    let p = y * w + x;
    let k = 4 * p + channel;
    assert(cell.x == col * 64 && cell.y == row * 64);
    assert(0 <= x < w);
    assert(0 <= p) by (nonlinear_arith)
        requires
            0 <= y,
            0 <= w,
            0 <= x,
            p == y * w + x,
    ;
    assert(k / 4 == p && k % 4 == channel);
    vstd::arithmetic::div_mod::lemma_fundamental_div_mod_converse(p, w, y, x);
    assert(x / 64 == col && x % 64 == px);
    assert(y / 64 == row && y % 64 == py);
    assert(row * cols + col == i) by (nonlinear_arith)
        requires
            i == cols * row + col,
    ;
    lemma_sampled(px, size, sx);
    lemma_sampled(py, size, sy);
    assert(4 * (sy * size + sx) + 3 < 4 * (size * size)) by (nonlinear_arith)
        requires
            0 <= sx < size,
            0 <= sy < size,
    ;
}

proof fn lemma_sampled(at: int, size: int, s: int)
    requires
        0 <= at < 64,
        1 <= size,
        64 * s <= at * size < 64 * (s + 1),
    ensures
        sampled(at, size) == s,
        0 <= s < size,
{
    assert(0 <= at * size && at * size <= 63 * size) by (nonlinear_arith)
        requires
            0 <= at < 64,
            1 <= size,
    ;
    assert(at * size / 64 == s);
}

} // verus!
