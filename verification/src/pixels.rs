//! Images as bytes: four to a pixel, rows top to bottom.
use vstd::prelude::*;

verus! {

/// A decoded image.
pub struct RgbaImage {
    pub pixels: Vec<u8>,
    pub width: u32,
    pub height: u32,
}

impl RgbaImage {
    /// Four bytes for each pixel.
    pub open spec fn wf(self) -> bool {
        self.pixels@.len() == self.width * self.height * 4
    }
}

/// The RGBA reading of an encoded image: width, height, bytes.
pub uninterp spec fn decoded(bytes: Seq<u8>) -> Option<(u32, u32, Seq<u8>)>;

/// The view of an optional image.
pub open spec fn image_view(image: Option<RgbaImage>) -> Option<(u32, u32, Seq<u8>)> {
    match image {
        Some(i) => Some((i.width, i.height, i.pixels@)),
        None => None,
    }
}

/// Decodes with `image::load_from_memory` and `DynamicImage::to_rgba8`. What
/// comes out depends on the bytes alone; a decoded buffer holds exactly four
/// bytes for each pixel.
#[verifier::external_body]
fn decode_with_image(bytes: &[u8]) -> (image: Option<RgbaImage>)
    ensures
        image_view(image) == decoded(bytes@),
        image is Some ==> image->0.wf(),
{
    let rgba = image::load_from_memory(bytes).ok()?.to_rgba8();
    let (width, height) = rgba.dimensions();
    Some(RgbaImage { pixels: rgba.into_raw(), width, height })
}

/// The one-pixel magenta image shown for a texture that did not load.
pub open spec fn magenta() -> Seq<u8> {
    seq![255u8, 0u8, 255u8, 255u8]
}

/// The placeholder of a texture that did not load.
pub fn missing_image() -> (image: RgbaImage)
    ensures
        image.wf(),
        image.pixels@ == magenta(),
        image.width == 1,
        image.height == 1,
{
    let mut pixels: Vec<u8> = Vec::new();
    pixels.push(255);
    pixels.push(0);
    pixels.push(255);
    pixels.push(255);
    assert(pixels@ =~= magenta());
    let image = RgbaImage { pixels, width: 1, height: 1 };
    assert(image.width * image.height == 1) by (nonlinear_arith)
        requires
            image.width == 1,
            image.height == 1,
    ;
    image
}

/// A loaded image, or the placeholder.
pub fn image_or_missing(loaded: Option<RgbaImage>) -> (image: RgbaImage)
    ensures
        loaded is Some ==> image == loaded->0,
        loaded is None ==> image.wf() && image.pixels@ == magenta() && image.width == 1
            && image.height == 1,
{
    match loaded {
        Some(image) => image,
        None => missing_image(),
    }
}

/// The image of an asset file's bytes, or the placeholder.
pub fn load_overlay_rgba(file: Option<&[u8]>) -> (image: RgbaImage)
    ensures
        image.wf(),
        match file {
            Some(bytes) => match decoded(bytes@) {
                Some((w, h, px)) => image.width == w && image.height == h && image.pixels@ == px,
                None => image.pixels@ == magenta() && image.width == 1 && image.height == 1,
            },
            None => image.pixels@ == magenta() && image.width == 1 && image.height == 1,
        },
{
    match file {
        Some(bytes) => image_or_missing(decode_with_image(bytes)),
        None => missing_image(),
    }
}

/// The logo in an icon file, if it decodes.
pub fn decode_logo(bytes: &[u8]) -> (image: Option<RgbaImage>)
    ensures
        image_view(image) == decoded(bytes@),
        image is Some ==> image->0.wf(),
{
    decode_with_image(bytes)
}

/// The byte offset of a pixel.
pub open spec fn offset(stride: int, x: int, y: int) -> int {
    (y * stride + x) * 4
}

/// A rectangle copied from one buffer of pixels to another: the strides of both, where
/// it goes, and its size.
pub struct Blit {
    pub dst_stride: int,
    pub src_stride: int,
    pub dx: int,
    pub dy: int,
    pub w: int,
    pub h: int,
}

impl Blit {
    /// Where pixel (`x`, `y`) of the rectangle is read.
    pub open spec fn read_at(self, x: int, y: int) -> int {
        offset(self.src_stride, x, y)
    }

    /// Where pixel (`x`, `y`) of the rectangle goes. One past the end of its row goes
    /// on in the next.
    pub open spec fn write_at(self, x: int, y: int) -> int {
        offset(self.dst_stride, self.dx + x, self.dy + y)
    }

    /// No length is negative.
    pub open spec fn wf(self) -> bool {
        &&& 0 <= self.dst_stride && 0 <= self.src_stride
        &&& 0 <= self.dx && 0 <= self.dy
        &&& 0 <= self.w && 0 <= self.h
    }

    /// The largest offsets of both buffers fit 32 bits.
    pub open spec fn addressable(self) -> bool {
        self.w > 0 && self.h > 0 ==> {
            &&& self.read_at(self.w - 1, self.h - 1) <= u32::MAX
            &&& self.write_at(self.w - 1, self.h - 1) <= u32::MAX
        }
    }

    /// The last pixel, in reading order, of the first `rows` rows and the first `cols`
    /// pixels of the next that is read inside a source of `len` bytes and goes to `at`.
    pub open spec fn writer(self, len: int, at: int, rows: int, cols: int) -> Option<(int, int)>
        decreases rows, cols,
    {
        if cols > 0 {
            if self.write_at(cols - 1, rows) == at && self.read_at(cols - 1, rows) + 4 <= len {
                Some((cols - 1, rows))
            } else {
                self.writer(len, at, rows, cols - 1)
            }
        } else if rows > 0 {
            self.writer(len, at, rows - 1, self.w)
        } else {
            None
        }
    }

    /// `dst` after that part of the rectangle.
    pub open spec fn upto(self, dst: Seq<u8>, src: Seq<u8>, rows: int, cols: int) -> Seq<u8> {
        Seq::new(
            dst.len(),
            |k: int|
                {
                    let at = k / 4 * 4;
                    match self.writer(src.len() as int, at, rows, cols) {
                        Some((x, y)) => if at + 4 <= dst.len() {
                            src[self.read_at(x, y) + k % 4]
                        } else {
                            dst[k]
                        },
                        None => dst[k],
                    }
                },
        )
    }

    /// `dst` after the rectangle was copied. Where two pixels go to one place, the later
    /// stays. Pixels outside either buffer are left out.
    pub open spec fn blitted(self, dst: Seq<u8>, src: Seq<u8>) -> Seq<u8> {
        self.upto(dst, src, self.h, 0)
    }

    /// A rectangle inside canvases of `rows` and of its own rows can be addressed if the
    /// canvases can.
    pub proof fn lemma_inside(self, rows: int)
        requires
            self.wf(),
            self.dx + self.w <= self.dst_stride,
            self.dy + self.h <= rows,
            self.w <= self.src_stride,
            rows * self.dst_stride * 4 <= u32::MAX,
            self.h * self.src_stride * 4 <= u32::MAX,
        ensures
            self.addressable(),
    {
        if self.w > 0 && self.h > 0 {
            let (ss, ds) = (self.src_stride, self.dst_stride);
            let (low, h) = (self.dy, self.h);
            assert((low + h - 1) * ds <= rows * ds - ds) by (nonlinear_arith)
                requires
                    low + h <= rows,
                    0 <= ds,
            ;
            assert((h - 1) * ss == h * ss - ss) by (nonlinear_arith);
        }
    }

    proof fn lemma_addressable(self, x: int, y: int)
        requires
            self.wf(),
            self.addressable(),
            0 <= x < self.w,
            0 <= y < self.h,
        ensures
            0 <= y * self.src_stride,
            0 <= self.read_at(x, y) <= u32::MAX,
            0 <= (self.dy + y) * self.dst_stride,
            0 <= self.write_at(x, y) <= u32::MAX,
    {
        let (ss, ds) = (self.src_stride, self.dst_stride);
        let (last, low) = (self.h - 1, self.dy);
        assert(0 <= y * ss <= last * ss) by (nonlinear_arith)
            requires
                0 <= y <= last,
                0 <= ss,
        ;
        assert(0 <= (low + y) * ds <= (low + last) * ds) by (nonlinear_arith)
            requires
                0 <= y <= last,
                0 <= low,
                0 <= ds,
        ;
    }

    /// A pixel's row and column follow from its place where the rectangle keeps to its
    /// rows.
    proof fn lemma_place(self, at: int, x: int, y: int)
        requires
            self.wf(),
            self.dx + self.w <= self.dst_stride,
            0 <= x < self.w,
            0 <= y,
            at % 4 == 0,
        ensures
            self.write_at(x, y) == at <==> at / 4 % self.dst_stride == self.dx + x && at / 4
                / self.dst_stride == self.dy + y,
    {
        let ds = self.dst_stride;
        let p = at / 4;
        if self.write_at(x, y) == at {
            assert(p == (self.dy + y) * ds + (self.dx + x));
            vstd::arithmetic::div_mod::lemma_fundamental_div_mod_converse(
                p,
                ds,
                self.dy + y,
                self.dx + x,
            );
        }
        if p % ds == self.dx + x && p / ds == self.dy + y {
            vstd::arithmetic::div_mod::lemma_fundamental_div_mod(p, ds);
            assert(p == (self.dy + y) * ds + (self.dx + x)) by (nonlinear_arith)
                requires
                    p == ds * (p / ds) + p % ds,
                    p % ds == self.dx + x,
                    p / ds == self.dy + y,
            ;
        }
    }

    proof fn lemma_writer(self, len: int, at: int, rows: int, cols: int)
        requires
            self.wf(),
            self.dx + self.w <= self.dst_stride,
            0 <= rows,
            0 <= cols <= self.w,
            at % 4 == 0,
        ensures
            ({
                let x = at / 4 % self.dst_stride - self.dx;
                let y = at / 4 / self.dst_stride - self.dy;
                self.writer(len, at, rows, cols) == (if 0 <= x < self.w && 0 <= y && (y < rows || y
                    == rows && x < cols) && self.read_at(x, y) + 4 <= len {
                    Some((x, y))
                } else {
                    None
                })
            }),
        decreases rows, cols,
    {
        if cols > 0 {
            self.lemma_place(at, cols - 1, rows);
            self.lemma_writer(len, at, rows, cols - 1);
        } else if rows > 0 {
            self.lemma_writer(len, at, rows - 1, self.w);
        }
    }
}

/// A rectangle that keeps to the rows of its destination is copied pixel by pixel: each
/// byte of a pixel both buffers hold is the source's, every other stays.
pub proof fn law_rectangles_are_copied(b: Blit, dst: Seq<u8>, src: Seq<u8>, k: int)
    requires
        b.wf(),
        b.dx + b.w <= b.dst_stride,
        0 <= k < dst.len(),
    ensures
        b.blitted(dst, src).len() == dst.len(),
        ({
            let x = k / 4 % b.dst_stride - b.dx;
            let y = k / 4 / b.dst_stride - b.dy;
            b.blitted(dst, src)[k] == (if 0 <= x < b.w && 0 <= y < b.h && b.read_at(x, y) + 4
                <= src.len() && k / 4 * 4 + 4 <= dst.len() {
                src[b.read_at(x, y) + k % 4]
            } else {
                dst[k]
            })
        }),
{
    let at = k / 4 * 4;
    b.lemma_writer(src.len() as int, at, b.h, 0);
    assert(at / 4 == k / 4);
}

proof fn lemma_later_pixels_stay(b: Blit, len: int, at: int, rows: int, cols: int, x: int, y: int)
    requires
        0 <= x < b.w,
        0 <= y,
        y < rows || y == rows && x < cols,
        0 <= cols <= b.w,
        b.write_at(x, y) == at,
        b.read_at(x, y) + 4 <= len,
    ensures
        b.writer(len, at, rows, cols) matches Some((px, py)) && (y < py || y == py && x <= px),
    decreases rows, cols,
{
    if cols > 0 {
        if !(x == cols - 1 && y == rows) && !(b.write_at(cols - 1, rows) == at && b.read_at(cols - 1, rows)
            + 4 <= len) {
            lemma_later_pixels_stay(b, len, at, rows, cols - 1, x, y);
        }
    } else {
        lemma_later_pixels_stay(b, len, at, rows - 1, b.w, x, y);
    }
}

proof fn lemma_writer_lands(b: Blit, len: int, at: int, rows: int, cols: int)
    requires
        0 <= rows,
        0 <= cols <= b.w,
    ensures
        b.writer(len, at, rows, cols) matches Some((x, y)) ==> 0 <= x < b.w && 0 <= y && (y < rows
            || y == rows && x < cols) && b.write_at(x, y) == at && b.read_at(x, y) + 4 <= len,
    decreases rows, cols,
{
    if cols > 0 {
        lemma_writer_lands(b, len, at, rows, cols - 1);
    } else if rows > 0 {
        lemma_writer_lands(b, len, at, rows - 1, b.w);
    }
}

/// Whatever the rectangle, a pixel both buffers hold is copied unless a later one goes
/// to the same place.
pub proof fn law_the_last_pixel_stays(b: Blit, dst: Seq<u8>, src: Seq<u8>, x: int, y: int, channel: int)
    requires
        b.wf(),
        0 <= x < b.w,
        0 <= y < b.h,
        0 <= channel < 4,
        0 <= b.write_at(x, y),
        b.write_at(x, y) + 4 <= dst.len(),
        b.read_at(x, y) + 4 <= src.len(),
        forall|px: int, py: int|
            0 <= px < b.w && y <= py < b.h && (y < py || x < px) && b.read_at(px, py) + 4 <= src.len()
                ==> #[trigger] b.write_at(px, py) != b.write_at(x, y),
    ensures
        b.blitted(dst, src)[b.write_at(x, y) + channel] == src[b.read_at(x, y) + channel],
{
    let len = src.len() as int;
    lemma_later_pixels_stay(b, len, b.write_at(x, y), b.h, 0, x, y);
    lemma_writer_lands(b, len, b.write_at(x, y), b.h, 0);
}

/// Whatever the rectangle, a byte stays that no pixel of the source goes to.
pub proof fn law_other_pixels_stay(b: Blit, dst: Seq<u8>, src: Seq<u8>, k: int)
    requires
        b.wf(),
        0 <= k < dst.len(),
        forall|x: int, y: int|
            0 <= x < b.w && 0 <= y < b.h && b.read_at(x, y) + 4 <= src.len() ==> #[trigger] b.write_at(x, y)
                != k / 4 * 4,
    ensures
        b.blitted(dst, src)[k] == dst[k],
{
    lemma_writer_lands(b, src.len() as int, k / 4 * 4, b.h, 0);
}

fn pixel_offset(stride: u32, x: u64, y: u64) -> (at: usize)
    requires
        0 <= y * stride,
        offset(stride as int, x as int, y as int) <= u32::MAX,
    ensures
        at == offset(stride as int, x as int, y as int),
{
    let row: u64 = y * stride as u64;
    ((row + x) * 4) as usize
}

fn copy_pixel(dst: &mut Vec<u8>, di: usize, src: &[u8], si: usize)
    ensures
        final(dst)@.len() == old(dst)@.len(),
        forall|k: int|
            0 <= k < old(dst)@.len() ==> #[trigger] final(dst)@[k] == (if di <= k < di + 4 && si + 4
                <= src@.len() && di + 4 <= old(dst)@.len() {
                src@[si + k - di]
            } else {
                old(dst)@[k]
            }),
{
    if src.len() >= 4 && si <= src.len() - 4 && dst.len() >= 4 && di <= dst.len() - 4 {
        dst[di] = src[si];
        dst[di + 1] = src[si + 1];
        dst[di + 2] = src[si + 2];
        dst[di + 3] = src[si + 3];
    }
}

/// The copy a call of [`blit_image`] makes.
pub open spec fn blit_of(dst_stride: u32, src_stride: u32, dx: u32, dy: u32, w: u32, h: u32) -> Blit {
    Blit {
        dst_stride: dst_stride as int,
        src_stride: src_stride as int,
        dx: dx as int,
        dy: dy as int,
        w: w as int,
        h: h as int,
    }
}

/// Copies a rectangle of pixels.
pub fn blit_image(
    dst: &mut Vec<u8>,
    dst_stride: u32,
    src: &[u8],
    src_stride: u32,
    dx: u32,
    dy: u32,
    w: u32,
    h: u32,
)
    requires
        blit_of(dst_stride, src_stride, dx, dy, w, h).addressable(),
    ensures
        final(dst)@ == blit_of(dst_stride, src_stride, dx, dy, w, h).blitted(
            old(dst)@,
            src@,
        ),
{
    let ghost base = dst@;
    let ghost b = blit_of(dst_stride, src_stride, dx, dy, w, h);
    assert(base =~= b.upto(base, src@, 0, 0));
    let mut py: u32 = 0;
    while py < h
        invariant
            py <= h,
            b == blit_of(dst_stride, src_stride, dx, dy, w, h),
            b.addressable(),
            dst@ == b.upto(base, src@, py as int, 0),
        decreases h - py,
    {
        let mut px: u32 = 0;
        while px < w
            invariant
                py < h,
                px <= w,
                b == blit_of(dst_stride, src_stride, dx, dy, w, h),
                b.addressable(),
                dst@ == b.upto(base, src@, py as int, px as int),
            decreases w - px,
        {
            proof {
                b.lemma_addressable(px as int, py as int);
            }
            let si: usize = pixel_offset(src_stride, px as u64, py as u64);
            let di: usize = pixel_offset(
                dst_stride,
                dx as u64 + px as u64,
                dy as u64 + py as u64,
            );
            let ghost before = dst@;
            copy_pixel(dst, di, src, si);
            proof {
                let after = b.upto(base, src@, py as int, px + 1);
                assert forall|k: int| 0 <= k < base.len() implies dst@[k] == after[k] by {
                    let at = k / 4 * 4;
                    assert(di % 4 == 0);
                    assert(di <= k < di + 4 <==> at == di);
                    if at == di {
                        assert(si + k - di == si + k % 4);
                    }
                    assert(before[k] == b.upto(base, src@, py as int, px as int)[k]);
                }
                assert(dst@ =~= after);
            }
            px = px + 1;
        }
        assert(dst@ =~= b.upto(base, src@, py + 1, 0));
        py = py + 1;
    }
}

/// A byte belongs to the pixel its quotient names.
proof fn lemma_pixel_of_byte(k: int, stride: int, x: int, y: int)
    requires
        0 <= x < stride,
        0 <= y,
        offset(stride, x, y) <= k < offset(stride, x, y) + 4,
    ensures
        k / 4 % stride == x,
        k / 4 / stride == y,
{
    assert(k / 4 == y * stride + x);
    vstd::arithmetic::div_mod::lemma_fundamental_div_mod_converse(k / 4, stride, y, x);
}

/// A picture to place: its bytes, one row after the other, and its rectangle.
pub struct Stamp {
    pub src: Seq<u8>,
    pub x: int,
    pub y: int,
    pub w: int,
    pub h: int,
}

impl Stamp {
    /// The copy that puts it down on a canvas of a stride.
    pub open spec fn blit(self, stride: int) -> Blit {
        Blit {
            dst_stride: stride,
            src_stride: self.w,
            dx: self.x,
            dy: self.y,
            w: self.w,
            h: self.h,
        }
    }

    /// The rectangle lies in a square of `size`, and the bytes fill it.
    pub open spec fn inside(self, size: int) -> bool {
        &&& 0 <= self.x && 0 <= self.y && 0 <= self.w && 0 <= self.h
        &&& self.x + self.w <= size && self.y + self.h <= size
        &&& self.src.len() == self.w * self.h * 4
    }
}

/// Two rectangles share no pixel.
pub open spec fn apart(a: Stamp, b: Stamp) -> bool {
    a.x + a.w <= b.x || b.x + b.w <= a.x || a.y + a.h <= b.y || b.y + b.h <= a.y
}

/// `canvas` after the first `n` stamps.
pub open spec fn stamped(canvas: Seq<u8>, size: int, stamps: Seq<Stamp>, n: int) -> Seq<u8>
    decreases n,
{
    if n <= 0 {
        canvas
    } else {
        let s = stamps[n - 1];
        s.blit(size).blitted(stamped(canvas, size, stamps, n - 1), s.src)
    }
}

proof fn lemma_stamped_len(canvas: Seq<u8>, size: int, stamps: Seq<Stamp>, n: int)
    ensures
        stamped(canvas, size, stamps, n).len() == canvas.len(),
    decreases n,
{
    if n > 0 {
        lemma_stamped_len(canvas, size, stamps, n - 1);
    }
}

/// Only the stamps already put down matter.
pub proof fn lemma_stamped_prefix(
    canvas: Seq<u8>,
    size: int,
    a: Seq<Stamp>,
    b: Seq<Stamp>,
    n: int,
)
    requires
        forall|i: int| 0 <= i < n ==> a[i] == b[i],
    ensures
        stamped(canvas, size, a, n) == stamped(canvas, size, b, n),
    decreases n,
{
    if n > 0 {
        lemma_stamped_prefix(canvas, size, a, b, n - 1);
        assert(a[n - 1] == b[n - 1]);
    }
}

/// Pictures that do not overlap can be read back from the canvas unchanged.
pub proof fn law_stamps_read_back(
    canvas: Seq<u8>,
    size: int,
    stamps: Seq<Stamp>,
    n: int,
    i: int,
    col: int,
    row: int,
    channel: int,
)
    requires
        0 < size,
        canvas.len() == size * size * 4,
        0 <= i < n <= stamps.len(),
        forall|a: int| 0 <= a < stamps.len() ==> (#[trigger] stamps[a]).inside(size),
        forall|a: int, b: int|
            0 <= a < b < stamps.len() ==> apart(#[trigger] stamps[a], #[trigger] stamps[b]),
        0 <= col < stamps[i].w,
        0 <= row < stamps[i].h,
        0 <= channel < 4,
    ensures
        stamped(canvas, size, stamps, n)[offset(size, stamps[i].x + col, stamps[i].y + row)
            + channel] == stamps[i].src[offset(stamps[i].w, col, row) + channel],
    decreases n,
{
    let s = stamps[i];
    assert(s.inside(size));
    let k = offset(size, s.x + col, s.y + row) + channel;
    let last = stamps[n - 1];
    let before = stamped(canvas, size, stamps, n - 1);
    lemma_stamped_len(canvas, size, stamps, n - 1);
    assert(offset(size, s.x + col, s.y + row) >= 0 && offset(
        size,
        s.x + col,
        s.y + row,
    ) + 4 <= size * size * 4) by (nonlinear_arith)
        requires
            offset(size, s.x + col, s.y + row) == ((s.y + row) * size + (s.x + col)) * 4,
            0 <= s.x + col < size,
            0 <= s.y + row < size,
    ;
    lemma_pixel_of_byte(k, size, s.x + col, s.y + row);
    assert(last.inside(size));
    law_rectangles_are_copied(last.blit(size), before, last.src, k);
    if i == n - 1 {
        assert(offset(s.w, col, row) + 4 <= s.src.len() && offset(s.w, col, row) >= 0)
            by (nonlinear_arith)
            requires
                0 <= col < s.w,
                0 <= row < s.h,
                s.src.len() == s.w * s.h * 4,
                offset(s.w, col, row) == (row * s.w + col) * 4,
        ;
    } else {
        law_stamps_read_back(canvas, size, stamps, n - 1, i, col, row, channel);
        assert(apart(s, last));
    }
}

/// A canvas of zeros.
pub open spec fn blank(len: nat) -> Seq<u8> {
    Seq::new(len, |i: int| 0u8)
}

pub fn blank_pixels(len: usize) -> (pixels: Vec<u8>)
    ensures
        pixels@ == blank(len as nat),
{
    let pixels: Vec<u8> = vec![0u8; len];
    assert(pixels@ =~= blank(len as nat));
    pixels
}

/// The part of an image that a crop keeps: its columns, and its rows from `src_y`.
pub open spec fn cropped(pixels: Seq<u8>, full_w: int, src_y: int, crop_w: int, crop_h: int) -> Seq<u8> {
    Seq::new(
        (crop_w * crop_h * 4) as nat,
        |k: int| pixels[offset(full_w, k / 4 % crop_w, src_y + k / 4 / crop_w) + k % 4],
    )
}

/// The smaller of two numbers.
pub open spec fn least(a: int, b: int) -> int {
    if a <= b {
        a
    } else {
        b
    }
}

/// The rows an image has from `src_y` on.
pub open spec fn rows_from(height: int, src_y: int) -> int {
    if src_y <= height {
        height - src_y
    } else {
        0
    }
}

pub proof fn lemma_grid(p: int, w: int, h: int)
    requires
        0 <= p < w * h,
        0 < w,
    ensures
        0 <= p % w < w,
        0 <= p / w < h,
{
    vstd::arithmetic::div_mod::lemma_fundamental_div_mod(p, w);
    vstd::arithmetic::div_mod::lemma_mod_bound(p, w);
    assert(0 <= p / w < h) by (nonlinear_arith)
        requires
            p == w * (p / w) + p % w,
            0 <= p % w < w,
            0 <= p < w * h,
            0 < w,
    ;
}

/// Crops an image to at most `max_w` by `max_h`, from row `src_y` down.
pub fn crop_image(image: &RgbaImage, src_y: u32, max_w: u32, max_h: u32) -> (out: RgbaImage)
    requires
        image.wf(),
    ensures
        out.wf(),
        out.width == least(max_w as int, image.width as int),
        out.height == least(max_h as int, rows_from(image.height as int, src_y as int)),
        out.pixels@ == cropped(
            image.pixels@,
            image.width as int,
            src_y as int,
            out.width as int,
            out.height as int,
        ),
{
    let held: usize = image.pixels.len();
    let full_w: u32 = image.width;
    let crop_w: u32 = if max_w < full_w {
        max_w
    } else {
        full_w
    };
    let rows: u32 = image.height.saturating_sub(src_y);
    let crop_h: u32 = if max_h < rows {
        max_h
    } else {
        rows
    };
    proof {
        assert(crop_w * crop_h <= full_w * image.height) by (nonlinear_arith)
            requires
                0 <= crop_w <= full_w,
                0 <= crop_h <= image.height,
        ;
        assert(0 <= crop_w * crop_h) by (nonlinear_arith)
            requires
                0 <= crop_w,
                0 <= crop_h,
        ;
    }
    let total: usize = crop_w as usize * crop_h as usize * 4;
    let mut pixels: Vec<u8> = Vec::new();
    let mut k: usize = 0;
    while k < total
        invariant
            k <= total,
            total == crop_w * crop_h * 4,
            image.wf(),
            held == image.pixels@.len(),
            full_w == image.width,
            crop_w <= full_w,
            crop_h <= image.height - src_y || crop_h == 0,
            pixels@.len() == k,
            forall|j: int|
                0 <= j < k ==> #[trigger] pixels@[j] == cropped(
                    image.pixels@,
                    full_w as int,
                    src_y as int,
                    crop_w as int,
                    crop_h as int,
                )[j],
        decreases total - k,
    {
        let p: usize = k / 4;
        assert(crop_w > 0 && crop_h > 0) by (nonlinear_arith)
            requires
                crop_w * crop_h * 4 > 0,
                crop_w >= 0,
                crop_h >= 0,
        ;
        proof {
            lemma_grid(p as int, crop_w as int, crop_h as int);
        }
        let x: usize = p % crop_w as usize;
        let y: usize = src_y as usize + p / crop_w as usize;
        assert(y < image.height);
        proof {
            assert((y * full_w + x) * 4 + 4 <= image.pixels@.len() && y * full_w >= 0)
                by (nonlinear_arith)
                requires
                    0 <= x < full_w,
                    0 <= y < image.height,
                    image.pixels@.len() == full_w * image.height * 4,
            ;
        }
        let at: usize = (y * full_w as usize + x) * 4 + k % 4;
        pixels.push(image.pixels[at]);
        k = k + 1;
    }
    assert(pixels@ =~= cropped(
        image.pixels@,
        full_w as int,
        src_y as int,
        crop_w as int,
        crop_h as int,
    ));
    RgbaImage { pixels, width: crop_w, height: crop_h }
}

/// Rows of a supersampled title image that its logical height shows: `used` of
/// `logical`, rounded up.
pub open spec fn used_rows(height: int, logical: int, used: int) -> int {
    least((height * used + logical - 1) / logical, height)
}

/// Keeps the shown rows of a title image.
pub fn trim_rows(image: RgbaImage, logical: u32, used: u32) -> (out: RgbaImage)
    requires
        image.wf(),
        0 < logical,
        image.height * used <= u32::MAX,
    ensures
        out.wf(),
        out.width == image.width,
        out.height == used_rows(image.height as int, logical as int, used as int),
        out.pixels@ == image.pixels@.take((out.width * out.height * 4) as int),
{
    let held: usize = image.pixels.len();
    let scaled: u32 = image.height * used;
    let up: u64 = (scaled as u64 + (logical as u64 - 1)) / logical as u64;
    let rows: u32 = if up < image.height as u64 {
        up as u32
    } else {
        image.height
    };
    assert(image.width * rows <= image.width * image.height) by (nonlinear_arith)
        requires
            0 <= rows <= image.height,
            0 <= image.width,
    ;
    assert(image.width * rows >= 0) by (nonlinear_arith)
        requires
            0 <= rows,
            0 <= image.width,
    ;
    let width: u32 = image.width;
    assert(width * rows * 4 <= held);
    let keep: usize = width as usize * rows as usize * 4;
    let mut pixels = image.pixels;
    pixels.truncate(keep);
    RgbaImage { pixels, width, height: rows }
}

/// The source column of a column of the locator bar: five pixels of border at
/// each end, two pixels repeated between.
pub open spec fn locator_column(x: int) -> int {
    if x < 5 {
        x
    } else if x < 177 {
        5 + (x - 5) % 2
    } else {
        x - 170
    }
}

/// The locator bar drawn out to its full width.
pub open spec fn locator_tiled(src: Seq<u8>) -> Seq<u8> {
    Seq::new(
        3640,
        |k: int| src[offset(12, locator_column(k / 4 % 182), k / 4 / 182) + k % 4],
    )
}

/// Tiles the 12 by 5 locator bar to 182 by 5; an image of another size stays as
/// it is.
pub fn locator_background(image: RgbaImage) -> (out: RgbaImage)
    requires
        image.wf(),
    ensures
        out.wf(),
        image.width == 12 && image.height == 5 ==> out.width == 182 && out.height == 5 && out.pixels@
            == locator_tiled(image.pixels@),
        !(image.width == 12 && image.height == 5) ==> out == image,
{
    if !(image.width == 12 && image.height == 5) {
        return image;
    }
    let mut pixels: Vec<u8> = Vec::new();
    let mut k: usize = 0;
    while k < 3640
        invariant
            k <= 3640,
            image.pixels@.len() == 240,
            pixels@.len() == k,
            forall|j: int| 0 <= j < k ==> #[trigger] pixels@[j] == locator_tiled(image.pixels@)[j],
        decreases 3640 - k,
    {
        let p: usize = k / 4;
        let x: usize = p % 182;
        let y: usize = p / 182;
        let sx: usize = if x < 5 {
            x
        } else if x < 177 {
            5 + (x - 5) % 2
        } else {
            x - 170
        };
        let at: usize = (y * 12 + sx) * 4 + k % 4;
        pixels.push(image.pixels[at]);
        k = k + 1;
    }
    assert(pixels@ =~= locator_tiled(image.pixels@));
    RgbaImage { pixels, width: 182, height: 5 }
}

/// The two 7 by 5 frames of a 7 by 10 arrow strip.
pub fn arrow_frames(image: &RgbaImage) -> (frames: Option<(Vec<u8>, Vec<u8>)>)
    requires
        image.wf(),
    ensures
        frames is Some <==> image.width == 7 && image.height == 10,
        match frames {
            Some((a, b)) => a@ == image.pixels@.take(140) && b@ == image.pixels@.skip(140),
            None => true,
        },
{
    if !(image.width == 7 && image.height == 10) {
        return None;
    }
    let mut first: Vec<u8> = Vec::new();
    let mut second: Vec<u8> = Vec::new();
    let mut k: usize = 0;
    while k < 140
        invariant
            k <= 140,
            image.pixels@.len() == 280,
            first@ == image.pixels@.take(k as int),
            second@ == image.pixels@.subrange(140, 140 + k),
        decreases 140 - k,
    {
        first.push(image.pixels[k]);
        second.push(image.pixels[140 + k]);
        k = k + 1;
        assert(first@ =~= image.pixels@.take(k as int));
        assert(second@ =~= image.pixels@.subrange(140, 140 + k));
    }
    assert(second@ =~= image.pixels@.skip(140));
    Some((first, second))
}

/// The end of the pixels read for a face, with its hat or without.
pub open spec fn face_end(sw: int, hat: bool) -> int {
    (15 * sw + if hat {
        48int
    } else {
        16
    }) * 4
}

/// Bytes a skin has to have for its face, and hat, to be read.
pub open spec fn face_readable(len: int, sw: int, sh: int, hat: bool) -> bool {
    sw >= 48 && sh >= 16 ==> face_end(sw, hat) <= len && face_end(sw, hat) <= u32::MAX
}

/// The offset of a face pixel.
pub open spec fn face_at(sw: int, p: int) -> int {
    offset(sw, 8 + p % 8, 8 + p / 8)
}

/// The offset of a hat pixel.
pub open spec fn hat_at(sw: int, p: int) -> int {
    offset(sw, 40 + p % 8, 8 + p / 8)
}

/// Whether the hat covers a pixel at all.
pub open spec fn hat_covers(rgba: Seq<u8>, sw: int, hat: bool, p: int) -> bool {
    hat && rgba[hat_at(sw, p) + 3] > 0
}

/// The front of a player's head, eight by eight, with the hat layer over it.
/// `blend` mixes a hat channel over a face channel at the hat's alpha.
pub fn extract_face_8x8_with_hat<F: Fn(u8, u8, u8) -> u8>(
    rgba: &[u8],
    sw: u32,
    sh: u32,
    hat: bool,
    blend: F,
) -> (face: Option<Vec<u8>>)
    requires
        face_readable(rgba@.len() as int, sw as int, sh as int, hat),
        forall|fg: u8, bg: u8, a: u8| #[trigger] call_requires(blend, (fg, bg, a)),
    ensures
        face is Some <==> sw >= 48 && sh >= 16,
        face matches Some(out) ==> {
            &&& out@.len() == 256
            &&& forall|p: int|
                #![trigger out@[4 * p + 3]]
                0 <= p < 64 ==> {
                    let f = rgba@[face_at(sw as int, p) + 3];
                    let h = rgba@[hat_at(sw as int, p) + 3];
                    out@[4 * p + 3] == (if hat_covers(rgba@, sw as int, hat, p) && h > f {
                        h
                    } else {
                        f
                    })
                }
            &&& forall|p: int, c: int|
                #![trigger out@[4 * p + c]]
                0 <= p < 64 && 0 <= c < 3 ==> {
                    let f = rgba@[face_at(sw as int, p) + c];
                    let h = rgba@[hat_at(sw as int, p) + c];
                    if hat_covers(rgba@, sw as int, hat, p) {
                        call_ensures(
                            blend,
                            (h, f, rgba@[hat_at(sw as int, p) + 3]),
                            out@[4 * p + c],
                        )
                    } else {
                        out@[4 * p + c] == f
                    }
                }
        },
{
    if sw < 48 || sh < 16 {
        return None;
    }
    let mut out: Vec<u8> = Vec::new();
    let mut p: usize = 0;
    while p < 64
        invariant
            p <= 64,
            sw >= 48,
            face_end(sw as int, hat) <= rgba@.len(),
            face_end(sw as int, hat) <= u32::MAX,
            forall|fg: u8, bg: u8, a: u8| #[trigger] call_requires(blend, (fg, bg, a)),
            out@.len() == 4 * p,
            forall|q: int|
                #![trigger out@[4 * q + 3]]
                0 <= q < p ==> {
                    let f = rgba@[face_at(sw as int, q) + 3];
                    let h = rgba@[hat_at(sw as int, q) + 3];
                    out@[4 * q + 3] == (if hat_covers(rgba@, sw as int, hat, q) && h > f {
                        h
                    } else {
                        f
                    })
                },
            forall|q: int, c: int|
                #![trigger out@[4 * q + c]]
                0 <= q < p && 0 <= c < 3 ==> {
                    let f = rgba@[face_at(sw as int, q) + c];
                    let h = rgba@[hat_at(sw as int, q) + c];
                    if hat_covers(rgba@, sw as int, hat, q) {
                        call_ensures(
                            blend,
                            (h, f, rgba@[hat_at(sw as int, q) + 3]),
                            out@[4 * q + c],
                        )
                    } else {
                        out@[4 * q + c] == f
                    }
                },
        decreases 64 - p,
    {
        let x: usize = p % 8;
        let y: usize = 8 + p / 8;
        assert(y <= 15);
        assert(y * sw <= 15 * sw && y * sw >= 0) by (nonlinear_arith)
            requires
                8 <= y <= 15,
                sw >= 0,
        ;
        let row: usize = y * sw as usize;
        let face_off: usize = (row + 8 + x) * 4;
        assert(face_off == face_at(sw as int, p as int));
        let ghost before = out@;
        let mut r: u8 = rgba[face_off];
        let mut g: u8 = rgba[face_off + 1];
        let mut b: u8 = rgba[face_off + 2];
        let mut a: u8 = rgba[face_off + 3];
        if hat {
            let hat_off: usize = (row + 40 + x) * 4;
            assert(hat_off == hat_at(sw as int, p as int));
            let ha: u8 = rgba[hat_off + 3];
            if ha > 0 {
                r = blend(rgba[hat_off], r, ha);
                g = blend(rgba[hat_off + 1], g, ha);
                b = blend(rgba[hat_off + 2], b, ha);
                if ha > a {
                    a = ha;
                }
            }
        }
        out.push(r);
        out.push(g);
        out.push(b);
        out.push(a);
        assert(forall|k: int| 0 <= k < 4 * p ==> out@[k] == before[k]);
        p = p + 1;
    }
    Some(out)
}

/// The face with its hat.
pub fn extract_face_8x8<F: Fn(u8, u8, u8) -> u8>(rgba: &[u8], sw: u32, sh: u32, blend: F) -> (face:
    Option<Vec<u8>>)
    requires
        face_readable(rgba@.len() as int, sw as int, sh as int, true),
        forall|fg: u8, bg: u8, a: u8| #[trigger] call_requires(blend, (fg, bg, a)),
    ensures
        face is Some <==> sw >= 48 && sh >= 16,
        face matches Some(out) ==> {
            &&& out@.len() == 256
            &&& forall|p: int, c: int|
                #![trigger out@[4 * p + c]]
                0 <= p < 64 && 0 <= c < 3 ==> {
                    let f = rgba@[face_at(sw as int, p) + c];
                    let h = rgba@[hat_at(sw as int, p) + c];
                    if hat_covers(rgba@, sw as int, true, p) {
                        call_ensures(
                            blend,
                            (h, f, rgba@[hat_at(sw as int, p) + 3]),
                            out@[4 * p + c],
                        )
                    } else {
                        out@[4 * p + c] == f
                    }
                }
            &&& forall|p: int|
                #![trigger out@[4 * p + 3]]
                0 <= p < 64 ==> {
                    let f = rgba@[face_at(sw as int, p) + 3];
                    let h = rgba@[hat_at(sw as int, p) + 3];
                    out@[4 * p + 3] == (if h > f {
                        h
                    } else {
                        f
                    })
                }
        },
{
    extract_face_8x8_with_hat(rgba, sw, sh, true, blend)
}

/// A rectangle copied inside both buffers keeps its shape: each of its pixels goes as far
/// right and down from where the rectangle goes as it stood in the source.
pub proof fn law_rectangles_keep_their_shape(
    b: Blit,
    dst: Seq<u8>,
    src: Seq<u8>,
    x: int,
    y: int,
    channel: int,
)
    requires
        b.wf(),
        b.dx + b.w <= b.dst_stride,
        0 <= x < b.w,
        0 <= y < b.h,
        0 <= channel < 4,
        4 * (y * b.src_stride + x) + 4 <= src.len(),
        4 * ((b.dy + y) * b.dst_stride + b.dx + x) + 4 <= dst.len(),
    ensures
        b.blitted(dst, src)[4 * ((b.dy + y) * b.dst_stride + b.dx + x) + channel] == src[4 * (y
            * b.src_stride + x) + channel],
{
    let p = (b.dy + y) * b.dst_stride + b.dx + x;
    let k = 4 * p + channel;
    assert(0 <= (b.dy + y) * b.dst_stride) by (nonlinear_arith)
        requires
            0 <= b.dy + y,
            0 <= b.dst_stride,
    ;
    assert(k / 4 == p && k % 4 == channel);
    vstd::arithmetic::div_mod::lemma_fundamental_div_mod_converse(
        p,
        b.dst_stride,
        b.dy + y,
        b.dx + x,
    );
    law_rectangles_are_copied(b, dst, src, k);
}

/// A crop keeps the columns from the left and the rows from `src_y` down.
pub proof fn law_crops_keep_their_pixels(
    pixels: Seq<u8>,
    full_w: int,
    src_y: int,
    w: int,
    h: int,
    x: int,
    y: int,
    channel: int,
)
    requires
        0 <= x < w,
        0 <= y < h,
        0 <= channel < 4,
    ensures
        cropped(pixels, full_w, src_y, w, h)[4 * (y * w + x) + channel] == pixels[4 * ((src_y + y)
            * full_w + x) + channel],
{
    let p = y * w + x;
    let k = 4 * p + channel;
    assert(0 <= p < w * h) by (nonlinear_arith)
        requires
            0 <= x < w,
            0 <= y < h,
            p == y * w + x,
    ;
    assert(k / 4 == p && k % 4 == channel);
    vstd::arithmetic::div_mod::lemma_fundamental_div_mod_converse(p, w, y, x);
}

/// The rows a title image shows are the fewest that hold the used share of its height.
pub proof fn law_used_rows_hold_the_share(height: int, logical: int, used: int)
    requires
        0 <= height,
        0 <= used <= logical,
        0 < logical,
    ensures
        ({
            let rows = used_rows(height, logical, used);
            &&& 0 <= rows <= height
            &&& height * used <= rows * logical
            &&& (rows - 1) * logical < height * used
        }),
{
    let top = height * used + logical - 1;
    let q = top / logical;
    vstd::arithmetic::div_mod::lemma_fundamental_div_mod(top, logical);
    vstd::arithmetic::div_mod::lemma_mod_bound(top, logical);
    assert(q * logical == logical * q) by (nonlinear_arith);
    assert((q - 1) * logical == q * logical - logical) by (nonlinear_arith);
    assert(0 <= height * used <= height * logical) by (nonlinear_arith)
        requires
            0 <= height,
            0 <= used <= logical,
    ;
    assert(q <= height) by (nonlinear_arith)
        requires
            (q - 1) * logical < height * used,
            height * used <= height * logical,
            0 < logical,
    ;
    assert(0 <= q) by (nonlinear_arith)
        requires
            height * used <= q * logical,
            0 <= height * used,
            0 < logical,
    ;
}

/// The locator bar keeps its five columns at either end, and between them its two middle
/// columns alternate.
pub proof fn law_locator_bar_keeps_its_ends(src: Seq<u8>, x: int, y: int, channel: int)
    requires
        0 <= x < 182,
        0 <= y < 5,
        0 <= channel < 4,
    ensures
        ({
            let shown = locator_tiled(src)[4 * (y * 182 + x) + channel];
            &&& x < 5 ==> shown == src[4 * (y * 12 + x) + channel]
            &&& x >= 177 ==> shown == src[4 * (y * 12 + (12 - (182 - x))) + channel]
            &&& 5 <= x < 177 && x % 2 == 1 ==> shown == src[4 * (y * 12 + 5) + channel]
            &&& 5 <= x < 177 && x % 2 == 0 ==> shown == src[4 * (y * 12 + 6) + channel]
        }),
{
    let k = 4 * (y * 182 + x) + channel;
    assert(k / 4 == y * 182 + x && k % 4 == channel);
    assert((y * 182 + x) / 182 == y && (y * 182 + x) % 182 == x);
}

/// The face lies eight pixels in and down on a skin, and its hat thirty-two pixels
/// further right; both are eight pixels a side, and a hat shows where it is not
/// transparent.
pub proof fn law_faces_lie_on_the_skin(rgba: Seq<u8>, sw: int, hat: bool, col: int, row: int)
    requires
        0 <= col < 8,
        0 <= row < 8,
    ensures
        face_at(sw, 8 * row + col) == 4 * ((8 + row) * sw + 8 + col),
        hat_at(sw, 8 * row + col) == face_at(sw, 8 * row + col) + 4 * 32,
        hat_covers(rgba, sw, hat, 8 * row + col) <==> hat && rgba[4 * ((8 + row) * sw + 40 + col)
            + 3] != 0,
{
    assert((8 * row + col) / 8 == row && (8 * row + col) % 8 == col);
}

} // verus!
