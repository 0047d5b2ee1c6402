//! Atlases of the overlay: sprites, favicons and the camera overlays.
use vstd::prelude::*;

use crate::pixels::blank_pixels;
use crate::pixels::blit_image;
use crate::pixels::RgbaImage;
use crate::pixels::Stamp;
use crate::sprites::SpriteId;
use crate::sprites::SpriteImage;

verus! {

/// Gap between sprites.
pub const SPRITE_PAD: u32 = 1;

/// The largest side the sprite atlas may get.
pub const MAX_SPRITE_ATLAS_SIZE: u32 = 4096;

/// Where a sprite lies on the atlas.
#[derive(Clone, Copy, Debug, PartialEq, Eq, Structural)]
pub struct SpriteRegion {
    pub id: SpriteId,
    pub x: u32,
    pub y: u32,
    pub w: u32,
    pub h: u32,
    pub nine_slice_border: u32,
}

/// The packed sprites.
pub struct SpriteAtlas {
    pub size: u32,
    pub pixels: Vec<u8>,
    pub regions: Vec<SpriteRegion>,
    pub dropped: Vec<SpriteId>,
}

/// A place for a sprite, or none if the packing had no room for it.
pub type Placement = Option<(u32, u32)>;

/// The placed sprites among the first `n`, as stamps.
pub open spec fn sprite_stamps(
    images: Seq<SpriteImage>,
    placements: Seq<Placement>,
    n: int,
) -> Seq<Stamp>
    decreases n,
{
    if n <= 0 {
        Seq::empty()
    } else {
        let before = sprite_stamps(images, placements, n - 1);
        let s = images[n - 1];
        match placements[n - 1] {
            Some((x, y)) => before.push(
                Stamp {
                    src: s.image.pixels@,
                    x: x as int,
                    y: y as int,
                    w: s.image.width as int,
                    h: s.image.height as int,
                },
            ),
            None => before,
        }
    }
}

/// The regions of the placed sprites among the first `n`.
pub open spec fn sprite_regions(
    images: Seq<SpriteImage>,
    placements: Seq<Placement>,
    n: int,
) -> Seq<SpriteRegion>
    decreases n,
{
    if n <= 0 {
        Seq::empty()
    } else {
        let before = sprite_regions(images, placements, n - 1);
        let s = images[n - 1];
        match placements[n - 1] {
            Some((x, y)) => before.push(
                SpriteRegion {
                    id: s.id,
                    x,
                    y,
                    w: s.image.width,
                    h: s.image.height,
                    nine_slice_border: s.border,
                },
            ),
            None => before,
        }
    }
}

/// The sprites among the first `n` that found no place.
pub open spec fn dropped_sprites(
    images: Seq<SpriteImage>,
    placements: Seq<Placement>,
    n: int,
) -> Seq<SpriteId>
    decreases n,
{
    if n <= 0 {
        Seq::empty()
    } else {
        let before = dropped_sprites(images, placements, n - 1);
        match placements[n - 1] {
            Some(_) => before,
            None => before.push(images[n - 1].id),
        }
    }
}

/// Every placed sprite lies inside a square of `size`.
pub open spec fn placed_inside(
    images: Seq<SpriteImage>,
    placements: Seq<Placement>,
    size: u32,
) -> bool {
    forall|i: int|
        0 <= i < images.len() ==> (#[trigger] placements[i] matches Some((x, y)) ==> x
            + images[i].image.width <= size && y + images[i].image.height <= size)
}

/// No two placed sprites overlap.
pub open spec fn placed_apart(images: Seq<SpriteImage>, placements: Seq<Placement>) -> bool {
    forall|i: int, j: int|
        0 <= i < j < images.len() && #[trigger] placements[i] is Some && #[trigger] placements[j]
            is Some ==> {
            let (ax, ay) = placements[i]->0;
            let (bx, by) = placements[j]->0;
            ax + images[i].image.width <= bx || bx + images[j].image.width <= ax || ay
                + images[i].image.height <= by || by + images[j].image.height <= ay
        }
}

/// Puts the placed sprites on the atlas and records where each one went.
pub fn assemble_sprites(
    images: &Vec<SpriteImage>,
    placements: &Vec<Placement>,
    atlas_size: u32,
) -> (atlas: SpriteAtlas)
    requires
        placements@.len() == images@.len(),
        atlas_size <= MAX_SPRITE_ATLAS_SIZE,
        placed_inside(images@, placements@, atlas_size),
    ensures
        atlas.size == atlas_size,
        atlas.pixels@ == crate::pixels::stamped(
            crate::pixels::blank((atlas_size * atlas_size * 4) as nat),
            atlas_size as int,
            sprite_stamps(images@, placements@, images@.len() as int),
            sprite_stamps(images@, placements@, images@.len() as int).len() as int,
        ),
        atlas.regions@ == sprite_regions(images@, placements@, images@.len() as int),
        atlas.dropped@ == dropped_sprites(images@, placements@, images@.len() as int),
{
    assert(atlas_size * atlas_size <= 4096 * 4096) by (nonlinear_arith)
        requires
            0 <= atlas_size <= 4096,
    ;
    assert(0 <= atlas_size * atlas_size) by (nonlinear_arith);
    let mut pixels = blank_pixels(atlas_size as usize * atlas_size as usize * 4);
    let mut regions: Vec<SpriteRegion> = Vec::new();
    let mut dropped: Vec<SpriteId> = Vec::new();
    let ghost canvas = pixels@;
    let mut i: usize = 0;
    while i < images.len()
        invariant
            i <= images@.len(),
            placements@.len() == images@.len(),
            atlas_size <= 4096,
            placed_inside(images@, placements@, atlas_size),
            pixels@ == crate::pixels::stamped(
                canvas,
                atlas_size as int,
                sprite_stamps(images@, placements@, i as int),
                sprite_stamps(images@, placements@, i as int).len() as int,
            ),
            regions@ == sprite_regions(images@, placements@, i as int),
            dropped@ == dropped_sprites(images@, placements@, i as int),
        decreases images@.len() - i,
    {
        let sprite = &images[i];
        let ghost done = sprite_stamps(images@, placements@, i as int);
        match placements[i] {
            Some((x, y)) => {
                let w: u32 = sprite.image.width;
                let h: u32 = sprite.image.height;
                proof {
                    assert(placements@[i as int] is Some);
                    assert(atlas_size * atlas_size * 4 <= 4096 * 4096 * 4) by (nonlinear_arith)
                        requires
                            0 <= atlas_size <= 4096,
                    ;
                    assert(h * w * 4 <= 4096 * 4096 * 4) by (nonlinear_arith)
                        requires
                            0 <= h <= 4096,
                            0 <= w <= 4096,
                    ;
                    crate::pixels::blit_of(atlas_size, w, x, y, w, h).lemma_inside(
                        atlas_size as int,
                    );
                    let next = sprite_stamps(images@, placements@, i + 1);
                    assert(next.len() == done.len() + 1);
                    crate::pixels::lemma_stamped_prefix(
                        canvas,
                        atlas_size as int,
                        next,
                        done,
                        done.len() as int,
                    );
                }
                blit_image(
                    &mut pixels,
                    atlas_size,
                    sprite.image.pixels.as_slice(),
                    w,
                    x,
                    y,
                    w,
                    h,
                );
                regions.push(
                    SpriteRegion { id: sprite.id, x, y, w, h, nine_slice_border: sprite.border },
                );
            },
            None => {
                dropped.push(sprite.id);
            },
        }
        i = i + 1;
    }
    SpriteAtlas { size: atlas_size, pixels, regions, dropped }
}

/// The last region of a sprite.
pub open spec fn region_of(regions: Seq<SpriteRegion>, id: SpriteId, n: int) -> Option<SpriteRegion>
    decreases n,
{
    if n <= 0 {
        None
    } else if regions[n - 1].id == id {
        Some(regions[n - 1])
    } else {
        region_of(regions, id, n - 1)
    }
}

impl SpriteAtlas {
    /// Where a sprite lies, if it was placed.
    pub fn region(&self, id: SpriteId) -> (region: Option<SpriteRegion>)
        ensures
            region == region_of(self.regions@, id, self.regions@.len() as int),
    {
        let mut i: usize = self.regions.len();
        while i > 0
            invariant
                i <= self.regions@.len(),
                region_of(self.regions@, id, self.regions@.len() as int) == region_of(
                    self.regions@,
                    id,
                    i as int,
                ),
            decreases i,
        {
            i = i - 1;
            if self.regions[i].id == id {
                return Some(self.regions[i]);
            }
        }
        None
    }
}

proof fn lemma_stamps_follow(
    images: Seq<SpriteImage>,
    placements: Seq<Placement>,
    size: u32,
    n: int,
)
    requires
        placements.len() == images.len(),
        0 <= n <= images.len(),
        crate::sprites::sprites_wf(images),
        placed_inside(images, placements, size),
        placed_apart(images, placements),
    ensures
        ({
            let stamps = sprite_stamps(images, placements, n);
            let regions = sprite_regions(images, placements, n);
            &&& stamps.len() == regions.len()
            &&& forall|a: int| 0 <= a < stamps.len() ==> (#[trigger] stamps[a]).inside(size as int)
            &&& forall|a: int, b: int|
                0 <= a < b < stamps.len() ==> crate::pixels::apart(
                    #[trigger] stamps[a],
                    #[trigger] stamps[b],
                )
            &&& forall|a: int|
                0 <= a < stamps.len() ==> {
                    let s = #[trigger] stamps[a];
                    let r = regions[a];
                    s.x == r.x && s.y == r.y && s.w == r.w && s.h == r.h
                }
            &&& forall|a: int|
                0 <= a < stamps.len() ==> has_origin(images, placements, #[trigger] stamps[a], n)
        }),
    decreases n,
{
    if n > 0 {
        lemma_stamps_follow(images, placements, size, n - 1);
        let before = sprite_stamps(images, placements, n - 1);
        let stamps = sprite_stamps(images, placements, n);
        let before_regions = sprite_regions(images, placements, n - 1);
        let regions = sprite_regions(images, placements, n);
        assert(images[n - 1].image.wf());
        assert forall|a: int| 0 <= a < stamps.len() implies ({
            let s = #[trigger] stamps[a];
            let r = regions[a];
            s.x == r.x && s.y == r.y && s.w == r.w && s.h == r.h
        }) by {
            if a < before.len() {
                assert(stamps[a] == before[a]);
                assert(regions[a] == before_regions[a]);
            }
        }
        assert forall|a: int| 0 <= a < stamps.len() implies has_origin(
            images,
            placements,
            #[trigger] stamps[a],
            n,
        ) by {
            if a < before.len() {
                assert(stamps[a] == before[a]);
                assert(has_origin(images, placements, before[a], n - 1));
                let i = choose|i: int|
                    0 <= i < n - 1 && is_stamp_of(images, placements, before[a], i);
                assert(is_stamp_of(images, placements, stamps[a], i));
            } else {
                assert(is_stamp_of(images, placements, stamps[a], n - 1));
            }
        }
        assert forall|a: int, b: int| 0 <= a < b < stamps.len() implies crate::pixels::apart(
            #[trigger] stamps[a],
            #[trigger] stamps[b],
        ) by {
            if b >= before.len() {
                assert(stamps[a] == before[a]);
                assert(has_origin(images, placements, before[a], n - 1));
                let i = choose|i: int|
                    0 <= i < n - 1 && is_stamp_of(images, placements, before[a], i);
                assert(placements[i] is Some && placements[n - 1] is Some);
            } else {
                assert(crate::pixels::apart(before[a], before[b]));
            }
        }
        assert forall|a: int| 0 <= a < stamps.len() implies (#[trigger] stamps[a]).inside(
            size as int,
        ) by {
            if a < before.len() {
                assert(before[a].inside(size as int));
            } else {
                assert(placements[n - 1] is Some);
            }
        }
    }
}

/// A stamp is that of one of the first `n` sprites.
spec fn has_origin(images: Seq<SpriteImage>, placements: Seq<Placement>, s: Stamp, n: int) -> bool {
    exists|i: int| 0 <= i < n && #[trigger] is_stamp_of(images, placements, s, i)
}

/// A stamp is that of sprite `i`.
spec fn is_stamp_of(
    images: Seq<SpriteImage>,
    placements: Seq<Placement>,
    s: Stamp,
    i: int,
) -> bool {
    &&& match placements[i] {
        Some((x, y)) => s.x == x && s.y == y,
        None => false,
    }
    &&& s.w == images[i].image.width
    &&& s.h == images[i].image.height
}

/// Where the packing keeps sprites apart, each of them can be read back from the
/// atlas: at every pixel of a region the atlas holds the sprite's own pixel.
pub proof fn law_sprites_read_back(
    images: Seq<SpriteImage>,
    placements: Seq<Placement>,
    size: u32,
    a: int,
    col: int,
    row: int,
    channel: int,
)
    requires
        placements.len() == images.len(),
        0 < size,
        crate::sprites::sprites_wf(images),
        placed_inside(images, placements, size),
        placed_apart(images, placements),
        0 <= a < sprite_regions(images, placements, images.len() as int).len(),
        0 <= col < sprite_regions(images, placements, images.len() as int)[a].w,
        0 <= row < sprite_regions(images, placements, images.len() as int)[a].h,
        0 <= channel < 4,
    ensures
        ({
            let n = images.len() as int;
            let stamps = sprite_stamps(images, placements, n);
            let r = sprite_regions(images, placements, n)[a];
            let atlas = crate::pixels::stamped(
                crate::pixels::blank((size * size * 4) as nat),
                size as int,
                stamps,
                stamps.len() as int,
            );
            atlas[crate::pixels::offset(size as int, r.x + col, r.y + row) + channel]
                == stamps[a].src[crate::pixels::offset(r.w as int, col, row) + channel]
        }),
{
    let n = images.len() as int;
    let stamps = sprite_stamps(images, placements, n);
    lemma_stamps_follow(images, placements, size, n);
    assert(size * size >= 0) by (nonlinear_arith);
    assert(stamps[a].x == sprite_regions(images, placements, n)[a].x);
    crate::pixels::law_stamps_read_back(
        crate::pixels::blank((size * size * 4) as nat),
        size as int,
        stamps,
        stamps.len() as int,
        a,
        col,
        row,
        channel,
    );
}

/// Two images side by side, the shorter one padded below with nothing.
pub open spec fn beside(a: Seq<u8>, aw: int, ah: int, b: Seq<u8>, bw: int, bh: int) -> Seq<u8> {
    let w = aw + bw;
    let h = if ah >= bh {
        ah
    } else {
        bh
    };
    Seq::new(
        (w * h * 4) as nat,
        |k: int|
            {
                let x = k / 4 % w;
                let y = k / 4 / w;
                if x < aw {
                    if y < ah {
                        a[crate::pixels::offset(aw, x, y) + k % 4]
                    } else {
                        0u8
                    }
                } else if y < bh {
                    b[crate::pixels::offset(bw, x - aw, y) + k % 4]
                } else {
                    0u8
                }
            },
    )
}

/// Puts the vignette and the pumpkin blur into one image, left and right.
pub fn compose_camera_overlay(vignette: &RgbaImage, pumpkin: &RgbaImage) -> (image: RgbaImage)
    requires
        vignette.wf(),
        pumpkin.wf(),
        vignette.width + pumpkin.width <= u32::MAX,
        (vignette.width + pumpkin.width) * vignette.height * 4 <= u32::MAX,
        (vignette.width + pumpkin.width) * pumpkin.height * 4 <= u32::MAX,
    ensures
        image.wf(),
        image.width == vignette.width + pumpkin.width,
        image.height == (if vignette.height >= pumpkin.height {
            vignette.height
        } else {
            pumpkin.height
        }),
        image.pixels@ == beside(
            vignette.pixels@,
            vignette.width as int,
            vignette.height as int,
            pumpkin.pixels@,
            pumpkin.width as int,
            pumpkin.height as int,
        ),
{
    let vw: u32 = vignette.width;
    let vh: u32 = vignette.height;
    let pw: u32 = pumpkin.width;
    let ph: u32 = pumpkin.height;
    let w: u32 = vw + pw;
    let h: u32 = if vh >= ph {
        vh
    } else {
        ph
    };
    proof {
        lemma_overlay_sizes(vw as int, vh as int, pw as int, ph as int, h as int);
        crate::pixels::blit_of(w, vw, 0, 0, vw, vh).lemma_inside(h as int);
        crate::pixels::blit_of(w, pw, vw, 0, pw, ph).lemma_inside(h as int);
    }
    let mut pixels = blank_pixels(w as usize * h as usize * 4);
    let ghost zeros = pixels@;
    blit_image(&mut pixels, w, vignette.pixels.as_slice(), vw, 0, 0, vw, vh);
    let ghost left = pixels@;
    blit_image(&mut pixels, w, pumpkin.pixels.as_slice(), pw, vw, 0, pw, ph);
    proof {
        let spec = beside(
            vignette.pixels@,
            vw as int,
            vh as int,
            pumpkin.pixels@,
            pw as int,
            ph as int,
        );
        assert forall|k: int| 0 <= k < spec.len() implies pixels@[k] == spec[k] by {
            let p = k / 4;
            lemma_cell(p, w as int, h as int);
            let x = p % (w as int);
            let y = p / (w as int);
            crate::pixels::law_rectangles_are_copied(
                crate::pixels::blit_of(w, vw, 0, 0, vw, vh),
                zeros,
                vignette.pixels@,
                k,
            );
            crate::pixels::law_rectangles_are_copied(
                crate::pixels::blit_of(w, pw, vw, 0, pw, ph),
                left,
                pumpkin.pixels@,
                k,
            );
            if x < vw && y < vh {
                lemma_last_byte(x, y, vw as int, vh as int);
            }
            if x >= vw && y < ph {
                lemma_last_byte(x - vw, y, pw as int, ph as int);
            }
            assert(k % 4 == k - 4 * p);
        }
        assert(pixels@ =~= spec);
    }
    RgbaImage { pixels, width: w, height: h }
}

proof fn lemma_last_byte(x: int, y: int, w: int, h: int)
    requires
        0 <= x < w,
        0 <= y < h,
    ensures
        0 <= crate::pixels::offset(w, x, y),
        crate::pixels::offset(w, x, y) + 4 <= w * h * 4,
{
    assert(0 <= (y * w + x) && y * w + x + 1 <= w * h) by (nonlinear_arith)
        requires
            0 <= x < w,
            0 <= y < h,
    ;
}

proof fn lemma_cell(p: int, w: int, h: int)
    requires
        0 <= p < w * h,
        0 <= w,
    ensures
        0 < w,
        0 <= p % w < w,
        0 <= p / w < h,
        p == (p / w) * w + p % w,
{
    if w == 0 {
        assert(w * h == 0) by (nonlinear_arith)
            requires
                w == 0,
        ;
    }
    vstd::arithmetic::div_mod::lemma_fundamental_div_mod(p, w);
    vstd::arithmetic::div_mod::lemma_mod_bound(p, w);
    assert(0 <= p / w < h && p == (p / w) * w + p % w) by (nonlinear_arith)
        requires
            p == w * (p / w) + p % w,
            0 <= p % w < w,
            0 <= p < w * h,
            0 < w,
    ;
}

proof fn lemma_overlay_sizes(vw: int, vh: int, pw: int, ph: int, h: int)
    requires
        0 <= vw,
        0 <= vh,
        0 <= pw,
        0 <= ph,
        h == vh || h == ph,
        vh <= h,
        ph <= h,
        (vw + pw) * vh * 4 <= u32::MAX,
        (vw + pw) * ph * 4 <= u32::MAX,
    ensures
        0 <= (vw + pw) * h,
        (vw + pw) * h * 4 <= u32::MAX,
        h * (vw + pw) * 4 <= u32::MAX,
        vh * vw * 4 <= u32::MAX,
        ph * pw * 4 <= u32::MAX,
{
    let w = vw + pw;
    assert(0 <= w * h && w * h == h * w && vh * vw <= w * vh && ph * pw <= w * ph)
        by (nonlinear_arith)
        requires
            0 <= vw,
            0 <= vh,
            0 <= pw,
            0 <= ph,
            0 <= h,
            w == vw + pw,
    ;
}

/// A sprite that found a place is recorded there with its own size and border, and one
/// that found none is named among the dropped.
pub proof fn law_every_sprite_is_accounted_for(
    images: Seq<SpriteImage>,
    placements: Seq<Placement>,
    n: int,
    i: int,
)
    requires
        placements.len() == images.len(),
        0 <= i < n <= images.len(),
    ensures
        placements[i] matches Some((x, y)) ==> exists|a: int|
            0 <= a < sprite_regions(images, placements, n).len() && ({
                let r = #[trigger] sprite_regions(images, placements, n)[a];
                r.id == images[i].id && r.x == x && r.y == y && r.w == images[i].image.width && r.h
                    == images[i].image.height && r.nine_slice_border == images[i].border
            }),
        placements[i] is None ==> dropped_sprites(images, placements, n).contains(images[i].id),
        sprite_regions(images, placements, n).len() + dropped_sprites(images, placements, n).len()
            == n,
    decreases n,
{
    let regions = sprite_regions(images, placements, n);
    let dropped = dropped_sprites(images, placements, n);
    let before = sprite_regions(images, placements, n - 1);
    let left_out = dropped_sprites(images, placements, n - 1);
    if i < n - 1 {
        law_every_sprite_is_accounted_for(images, placements, n - 1, i);
        if let Some((x, y)) = placements[i] {
            let a = choose|a: int|
                0 <= a < before.len() && ({
                    let r = #[trigger] before[a];
                    r.id == images[i].id && r.x == x && r.y == y && r.w == images[i].image.width
                        && r.h == images[i].image.height && r.nine_slice_border == images[i].border
                });
            assert(regions[a] == before[a]);
        } else {
            let k = choose|k: int| 0 <= k < left_out.len() && left_out[k] == images[i].id;
            assert(dropped[k] == images[i].id);
        }
    } else {
        if n - 1 > 0 {
            law_every_sprite_is_accounted_for(images, placements, n - 1, 0);
        }
        if placements[i] is Some {
            assert(regions[before.len() as int].id == images[i].id);
        } else {
            assert(dropped[left_out.len() as int] == images[i].id);
        }
    }
}

/// Looking a sprite up finds a region of that sprite, the last of them, and finds none
/// only where there is none.
pub proof fn law_lookups_find_the_sprite(regions: Seq<SpriteRegion>, id: SpriteId, n: int)
    requires
        0 <= n <= regions.len(),
    ensures
        match region_of(regions, id, n) {
            Some(r) => r.id == id && exists|k: int|
                0 <= k < n && (#[trigger] regions[k]) == r && forall|j: int|
                    k < j < n ==> (#[trigger] regions[j]).id != id,
            None => forall|k: int| 0 <= k < n ==> (#[trigger] regions[k]).id != id,
        },
    decreases n,
{
    if n > 0 {
        law_lookups_find_the_sprite(regions, id, n - 1);
        if regions[n - 1].id != id {
            if let Some(r) = region_of(regions, id, n - 1) {
                let k = choose|k: int|
                    0 <= k < n - 1 && (#[trigger] regions[k]) == r && forall|j: int|
                        k < j < n - 1 ==> (#[trigger] regions[j]).id != id;
                assert(regions[k] == r);
            }
        }
    }
}

/// Two images put side by side keep their pixels: the first from the upper left corner
/// on, the second from where the first one ends, and nothing below the shorter.
pub proof fn law_images_stand_beside_each_other(
    a: Seq<u8>,
    aw: int,
    ah: int,
    b: Seq<u8>,
    bw: int,
    bh: int,
    x: int,
    y: int,
    channel: int,
)
    requires
        0 <= aw,
        0 <= ah,
        0 <= bw,
        0 <= bh,
        0 <= x < aw + bw,
        0 <= y < ah || 0 <= y < bh,
        0 <= channel < 4,
    ensures
        ({
            let shown = beside(a, aw, ah, b, bw, bh)[4 * (y * (aw + bw) + x) + channel];
            &&& x < aw && y < ah ==> shown == a[4 * (y * aw + x) + channel]
            &&& x >= aw && y < bh ==> shown == b[4 * (y * bw + (x - aw)) + channel]
            &&& x < aw && y >= ah ==> shown == 0
            &&& x >= aw && y >= bh ==> shown == 0
        }),
{
    let w = aw + bw;
    let h = if ah >= bh {
        ah
    } else {
        bh
    };
    let p = y * w + x;
    let k = 4 * p + channel;
    lemma_last_byte(x, y, w, h);
    assert(k / 4 == p && k % 4 == channel);
    vstd::arithmetic::div_mod::lemma_fundamental_div_mod_converse(p, w, y, x);
}

proof fn lemma_stamp_of(images: Seq<SpriteImage>, placements: Seq<Placement>, n: int, i: int) -> (a:
    int)
    requires
        placements.len() == images.len(),
        0 <= i < n <= images.len(),
        placements[i] is Some,
    ensures
        ({
            let stamps = sprite_stamps(images, placements, n);
            &&& 0 <= a < stamps.len()
            &&& stamps.len() == sprite_regions(images, placements, n).len()
            &&& stamps[a].src == images[i].image.pixels@
            &&& stamps[a].x == (placements[i]->0).0
            &&& stamps[a].y == (placements[i]->0).1
            &&& stamps[a].w == images[i].image.width
            &&& stamps[a].h == images[i].image.height
        }),
    decreases n,
{
    lemma_as_many(images, placements, n);
    if i == n - 1 {
        sprite_stamps(images, placements, n - 1).len() as int
    } else {
        lemma_stamp_of(images, placements, n - 1, i)
    }
}

proof fn lemma_as_many(images: Seq<SpriteImage>, placements: Seq<Placement>, n: int)
    requires
        0 <= n,
    ensures
        sprite_stamps(images, placements, n).len() == sprite_regions(images, placements, n).len(),
    decreases n,
{
    if n > 0 {
        lemma_as_many(images, placements, n - 1);
    }
}

/// Where the packing keeps sprites apart, the atlas shows each of them at its place,
/// pixel for pixel.
pub proof fn law_placed_sprites_show_their_image(
    images: Seq<SpriteImage>,
    placements: Seq<Placement>,
    size: u32,
    i: int,
    col: int,
    row: int,
    channel: int,
)
    requires
        placements.len() == images.len(),
        0 < size,
        crate::sprites::sprites_wf(images),
        placed_inside(images, placements, size),
        placed_apart(images, placements),
        0 <= i < images.len(),
        placements[i] is Some,
        0 <= col < images[i].image.width,
        0 <= row < images[i].image.height,
        0 <= channel < 4,
    ensures
        ({
            let stamps = sprite_stamps(images, placements, images.len() as int);
            let (x, y) = placements[i]->0;
            crate::pixels::stamped(
                crate::pixels::blank((size * size * 4) as nat),
                size as int,
                stamps,
                stamps.len() as int,
            )[4 * ((y + row) * size + x + col) + channel] == images[i].image.pixels@[4 * (row
                * images[i].image.width + col) + channel]
        }),
{
    let n = images.len() as int;
    let stamps = sprite_stamps(images, placements, n);
    let a = lemma_stamp_of(images, placements, n, i);
    lemma_stamps_follow(images, placements, size, n);
    assert(size * size >= 0) by (nonlinear_arith);
    crate::pixels::law_stamps_read_back(
        crate::pixels::blank((size * size * 4) as nat),
        size as int,
        stamps,
        stamps.len() as int,
        a,
        col,
        row,
        channel,
    );
}

} // verus!
