//! Decoded pixels: addressing, cropping, compositing, flipping and converting them.

use crate::region::{overlap_is_the_common_points, Region};
use vstd::prelude::*;

verus! {

/// Decoded RGBA8 image.
pub struct CapturedImage {
    /// Width in pixels.
    pub width: u32,
    /// Height in pixels.
    pub height: u32,
    /// Tightly-packed RGBA8 pixels, row-major (`width * height * 4` bytes).
    pub rgba: Vec<u8>,
}

/// Where the pixel `(x, y)` starts in a tightly packed RGBA8 buffer `w` pixels wide.
pub open spec fn offset(w: int, x: int, y: int) -> int {
    (y * w + x) * 4
}

/// The four bytes of the pixel `(x, y)` in a buffer `w` pixels wide.
pub open spec fn pixel_of(buf: Seq<u8>, w: int, x: int, y: int) -> Seq<u8> {
    buf.subrange(offset(w, x, y), offset(w, x, y) + 4)
}

/// A pixel inside a `w` by `h` buffer lies wholly within it.
pub proof fn offset_in_bounds(w: int, h: int, x: int, y: int)
    requires
        0 <= x < w,
        0 <= y < h,
    ensures
        0 <= y * w,
        0 <= y * w + x,
        y * w + x + 1 <= w * h,
        0 <= offset(w, x, y),
        offset(w, x, y) + 4 <= w * h * 4,
{
    assert(0 <= y * w) by (nonlinear_arith)
        requires
            0 <= y,
            0 <= w,
    ;
    assert(y * w + w <= w * h) by (nonlinear_arith)
        requires
            0 <= y < h,
            0 <= w,
    ;
}

/// Pixels are laid out row by row without touching one another.
pub proof fn offset_is_ordered(w: int, x1: int, y1: int, x2: int, y2: int)
    requires
        0 <= x1 < w,
        0 <= x2 < w,
        y1 < y2 || (y1 == y2 && x1 < x2),
    ensures
        offset(w, x1, y1) + 4 <= offset(w, x2, y2),
{
    if y1 < y2 {
        assert(y1 * w + w <= y2 * w) by (nonlinear_arith)
            requires
                y1 < y2,
                0 <= w,
        ;
    }
}

/// Every byte of a `w` by `h` buffer belongs to one of its pixels.
pub proof fn byte_of_some_pixel(w: int, h: int, k: int)
    requires
        0 <= k < w * h * 4,
        0 <= w,
    ensures
        0 <= (k / 4) % w < w,
        0 <= (k / 4) / w < h,
        offset(w, (k / 4) % w, (k / 4) / w) <= k < offset(w, (k / 4) % w, (k / 4) / w) + 4,
{
    let p = k / 4;
    assert(w > 0) by (nonlinear_arith)
        requires
            0 <= w,
            0 < w * h * 4,
    ;
    assert(p == (p / w) * w + p % w && 0 <= p % w < w && 0 <= p / w) by (nonlinear_arith)
        requires
            w > 0,
            p >= 0,
    ;
    assert(p / w < h) by (nonlinear_arith)
        requires
            w > 0,
            p < w * h,
            p == (p / w) * w + p % w,
            0 <= p % w,
    ;
}

/// Two buffers of the same size with the same pixels are the same.
pub proof fn same_pixels_same_bytes(a: Seq<u8>, b: Seq<u8>, w: int, h: int)
    requires
        0 <= w,
        a.len() == w * h * 4,
        b.len() == w * h * 4,
        forall|x: int, y: int|
            0 <= x < w && 0 <= y < h ==> #[trigger] pixel_of(a, w, x, y) == pixel_of(b, w, x, y),
    ensures
        a == b,
{
    assert forall|k: int| 0 <= k < a.len() implies a[k] == b[k] by {
        byte_of_some_pixel(w, h, k);
        let x = (k / 4) % w;
        let y = (k / 4) / w;
        offset_in_bounds(w, h, x, y);
        let o = offset(w, x, y);
        assert(pixel_of(a, w, x, y) == pixel_of(b, w, x, y));
        assert(pixel_of(a, w, x, y)[k - o] == a[k]);
        assert(pixel_of(b, w, x, y)[k - o] == b[k]);
    }
    assert(a =~= b);
}

/// The bytes of the part `o` of an image `w` pixels wide.
pub open spec fn cropped(src: Seq<u8>, w: int, o: Region) -> Seq<u8> {
    Seq::new(
        (o.w * o.h * 4) as nat,
        |k: int| src[offset(w, o.x + (k / 4) % (o.w as int), o.y + (k / 4) / (o.w as int)) + k % 4],
    )
}

/// The bytes of a buffer `w` pixels wide once an image of `sw` by `sh` pixels is drawn over
/// it at `(ax, ay)`, clipped to the buffer.
pub open spec fn drawn_over(
    dst: Seq<u8>,
    w: int,
    src: Seq<u8>,
    sw: int,
    sh: int,
    ax: int,
    ay: int,
) -> Seq<u8> {
    Seq::new(
        dst.len(),
        |k: int|
            {
                let x = (k / 4) % w - ax;
                let y = (k / 4) / w - ay;
                if 0 <= x < sw && 0 <= y < sh {
                    src[offset(sw, x, y) + k % 4]
                } else {
                    dst[k]
                }
            },
    )
}

/// A byte of a pixel is the pixel's byte.
proof fn byte_in_pixel(w: int, h: int, k: int)
    requires
        0 <= k < w * h * 4,
        0 <= w,
    ensures
        k - offset(w, (k / 4) % w, (k / 4) / w) == k % 4,
        0 <= k % 4 < 4,
{
    byte_of_some_pixel(w, h, k);
    let x = (k / 4) % w;
    let y = (k / 4) / w;
    assert(offset(w, x, y) % 4 == 0 && offset(w, x, y) / 4 == y * w + x) by {
        let p = y * w + x;
        assert((p * 4) % 4 == 0 && (p * 4) / 4 == p);
    }
}

/// An image whose pixels are those of a part of another has that part's bytes.
proof fn cropped_pixels(r: Seq<u8>, src: Seq<u8>, w: int, h: int, o: Region)
    requires
        0 <= o.x,
        0 <= o.y,
        o.x + o.w <= w,
        o.y + o.h <= h,
        src.len() == w * h * 4,
        r.len() == o.w * o.h * 4,
        forall|x: int, y: int|
            0 <= x < o.w && 0 <= y < o.h ==> #[trigger] pixel_of(r, o.w as int, x, y) == pixel_of(
                src,
                w,
                o.x + x,
                o.y + y,
            ),
    ensures
        r == cropped(src, w, o),
{
    assert forall|k: int| 0 <= k < r.len() implies r[k] == cropped(src, w, o)[k] by {
        let x = (k / 4) % (o.w as int);
        let y = (k / 4) / (o.w as int);
        byte_of_some_pixel(o.w as int, o.h as int, k);
        byte_in_pixel(o.w as int, o.h as int, k);
        offset_in_bounds(o.w as int, o.h as int, x, y);
        offset_in_bounds(w, h, o.x + x, o.y + y);
        assert(pixel_of(r, o.w as int, x, y) == pixel_of(src, w, o.x + x, o.y + y));
        assert(pixel_of(r, o.w as int, x, y)[k % 4] == r[k]);
        assert(pixel_of(src, w, o.x + x, o.y + y)[k % 4] == src[offset(w, o.x + x, o.y + y) + k % 4]);
    }
    assert(r =~= cropped(src, w, o));
}

/// A buffer with an image's pixels where the image lies, and its own elsewhere, has the
/// image drawn over it.
proof fn drawn_pixels(
    after: Seq<u8>,
    dst: Seq<u8>,
    w: int,
    h: int,
    src: Seq<u8>,
    sw: int,
    sh: int,
    ax: int,
    ay: int,
)
    requires
        0 <= w,
        0 <= sw,
        dst.len() == w * h * 4,
        after.len() == dst.len(),
        src.len() == sw * sh * 4,
        forall|x: int, y: int|
            0 <= x < w && 0 <= y < h ==> #[trigger] pixel_of(after, w, x, y) == if 0 <= x - ax < sw
                && 0 <= y - ay < sh {
                pixel_of(src, sw, x - ax, y - ay)
            } else {
                pixel_of(dst, w, x, y)
            },
    ensures
        after == drawn_over(dst, w, src, sw, sh, ax, ay),
{
    assert forall|k: int| 0 <= k < after.len() implies after[k] == drawn_over(
        dst,
        w,
        src,
        sw,
        sh,
        ax,
        ay,
    )[k] by {
        let x = (k / 4) % w;
        let y = (k / 4) / w;
        byte_of_some_pixel(w, h, k);
        byte_in_pixel(w, h, k);
        offset_in_bounds(w, h, x, y);
        assert(pixel_of(after, w, x, y)[k % 4] == after[k]);
        assert(pixel_of(dst, w, x, y)[k % 4] == dst[k]);
        if 0 <= x - ax < sw && 0 <= y - ay < sh {
            offset_in_bounds(sw, sh, x - ax, y - ay);
            assert(pixel_of(src, sw, x - ax, y - ay)[k % 4] == src[offset(sw, x - ax, y - ay) + k
                % 4]);
        }
    }
    assert(after =~= drawn_over(dst, w, src, sw, sh, ax, ay));
}

impl CapturedImage {
    /// The buffer holds exactly the pixels the dimensions promise.
    pub open spec fn wf(&self) -> bool {
        self.rgba@.len() == self.width * self.height * 4
    }

    /// The bytes of the pixel at `(x, y)`.
    pub open spec fn at(&self, x: int, y: int) -> Seq<u8> {
        pixel_of(self.rgba@, self.width as int, x, y)
    }

    /// The whole image as a region of its own pixel space.
    pub open spec fn bounds(&self) -> Region {
        Region { x: 0, y: 0, w: self.width, h: self.height }
    }

    /// The RGBA bytes of the pixel at `(x, y)`, or `None` if out of bounds.
    pub fn pixel(&self, x: u32, y: u32) -> (r: Option<[u8; 4]>)
        ensures
            r is Some <==> x < self.width && y < self.height && offset(
                self.width as int,
                x as int,
                y as int,
            ) + 4 <= self.rgba@.len(),
            r matches Some(p) ==> p@ == self.at(x as int, y as int),
    {
        if x >= self.width || y >= self.height {
            return None;
        }
        proof {
            offset_in_bounds(self.width as int, self.height as int, x as int, y as int);
            assert(self.width * self.height <= 0xffff_ffff * 0xffff_ffff) by (nonlinear_arith)
                requires
                    self.width <= 0xffff_ffff,
                    self.height <= 0xffff_ffff,
            ;
        }
        let i: u128 = (y as u128 * self.width as u128 + x as u128) * 4;
        let n: usize = self.rgba.len();
        if i + 4 > n as u128 {
            return None;
        }
        let i: usize = i as usize;
        let p: [u8; 4] = [self.rgba[i], self.rgba[i + 1], self.rgba[i + 2], self.rgba[i + 3]];
        assert(p@ =~= self.at(x as int, y as int));
        Some(p)
    }

    /// Crop to `rect` (in this image's pixel space), clamped to the bounds. Returns
    /// the overlapping sub-image; empty (0×0) if there is no overlap.
    pub fn crop(&self, rect: Region) -> (r: CapturedImage)
        requires
            self.wf(),
        ensures
            r.wf(),
            match rect.overlap(&self.bounds()) {
                Some(o) => {
                    &&& r.width == o.w && r.height == o.h
                    &&& forall|x: int, y: int|
                        0 <= x < o.w && 0 <= y < o.h ==> #[trigger] r.at(x, y) == self.at(
                            o.x + x,
                            o.y + y,
                        )
                    &&& r.rgba@ == cropped(self.rgba@, self.width as int, o)
                },
                None => r.width == 0 && r.height == 0,
            },
    {
        let bounds = Region { x: 0, y: 0, w: self.width, h: self.height };
        let o = match rect.intersect(&bounds) {
            Some(o) => o,
            None => {
                return CapturedImage { width: 0, height: 0, rgba: Vec::new() };
            },
        };
        let ghost w = self.width as int;
        let ghost h = self.height as int;
        let (ox, oy): (usize, usize) = (o.x as usize, o.y as usize);
        let (rw, rh): (usize, usize) = (o.w as usize, o.h as usize);
        let n: usize = self.rgba.len();
        let mut out: Vec<u8> = Vec::new();
        let mut row: usize = 0;
        while row < rh
            invariant
                self.wf(),
                n == self.rgba@.len(),
                w == self.width,
                h == self.height,
                0 <= ox,
                ox + rw <= w,
                oy + rh <= h,
                0 <= row <= rh,
                out@.len() == offset(rw as int, 0, row as int),
                forall|x: int, y: int|
                    0 <= x < rw && 0 <= y < row ==> #[trigger] pixel_of(out@, rw as int, x, y)
                        == self.at(ox + x, oy + y),
            decreases rh - row,
        {
            let mut col: usize = 0;
            while col < rw
                invariant
                    self.wf(),
                    n == self.rgba@.len(),
                    w == self.width,
                    h == self.height,
                    0 <= ox,
                    ox + rw <= w,
                    oy + rh <= h,
                    0 <= row < rh,
                    0 <= col <= rw,
                    out@.len() == offset(rw as int, col as int, row as int),
                    forall|x: int, y: int|
                        0 <= x < rw && 0 <= y && (y < row || (y == row && x < col))
                            ==> #[trigger] pixel_of(out@, rw as int, x, y) == self.at(
                            ox + x,
                            oy + y,
                        ),
                decreases rw - col,
            {
                proof {
                    offset_in_bounds(w, h, ox + col, oy + row);
                }
                let i: usize = ((oy + row) * self.width as usize + (ox + col)) * 4;
                let ghost before = out@;
                out.push(self.rgba[i]);
                out.push(self.rgba[i + 1]);
                out.push(self.rgba[i + 2]);
                out.push(self.rgba[i + 3]);
                assert forall|x: int, y: int|
                    0 <= x < rw && 0 <= y && (y < row || (y == row && x < col + 1)) implies #[trigger] pixel_of(
                    out@,
                    rw as int,
                    x,
                    y,
                ) == self.at(ox + x, oy + y) by {
                    if y == row && x == col {
                        assert(pixel_of(out@, rw as int, x, y) =~= self.at(ox + x, oy + y));
                    } else {
                        offset_is_ordered(rw as int, x, y, col as int, row as int);
                        offset_in_bounds(rw as int, rh as int, x, y);
                        assert(pixel_of(out@, rw as int, x, y) =~= pixel_of(
                            before,
                            rw as int,
                            x,
                            y,
                        ));
                    }
                }
                col = col + 1;
            }
            assert(offset(rw as int, rw as int, row as int) == offset(rw as int, 0, row + 1))
                by (nonlinear_arith);
            row = row + 1;
        }
        assert(offset(rw as int, 0, rh as int) == o.w * o.h * 4) by (nonlinear_arith)
            requires
                rw == o.w,
                rh == o.h,
        ;
        proof {
            cropped_pixels(out@, self.rgba@, w, h, o);
        }
        CapturedImage { width: o.w, height: o.h, rgba: out }
    }

    /// Composite this image into a `dst_w × dst_h` RGBA8 buffer at `(at_x, at_y)`,
    /// clipping to the destination. Used to stitch per-output captures into one
    /// multi-output region.
    pub fn blit_into(&self, dst: &mut [u8], dst_w: u32, dst_h: u32, at_x: i32, at_y: i32)
        requires
            self.wf(),
            old(dst)@.len() == dst_w * dst_h * 4,
        ensures
            final(dst)@.len() == old(dst)@.len(),
            forall|x: int, y: int|
                0 <= x < dst_w && 0 <= y < dst_h ==> #[trigger] pixel_of(
                    final(dst)@,
                    dst_w as int,
                    x,
                    y,
                ) == if 0 <= x - at_x < self.width && 0 <= y - at_y < self.height {
                    self.at(x - at_x, y - at_y)
                } else {
                    pixel_of(old(dst)@, dst_w as int, x, y)
                },
            final(dst)@ == drawn_over(
                old(dst)@,
                dst_w as int,
                self.rgba@,
                self.width as int,
                self.height as int,
                at_x as int,
                at_y as int,
            ),
    {
        let dst_rect = Region { x: 0, y: 0, w: dst_w, h: dst_h };
        let src_rect = Region { x: at_x, y: at_y, w: self.width, h: self.height };
        let o = match src_rect.intersect(&dst_rect) {
            Some(o) => o,
            None => {
                proof {
                    drawn_pixels(
                        dst@,
                        old(dst)@,
                        dst_w as int,
                        dst_h as int,
                        self.rgba@,
                        self.width as int,
                        self.height as int,
                        at_x as int,
                        at_y as int,
                    );
                }
                return ;
            },
        };
        let ghost w = dst_w as int;
        let ghost h = dst_h as int;
        let ghost original = old(dst)@;
        let (ox, oy): (usize, usize) = (o.x as usize, o.y as usize);
        let (rw, rh): (usize, usize) = (o.w as usize, o.h as usize);
        let sx: usize = (o.x as i64 - at_x as i64) as usize;
        let sy: usize = (o.y as i64 - at_y as i64) as usize;
        let n: usize = self.rgba.len();
        let m: usize = dst.len();
        let mut row: usize = 0;
        while row < rh
            invariant
                self.wf(),
                n == self.rgba@.len(),
                m == dst@.len(),
                w == dst_w,
                h == dst_h,
                dst@.len() == w * h * 4,
                original.len() == w * h * 4,
                0 <= ox,
                0 <= oy,
                ox + rw <= w,
                oy + rh <= h,
                sx + rw <= self.width,
                sy + rh <= self.height,
                0 <= row <= rh,
                forall|x: int, y: int|
                    0 <= x < w && 0 <= y < h ==> #[trigger] pixel_of(dst@, w, x, y) == if ox <= x
                        < ox + rw && oy <= y < oy + row {
                        self.at(x - ox + sx, y - oy + sy)
                    } else {
                        pixel_of(original, w, x, y)
                    },
            decreases rh - row,
        {
            let mut col: usize = 0;
            while col < rw
                invariant
                    self.wf(),
                    n == self.rgba@.len(),
                    m == dst@.len(),
                    w == dst_w,
                    h == dst_h,
                    dst@.len() == w * h * 4,
                    original.len() == w * h * 4,
                    0 <= ox,
                    0 <= oy,
                    ox + rw <= w,
                    oy + rh <= h,
                    sx + rw <= self.width,
                    sy + rh <= self.height,
                    0 <= row < rh,
                    0 <= col <= rw,
                    forall|x: int, y: int|
                        0 <= x < w && 0 <= y < h ==> #[trigger] pixel_of(dst@, w, x, y) == if ox
                            <= x < ox + rw && oy <= y && (y < oy + row || (y == oy + row && x < ox
                            + col)) {
                            self.at(x - ox + sx, y - oy + sy)
                        } else {
                            pixel_of(original, w, x, y)
                        },
                decreases rw - col,
            {
                proof {
                    offset_in_bounds(
                        self.width as int,
                        self.height as int,
                        sx + col,
                        sy + row,
                    );
                    offset_in_bounds(w, h, ox + col, oy + row);
                }
                let i: usize = ((sy + row) * self.width as usize + (sx + col)) * 4;
                let d: usize = ((oy + row) * dst_w as usize + (ox + col)) * 4;
                let ghost before = dst@;
                dst[d] = self.rgba[i];
                dst[d + 1] = self.rgba[i + 1];
                dst[d + 2] = self.rgba[i + 2];
                dst[d + 3] = self.rgba[i + 3];
                assert forall|x: int, y: int|
                    0 <= x < w && 0 <= y < h implies #[trigger] pixel_of(dst@, w, x, y) == if ox
                    <= x < ox + rw && oy <= y && (y < oy + row || (y == oy + row && x < ox + col
                    + 1)) {
                    self.at(x - ox + sx, y - oy + sy)
                } else {
                    pixel_of(original, w, x, y)
                } by {
                    offset_in_bounds(w, h, x, y);
                    if x == ox + col && y == oy + row {
                        assert(pixel_of(dst@, w, x, y) =~= self.at(sx + col, sy + row));
                    } else {
                        if y < oy + row || (y == oy + row && x < ox + col) {
                            offset_is_ordered(w, x, y, ox + col, oy + row);
                        } else {
                            offset_is_ordered(w, ox + col, oy + row, x, y);
                        }
                        assert(pixel_of(dst@, w, x, y) =~= pixel_of(before, w, x, y));
                    }
                }
                col = col + 1;
            }
            row = row + 1;
        }
        proof {
            drawn_pixels(
                dst@,
                original,
                w,
                h,
                self.rgba@,
                self.width as int,
                self.height as int,
                at_x as int,
                at_y as int,
            );
        }
    }
}

/// `after` is `before` with its rows in reverse order.
pub open spec fn flipped(before: CapturedImage, after: CapturedImage) -> bool {
    &&& after.width == before.width && after.height == before.height
    &&& after.wf()
    &&& forall|x: int, y: int|
        0 <= x < before.width && 0 <= y < before.height ==> #[trigger] after.at(x, y) == before.at(
            x,
            before.height - 1 - y,
        )
}

/// Flipping twice is the identity.
pub proof fn flipping_twice_is_the_identity(a: CapturedImage, b: CapturedImage, c: CapturedImage)
    requires
        a.wf(),
        flipped(a, b),
        flipped(b, c),
    ensures
        c.width == a.width,
        c.height == a.height,
        c.rgba@ == a.rgba@,
{
    let w = a.width as int;
    let h = a.height as int;
    assert forall|x: int, y: int| 0 <= x < w && 0 <= y < h implies #[trigger] pixel_of(
        c.rgba@,
        w,
        x,
        y,
    ) == pixel_of(a.rgba@, w, x, y) by {
        assert(c.at(x, y) == b.at(x, h - 1 - y));
        assert(b.at(x, h - 1 - y) == a.at(x, y));
    }
    same_pixels_same_bytes(c.rgba@, a.rgba@, w, h);
}

/// Reverse the row order of an RGBA8 image.
pub fn flip_vertically(img: &mut CapturedImage)
    requires
        old(img).wf(),
    ensures
        flipped(*old(img), *final(img)),
{
    let ghost w = img.width as int;
    let ghost h = img.height as int;
    let (rw, rh): (usize, usize) = (img.width as usize, img.height as usize);
    let n: usize = img.rgba.len();
    let mut out: Vec<u8> = Vec::new();
    let mut row: usize = 0;
    while row < rh
        invariant
            img.wf(),
            n == img.rgba@.len(),
            *img == *old(img),
            w == img.width,
            h == img.height,
            w == rw,
            h == rh,
            0 <= row <= rh,
            out@.len() == offset(w, 0, row as int),
            forall|x: int, y: int|
                0 <= x < w && 0 <= y < row ==> #[trigger] pixel_of(out@, w, x, y) == img.at(
                    x,
                    h - 1 - y,
                ),
        decreases rh - row,
    {
        let from: usize = rh - 1 - row;
        let mut col: usize = 0;
        while col < rw
            invariant
                img.wf(),
                n == img.rgba@.len(),
                *img == *old(img),
                w == img.width,
                h == img.height,
                w == rw,
                h == rh,
                0 <= row < rh,
                from == h - 1 - row,
                0 <= col <= rw,
                out@.len() == offset(w, col as int, row as int),
                forall|x: int, y: int|
                    0 <= x < w && 0 <= y && (y < row || (y == row && x < col))
                        ==> #[trigger] pixel_of(out@, w, x, y) == img.at(x, h - 1 - y),
            decreases rw - col,
        {
            proof {
                offset_in_bounds(w, h, col as int, from as int);
            }
            let i: usize = (from * rw + col) * 4;
            let ghost before = out@;
            out.push(img.rgba[i]);
            out.push(img.rgba[i + 1]);
            out.push(img.rgba[i + 2]);
            out.push(img.rgba[i + 3]);
            assert forall|x: int, y: int|
                0 <= x < w && 0 <= y && (y < row || (y == row && x < col + 1)) implies #[trigger] pixel_of(
                out@,
                w,
                x,
                y,
            ) == img.at(x, h - 1 - y) by {
                if y == row && x == col {
                    assert(pixel_of(out@, w, x, y) =~= img.at(x, h - 1 - y));
                } else {
                    offset_is_ordered(w, x, y, col as int, row as int);
                    offset_in_bounds(w, h, x, y);
                    assert(pixel_of(out@, w, x, y) =~= pixel_of(before, w, x, y));
                }
            }
            col = col + 1;
        }
        assert(offset(w, w, row as int) == offset(w, 0, row + 1)) by (nonlinear_arith);
        row = row + 1;
    }
    assert(offset(w, 0, h) == w * h * 4) by (nonlinear_arith);
    img.rgba = out;
}

/// Pixel formats the compositor can write into shared memory. The ones the library
/// decodes have a name; any other is carried by its code.
#[derive(Clone, Copy, Debug, PartialEq, Eq, Structural)]
pub enum ShmFormat {
    Argb8888,
    Xrgb8888,
    Abgr8888,
    Xbgr8888,
    Bgr888,
    Rgb888,
    Other(u32),
}

/// Byte layout of a shared-memory pixel format (memory order, little-endian), so we can
/// convert to RGBA8 and — crucially — compute the correct stride (`width * bpp`).
#[derive(Clone, Copy, Debug, PartialEq, Eq, Structural)]
pub struct PixelLayout {
    /// Bytes per pixel.
    pub bpp: usize,
    /// Where the red byte stands within a pixel.
    pub r: usize,
    /// Where the green byte stands.
    pub g: usize,
    /// Where the blue byte stands.
    pub b: usize,
    /// Where the alpha byte stands, if there is one.
    pub a: Option<usize>,
}

/// A DRM fourcc code, from its four ASCII bytes.
pub open spec fn fourcc_spec(a: u8, b: u8, c: u8, d: u8) -> u32 {
    (a + b * 0x100 + c * 0x1_0000 + d * 0x100_0000) as u32
}

/// Build a DRM fourcc code from its four ASCII bytes.
pub fn fourcc(a: u8, b: u8, c: u8, d: u8) -> (r: u32)
    ensures
        r == fourcc_spec(a, b, c, d),
{
    a as u32 + b as u32 * 0x100 + c as u32 * 0x1_0000 + d as u32 * 0x100_0000
}

impl PixelLayout {
    /// Every channel lies within the pixel.
    pub open spec fn wf(&self) -> bool {
        &&& self.bpp <= 4
        &&& self.r < self.bpp
        &&& self.g < self.bpp
        &&& self.b < self.bpp
        &&& self.a matches Some(a) ==> a < self.bpp
    }

    /// The layout of each format the library decodes.
    pub open spec fn layout_of(f: ShmFormat) -> Option<PixelLayout> {
        match f {
            ShmFormat::Argb8888 => Some(PixelLayout { bpp: 4, r: 2, g: 1, b: 0, a: Some(3) }),
            ShmFormat::Xrgb8888 => Some(PixelLayout { bpp: 4, r: 2, g: 1, b: 0, a: None }),
            ShmFormat::Abgr8888 => Some(PixelLayout { bpp: 4, r: 0, g: 1, b: 2, a: Some(3) }),
            ShmFormat::Xbgr8888 => Some(PixelLayout { bpp: 4, r: 0, g: 1, b: 2, a: None }),
            ShmFormat::Bgr888 => Some(PixelLayout { bpp: 3, r: 0, g: 1, b: 2, a: None }),
            ShmFormat::Rgb888 => Some(PixelLayout { bpp: 3, r: 2, g: 1, b: 0, a: None }),
            ShmFormat::Other(_) => None,
        }
    }

    /// The shared-memory format a DRM fourcc shares its memory order with.
    pub open spec fn shm_of_fourcc(f: u32) -> Option<ShmFormat> {
        if f == fourcc_spec(0x58, 0x52, 0x32, 0x34) {
            Some(ShmFormat::Xrgb8888)
        } else if f == fourcc_spec(0x41, 0x52, 0x32, 0x34) {
            Some(ShmFormat::Argb8888)
        } else if f == fourcc_spec(0x58, 0x42, 0x32, 0x34) {
            Some(ShmFormat::Xbgr8888)
        } else if f == fourcc_spec(0x41, 0x42, 0x32, 0x34) {
            Some(ShmFormat::Abgr8888)
        } else {
            None
        }
    }

    /// The layout of `f`, or `None` for a format we don't decode.
    pub fn of(f: ShmFormat) -> (r: Option<Self>)
        ensures
            r == PixelLayout::layout_of(f),
            r matches Some(l) ==> l.wf(),
    {
        match f {
            ShmFormat::Argb8888 => Some(PixelLayout { bpp: 4, r: 2, g: 1, b: 0, a: Some(3) }),
            ShmFormat::Xrgb8888 => Some(PixelLayout { bpp: 4, r: 2, g: 1, b: 0, a: None }),
            ShmFormat::Abgr8888 => Some(PixelLayout { bpp: 4, r: 0, g: 1, b: 2, a: Some(3) }),
            ShmFormat::Xbgr8888 => Some(PixelLayout { bpp: 4, r: 0, g: 1, b: 2, a: None }),
            ShmFormat::Bgr888 => Some(PixelLayout { bpp: 3, r: 0, g: 1, b: 2, a: None }),
            ShmFormat::Rgb888 => Some(PixelLayout { bpp: 3, r: 2, g: 1, b: 0, a: None }),
            ShmFormat::Other(_) => None,
        }
    }

    /// Same, keyed by DRM fourcc (for dma-buf). DRM 32-bit codes use the same
    /// little-endian memory order as their shared-memory counterparts.
    pub fn of_fourcc(f: u32) -> (r: Option<Self>)
        ensures
            r == match PixelLayout::shm_of_fourcc(f) {
                Some(s) => PixelLayout::layout_of(s),
                None => None,
            },
            r is Some <==> PixelLayout::shm_of_fourcc(f) is Some,
    {
        // XR24 / AR24: little-endian B,G,R,(X|A); XB24 / AB24: R,G,B,(X|A).
        if f == fourcc(0x58, 0x52, 0x32, 0x34) {
            PixelLayout::of(ShmFormat::Xrgb8888)
        } else if f == fourcc(0x41, 0x52, 0x32, 0x34) {
            PixelLayout::of(ShmFormat::Argb8888)
        } else if f == fourcc(0x58, 0x42, 0x32, 0x34) {
            PixelLayout::of(ShmFormat::Xbgr8888)
        } else if f == fourcc(0x41, 0x42, 0x32, 0x34) {
            PixelLayout::of(ShmFormat::Abgr8888)
        } else {
            None
        }
    }

    /// The RGBA8 pixel whose bytes start at `s` in `raw`.
    pub open spec fn decode(&self, raw: Seq<u8>, s: int) -> Seq<u8> {
        seq![
            raw[s + self.r],
            raw[s + self.g],
            raw[s + self.b],
            match self.a {
                Some(a) => raw[s + a],
                None => 255u8,
            },
        ]
    }
}

/// `raw` holds `h` rows of `w` pixels of `bpp` bytes, `stride` bytes apart.
pub open spec fn rows_fit(raw: Seq<u8>, w: int, h: int, stride: int, bpp: int) -> bool {
    w > 0 && h > 0 ==> (h - 1) * stride + w * bpp <= raw.len()
}

/// Pixel-format conversion to RGBA8 shared by the shm and dma-buf paths.
pub fn convert(raw: &[u8], w: u32, h: u32, stride: usize, layout: &PixelLayout) -> (r:
    CapturedImage)
    requires
        layout.wf(),
        rows_fit(raw@, w as int, h as int, stride as int, layout.bpp as int),
        w * h * 4 <= usize::MAX,
    ensures
        r.wf(),
        r.width == w,
        r.height == h,
        forall|x: int, y: int|
            0 <= x < w && 0 <= y < h ==> #[trigger] r.at(x, y) == layout.decode(
                raw@,
                y * stride + x * layout.bpp,
            ),
{
    let ghost gw = w as int;
    let ghost gh = h as int;
    let n: usize = raw.len();
    let (rw, rh): (usize, usize) = (w as usize, h as usize);
    let mut out: Vec<u8> = Vec::new();
    let mut row: usize = 0;
    while row < rh
        invariant
            layout.wf(),
            n == raw@.len(),
            rows_fit(raw@, gw, gh, stride as int, layout.bpp as int),
            gw == rw,
            gh == rh,
            0 <= row <= rh,
            out@.len() == offset(gw, 0, row as int),
            forall|x: int, y: int|
                0 <= x < gw && 0 <= y < row ==> #[trigger] pixel_of(out@, gw, x, y)
                    == layout.decode(raw@, y * stride + x * layout.bpp),
        decreases rh - row,
    {
        let mut col: usize = 0;
        while col < rw
            invariant
                layout.wf(),
                n == raw@.len(),
                rows_fit(raw@, gw, gh, stride as int, layout.bpp as int),
                gw == rw,
                gh == rh,
                0 <= row < rh,
                0 <= col <= rw,
                out@.len() == offset(gw, col as int, row as int),
                forall|x: int, y: int|
                    0 <= x < gw && 0 <= y && (y < row || (y == row && x < col))
                        ==> #[trigger] pixel_of(out@, gw, x, y) == layout.decode(
                        raw@,
                        y * stride + x * layout.bpp,
                    ),
            decreases rw - col,
        {
            assert(0 <= row * stride && 0 <= col * layout.bpp && row * stride + col * layout.bpp
                + layout.bpp <= n) by (nonlinear_arith)
                requires
                    (gh - 1) * stride + gw * layout.bpp <= n,
                    0 <= row <= gh - 1,
                    0 <= col <= gw - 1,
                    0 <= stride,
                    0 <= layout.bpp,
            ;
            let s: usize = row * stride + col * layout.bpp;
            let ghost before = out@;
            out.push(raw[s + layout.r]);
            out.push(raw[s + layout.g]);
            out.push(raw[s + layout.b]);
            let alpha: u8 = match layout.a {
                Some(a) => raw[s + a],
                None => 255,
            };
            out.push(alpha);
            assert forall|x: int, y: int|
                0 <= x < gw && 0 <= y && (y < row || (y == row && x < col + 1)) implies #[trigger] pixel_of(
                out@,
                gw,
                x,
                y,
            ) == layout.decode(raw@, y * stride + x * layout.bpp) by {
                offset_in_bounds(gw, gh, x, y);
                if y == row && x == col {
                    assert(pixel_of(out@, gw, x, y) =~= layout.decode(
                        raw@,
                        y * stride + x * layout.bpp,
                    ));
                } else {
                    offset_is_ordered(gw, x, y, col as int, row as int);
                    assert(pixel_of(out@, gw, x, y) =~= pixel_of(before, gw, x, y));
                }
            }
            col = col + 1;
        }
        assert(offset(gw, gw, row as int) == offset(gw, 0, row + 1)) by (nonlinear_arith);
        row = row + 1;
    }
    assert(offset(gw, 0, gh) == gw * gh * 4) by (nonlinear_arith);
    CapturedImage { width: w, height: h, rgba: out }
}

/// Cropping to the whole image gives the image back.
pub proof fn cropping_to_the_bounds_keeps_every_pixel(a: CapturedImage, r: CapturedImage)
    requires
        a.wf(),
        r.wf(),
        a.bounds().overlap(&a.bounds()) matches Some(o) && r.width == o.w && r.height == o.h
            && forall|x: int, y: int|
            0 <= x < o.w && 0 <= y < o.h ==> #[trigger] r.at(x, y) == a.at(o.x + x, o.y + y),
    ensures
        r.rgba@ == a.rgba@,
{
    let w = a.width as int;
    let h = a.height as int;
    assert forall|x: int, y: int| 0 <= x < w && 0 <= y < h implies #[trigger] pixel_of(
        r.rgba@,
        w,
        x,
        y,
    ) == pixel_of(a.rgba@, w, x, y) by {
        assert(r.at(x, y) == a.at(0 + x, 0 + y));
    }
    same_pixels_same_bytes(r.rgba@, a.rgba@, w, h);
}

/// What `image::imageops::thumbnail` makes of an RGBA8 image.
pub uninterp spec fn resampled(rgba: Seq<u8>, w: u32, h: u32, nw: u32, nh: u32) -> Seq<u8>;

/// An image of `w` by `h` pixels can be sampled at `nw` by `nh`: the result fits in memory,
/// and the sum of the bytes that go into one of its pixels fits in 32 bits.
pub open spec fn can_sample(w: u32, h: u32, nw: u32, nh: u32) -> bool {
    &&& nw > 0
    &&& nh > 0
    &&& nw * nh * 4 <= 0x7fff_ffff
    &&& (w / nw + 2) * (h / nh + 2) <= 0x100_0000
}

/// `image::imageops::thumbnail` on the RGBA8 image of `w` by `h` pixels that
/// `image::RgbaImage::from_raw` makes of `rgba`. The result is an image of `nw` by `nh`
/// pixels; which ones is the sampling's, and depends on nothing but the arguments.
#[verifier::external_body]
pub(crate) fn image_thumbnail(rgba: Vec<u8>, w: u32, h: u32, nw: u32, nh: u32) -> (r: Vec<u8>)
    requires
        rgba@.len() >= w * h * 4,
        can_sample(w, h, nw, nh),
    ensures
        r@ == resampled(rgba@, w, h, nw, nh),
        r@.len() == nw * nh * 4,
{
    let buf = image::RgbaImage::from_raw(w, h, rgba).unwrap();
    image::imageops::thumbnail(&buf, nw, nh).into_raw()
}

/// Pixels are laid out row by row: the first starts the buffer, the next is four bytes on, and
/// the one below is a row's bytes on.
pub proof fn pixels_are_laid_out_row_by_row(w: int, x: int, y: int)
    ensures
        offset(w, 0, 0) == 0,
        offset(w, x + 1, y) == offset(w, x, y) + 4,
        offset(w, x, y + 1) == offset(w, x, y) + 4 * w,
{
    assert((y + 1) * w == y * w + w) by (nonlinear_arith);
    assert(0 * w == 0);
}

/// The number of a pixel gives back its place.
proof fn place_of_pixel(w: int, x: int, y: int, k: int)
    requires
        0 <= x < w,
        0 <= k < 4,
    ensures
        ((4 * (y * w + x) + k) / 4) % w == x,
        ((4 * (y * w + x) + k) / 4) / w == y,
        (4 * (y * w + x) + k) % 4 == k,
{
    let p = y * w + x;
    assert((4 * p + k) / 4 == p && (4 * p + k) % 4 == k);
    assert(p % w == x && p / w == y) by (nonlinear_arith)
        requires
            p == y * w + x,
            0 <= x < w,
    ;
}

/// A cropped image's byte is that of the pixel as far from the part's corner.
pub proof fn a_part_shows_what_it_covers(src: Seq<u8>, w: int, o: Region, x: int, y: int, k: int)
    requires
        0 <= x < o.w,
        0 <= y < o.h,
        0 <= k < 4,
    ensures
        cropped(src, w, o).len() == 4 * (o.w * o.h),
        0 <= 4 * (y * o.w + x) + k < cropped(src, w, o).len(),
        cropped(src, w, o)[4 * (y * o.w + x) + k] == src[4 * ((o.y + y) * w + (o.x + x)) + k],
{
    place_of_pixel(o.w as int, x, y, k);
    offset_in_bounds(o.w as int, o.h as int, x, y);
}

/// An image drawn over a buffer shows where it lies, and the buffer elsewhere.
pub proof fn a_drawn_image_shows_where_it_lies(
    dst: Seq<u8>,
    w: int,
    h: int,
    src: Seq<u8>,
    sw: int,
    sh: int,
    ax: int,
    ay: int,
    x: int,
    y: int,
    k: int,
)
    requires
        dst.len() == w * h * 4,
        0 <= x < w,
        0 <= y < h,
        0 <= k < 4,
    ensures
        0 <= 4 * (y * w + x) + k < dst.len(),
        drawn_over(dst, w, src, sw, sh, ax, ay).len() == dst.len(),
        drawn_over(dst, w, src, sw, sh, ax, ay)[4 * (y * w + x) + k] == if ax <= x < ax + sw && ay
            <= y < ay + sh {
            src[4 * ((y - ay) * sw + (x - ax)) + k]
        } else {
            dst[4 * (y * w + x) + k]
        },
{
    place_of_pixel(w, x, y, k);
    offset_in_bounds(w, h, x, y);
}

/// A pixel is read as its own four bytes, at four to the pixel and one row after the other, and
/// only one that is in the image is.
pub proof fn a_pixel_is_its_own_bytes(img: CapturedImage, x: u32, y: u32, r: Option<[u8; 4]>)
    requires
        img.wf(),
        call_ensures(CapturedImage::pixel, (&img, x, y), r),
    ensures
        r is Some <==> x < img.width && y < img.height,
        r matches Some(p) ==> forall|k: int|
            0 <= k < 4 ==> #[trigger] p@[k] == img.rgba@[4 * (y * img.width + x) + k],
{
    if x < img.width && y < img.height {
        offset_in_bounds(img.width as int, img.height as int, x as int, y as int);
        if let Some(p) = r {
            assert forall|k: int| 0 <= k < 4 implies #[trigger] p@[k] == img.rgba@[4 * (y
                * img.width + x) + k] by {
                assert(img.at(x as int, y as int)[k] == p@[k]);
            }
        }
    }
}

/// Cropping keeps the pixels of the rectangle that are in the image, and nothing else: the
/// pixel at a place of the image is at that place in the part, seen from the part's corner.
pub proof fn cropping_keeps_the_pixels_of_the_rectangle(
    img: CapturedImage,
    rect: Region,
    r: CapturedImage,
    x: int,
    y: int,
    k: int,
)
    requires
        img.wf(),
        call_ensures(CapturedImage::crop, (&img, rect), r),
        0 <= k < 4,
        0 <= x < img.width,
        0 <= y < img.height,
        rect.x <= x < rect.x + rect.w,
        rect.y <= y < rect.y + rect.h,
    ensures
        ({
            let left = if rect.x < 0 {
                0
            } else {
                rect.x as int
            };
            let top = if rect.y < 0 {
                0
            } else {
                rect.y as int
            };
            &&& 0 <= x - left < r.width && 0 <= y - top < r.height
            &&& r.rgba@.len() == 4 * (r.width * r.height)
            &&& r.rgba@[4 * ((y - top) * r.width + (x - left)) + k] == img.rgba@[4 * (y * img.width
                + x) + k]
        }),
{
    overlap_is_the_common_points(rect, img.bounds());
    let o = rect.overlap(&img.bounds())->0;
    assert(rect.holds(x, y) && img.bounds().holds(x, y));
    a_part_shows_what_it_covers(img.rgba@, img.width as int, o, x - o.x, y - o.y, k);
}

/// Nothing is left of a crop that shares no pixel with the image.
pub proof fn cropping_beside_the_image_leaves_nothing(
    img: CapturedImage,
    rect: Region,
    r: CapturedImage,
)
    requires
        img.wf(),
        call_ensures(CapturedImage::crop, (&img, rect), r),
        rect.x >= img.width || rect.y >= img.height || rect.x + rect.w <= 0 || rect.y + rect.h <= 0,
    ensures
        r.width == 0,
        r.height == 0,
        r.rgba@.len() == 0,
{
}

/// Drawing an image changes exactly the pixels it lies over: each becomes the image's, as far
/// from the image's corner as it is from where the image was put.
pub proof fn drawing_changes_the_pixels_under_the_image(
    img: CapturedImage,
    dst: &mut [u8],
    w: u32,
    h: u32,
    at_x: i32,
    at_y: i32,
    x: int,
    y: int,
    k: int,
)
    requires
        img.wf(),
        old(dst)@.len() == w * h * 4,
        call_ensures(CapturedImage::blit_into, (&img, dst, w, h, at_x, at_y), ()),
        0 <= x < w,
        0 <= y < h,
        0 <= k < 4,
    ensures
        final(dst)@.len() == old(dst)@.len(),
        final(dst)@[4 * (y * w + x) + k] == if at_x <= x < at_x + img.width && at_y <= y < at_y
            + img.height {
            img.rgba@[4 * ((y - at_y) * img.width + (x - at_x)) + k]
        } else {
            old(dst)@[4 * (y * w + x) + k]
        },
{
    a_drawn_image_shows_where_it_lies(
        old(dst)@,
        w as int,
        h as int,
        img.rgba@,
        img.width as int,
        img.height as int,
        at_x as int,
        at_y as int,
        x,
        y,
        k,
    );
}

/// Flipping turns an image upside down: each pixel goes to the row as far from the bottom as its
/// own was from the top, and stays in its column.
pub proof fn flipping_turns_upside_down(img: &mut CapturedImage, x: int, y: int, k: int)
    requires
        old(img).wf(),
        call_ensures(flip_vertically, (img,), ()),
        0 <= x < old(img).width,
        0 <= y < old(img).height,
        0 <= k < 4,
    ensures
        final(img).width == old(img).width,
        final(img).height == old(img).height,
        final(img).rgba@.len() == old(img).rgba@.len(),
        final(img).rgba@[4 * (y * old(img).width + x) + k] == old(img).rgba@[4 * ((old(img).height
            - 1 - y) * old(img).width + x) + k],
{
    let (a, b) = (*old(img), *final(img));
    offset_in_bounds(a.width as int, a.height as int, x, y);
    offset_in_bounds(a.width as int, a.height as int, x, a.height - 1 - y);
    assert(b.at(x, y)[k] == a.at(x, a.height - 1 - y)[k]);
}

/// The word a pixel is: its bytes in little-endian order.
pub open spec fn word(raw: Seq<u8>, s: int, bytes: int) -> int {
    raw[s] + 0x100 * raw[s + 1] + 0x1_0000 * raw[s + 2] + if bytes == 4 {
        0x100_0000 * raw[s + 3]
    } else {
        0
    }
}

/// The colours of a pixel are where its format's name puts them in its word, from the highest
/// byte to the lowest; a format without alpha is opaque.
pub proof fn formats_are_read_as_they_are_named(
    f: ShmFormat,
    l: Option<PixelLayout>,
    raw: Seq<u8>,
    s: int,
    red: u8,
    green: u8,
    blue: u8,
    alpha: u8,
)
    requires
        call_ensures(PixelLayout::of, (f,), l),
    ensures
        match f {
            ShmFormat::Argb8888 => l matches Some(p) && p.bpp == 4 && (word(raw, s, 4)
                == 0x100_0000 * alpha + 0x1_0000 * red + 0x100 * green + blue ==> p.decode(raw, s)
                == seq![red, green, blue, alpha]),
            ShmFormat::Xrgb8888 => l matches Some(p) && p.bpp == 4 && (word(raw, s, 4)
                == 0x100_0000 * alpha + 0x1_0000 * red + 0x100 * green + blue ==> p.decode(raw, s)
                == seq![red, green, blue, 255u8]),
            ShmFormat::Abgr8888 => l matches Some(p) && p.bpp == 4 && (word(raw, s, 4)
                == 0x100_0000 * alpha + 0x1_0000 * blue + 0x100 * green + red ==> p.decode(raw, s)
                == seq![red, green, blue, alpha]),
            ShmFormat::Xbgr8888 => l matches Some(p) && p.bpp == 4 && (word(raw, s, 4)
                == 0x100_0000 * alpha + 0x1_0000 * blue + 0x100 * green + red ==> p.decode(raw, s)
                == seq![red, green, blue, 255u8]),
            ShmFormat::Rgb888 => l matches Some(p) && p.bpp == 3 && (word(raw, s, 3) == 0x1_0000
                * red + 0x100 * green + blue ==> p.decode(raw, s) == seq![red, green, blue, 255u8]),
            ShmFormat::Bgr888 => l matches Some(p) && p.bpp == 3 && (word(raw, s, 3) == 0x1_0000
                * blue + 0x100 * green + red ==> p.decode(raw, s) == seq![red, green, blue, 255u8]),
            ShmFormat::Other(_) => l is None,
        },
{
    if let Some(p) = l {
        let (b0, b1, b2, b3) = (raw[s], raw[s + 1], raw[s + 2], raw[s + 3]);
        if word(raw, s, 4) == 0x100_0000 * alpha + 0x1_0000 * red + 0x100 * green + blue {
            one_word_one_spelling(b0, b1, b2, b3, blue, green, red, alpha);
        }
        if word(raw, s, 4) == 0x100_0000 * alpha + 0x1_0000 * blue + 0x100 * green + red {
            one_word_one_spelling(b0, b1, b2, b3, red, green, blue, alpha);
        }
        if word(raw, s, 3) == 0x1_0000 * red + 0x100 * green + blue {
            one_word_one_spelling(b0, b1, b2, 0, blue, green, red, 0);
        }
        if word(raw, s, 3) == 0x1_0000 * blue + 0x100 * green + red {
            one_word_one_spelling(b0, b1, b2, 0, red, green, blue, 0);
        }
    }
}

proof fn one_word_one_spelling(a: u8, b: u8, c: u8, d: u8, e: u8, f: u8, g: u8, h: u8)
    requires
        a + 0x100 * b + 0x1_0000 * c + 0x100_0000 * d == e + 0x100 * f + 0x1_0000 * g + 0x100_0000
            * h,
    ensures
        a == e && b == f && c == g && d == h,
{
    let (x, y) = (a + 0x100 * b + 0x1_0000 * c, e + 0x100 * f + 0x1_0000 * g);
    assert(0 <= x < 0x100_0000 && 0 <= y < 0x100_0000);
    assert(x + 0x100_0000 * d == y + 0x100_0000 * h);
    assert(d == h);
    let (u, v) = (a + 0x100 * b, e + 0x100 * f);
    assert(0 <= u < 0x1_0000 && 0 <= v < 0x1_0000);
    assert(u + 0x1_0000 * c == v + 0x1_0000 * g);
    assert(c == g);
    assert(b == f);
}

/// A fourcc code spells its four letters, the first in its lowest byte.
pub proof fn a_fourcc_spells_its_letters(a: u8, b: u8, c: u8, d: u8, r: u32)
    requires
        call_ensures(fourcc, (a, b, c, d), r),
    ensures
        r % 0x100 == a,
        r / 0x100 % 0x100 == b,
        r / 0x1_0000 % 0x100 == c,
        r / 0x100_0000 == d,
{
}

/// A buffer on the GPU is read as its fourcc spells: 32 bits with an alpha where the first
/// letter is `A` and none where it is `X`, red on top of blue where the second is `R` and the
/// other way round where it is `B`. Nothing else is.
pub proof fn a_fourcc_is_read_as_it_is_spelt(f: u32, r: Option<PixelLayout>)
    requires
        call_ensures(PixelLayout::of_fourcc, (f,), r),
    ensures
        r is Some <==> {
            &&& f % 0x100 == 0x41 || f % 0x100 == 0x58
            &&& f / 0x100 % 0x100 == 0x52 || f / 0x100 % 0x100 == 0x42
            &&& f / 0x1_0000 % 0x100 == 0x32
            &&& f / 0x100_0000 == 0x34
        },
        r matches Some(l) ==> {
            &&& l.bpp == 4 && l.g == 1
            &&& f % 0x100 == 0x41 ==> l.a == Some(3usize)
            &&& f % 0x100 == 0x58 ==> l.a is None
            &&& f / 0x100 % 0x100 == 0x52 ==> l.r == 2 && l.b == 0
            &&& f / 0x100 % 0x100 == 0x42 ==> l.r == 0 && l.b == 2
        },
{
}

/// A frame is converted pixel by pixel: each comes from as many rows down and as many pixels
/// along in the frame, a row being `stride` bytes.
pub proof fn a_frame_is_converted_pixel_by_pixel(
    raw: &[u8],
    w: u32,
    h: u32,
    stride: usize,
    layout: PixelLayout,
    r: CapturedImage,
    x: int,
    y: int,
)
    requires
        layout.wf(),
        call_ensures(convert, (raw, w, h, stride, &layout), r),
        0 <= x < w,
        0 <= y < h,
    ensures
        r.width == w,
        r.height == h,
        r.rgba@.len() == 4 * (w * h),
        r.rgba@[4 * (y * w + x)] == raw@[stride * y + layout.bpp * x + layout.r],
        r.rgba@[4 * (y * w + x) + 1] == raw@[stride * y + layout.bpp * x + layout.g],
        r.rgba@[4 * (y * w + x) + 2] == raw@[stride * y + layout.bpp * x + layout.b],
        r.rgba@[4 * (y * w + x) + 3] == match layout.a {
            Some(a) => raw@[stride * y + layout.bpp * x + a],
            None => 255u8,
        },
{
    offset_in_bounds(w as int, h as int, x, y);
    assert(stride * y == y * stride && layout.bpp * x == x * layout.bpp) by (nonlinear_arith);
    let p = r.at(x, y);
    assert(p == layout.decode(raw@, y * stride + x * layout.bpp));
    assert(p[0] == r.rgba@[offset(w as int, x, y)]);
    assert(p[1] == r.rgba@[offset(w as int, x, y) + 1]);
    assert(p[2] == r.rgba@[offset(w as int, x, y) + 2]);
    assert(p[3] == r.rgba@[offset(w as int, x, y) + 3]);
}

} // verus!
