//! Presentation filters applied to an RGBA frame before it is shown.

use vstd::prelude::*;

verus! {

/// How the frame is presented.
#[derive(Debug, Clone, Copy, PartialEq, Eq, Structural)]
pub enum VideoFilter {
    /// Pixels as rendered.
    Sharp,
    /// Each pixel averaged with its right, lower and lower-right neighbours.
    Smooth,
}

/// Channel `ch` of pixel `(x, y)` in an RGBA frame `width` pixels wide.
pub open spec fn texel(src: Seq<u8>, width: int, x: int, y: int, ch: int) -> int {
    src[(y * width + x) * 4 + ch] as int
}

/// Channel `ch` of the smoothed pixel `(x, y)`: the mean (rounded down) of the 2×2 block
/// starting there, clamped to the frame's last row and column.
pub open spec fn smooth_texel(src: Seq<u8>, width: int, height: int, x: int, y: int, ch: int) -> u8 {
    let x1 = if x + 1 < width {
        x + 1
    } else {
        width - 1
    };
    let y1 = if y + 1 < height {
        y + 1
    } else {
        height - 1
    };
    ((texel(src, width, x, y, ch) + texel(src, width, x1, y, ch) + texel(src, width, x, y1, ch)
        + texel(src, width, x1, y1, ch)) / 4) as u8
}

/// `dst` after smoothing `src` into it: every whole row of `width` pixels is smoothed, the
/// rest of `dst` is kept; nothing changes when the sizes differ, the frame is empty or
/// `width` is zero.
pub open spec fn smoothed(src: Seq<u8>, dst: Seq<u8>, width: int) -> Seq<u8> {
    if src.len() != dst.len() || src.len() == 0 || width <= 0 {
        dst
    } else {
        let h: int = (src.len() as int / 4) / width;
        Seq::new(
            dst.len(),
            |i: int|
                if i / 4 < h * width {
                    smooth_texel(src, width, h, (i / 4) % width, (i / 4) / width, i % 4)
                } else {
                    dst[i]
                },
        )
    }
}

/// Pixel `(x, y)` of a frame `w` wide and `h` high lies inside it.
pub proof fn lemma_pixel_inside(x: int, y: int, w: int, h: int, len: int)
    requires
        0 <= x < w,
        0 <= y < h,
        h == (len / 4) / w,
        len >= 0,
    ensures
        0 <= y * w + x < h * w,
        h * w * 4 <= len,
        ((y * w + x) % w) == x,
        ((y * w + x) / w) == y,
{
    assert(y * w + x < h * w) by (nonlinear_arith)
        requires
            0 <= x < w,
            0 <= y < h,
    ;
    assert(0 <= y * w) by (nonlinear_arith)
        requires
            0 <= y,
            0 <= w,
    ;
    vstd::arithmetic::div_mod::lemma_fundamental_div_mod(len / 4, w);
    vstd::arithmetic::div_mod::lemma_fundamental_div_mod(len, 4);
    assert(h * w == w * h) by (nonlinear_arith);
    assert(0 <= (len / 4) % w);
    assert(0 <= len % 4);
    vstd::arithmetic::div_mod::lemma_fundamental_div_mod_converse(y * w + x, w, y, x);
}

/// Smooths `src` into `dst` (see `smoothed`).
fn smooth_frame_rgba(src: &[u8], dst: &mut [u8], width: usize)
    ensures
        final(dst)@ == smoothed(src@, old(dst)@, width as int),
{
    if src.len() != dst.len() || src.len() == 0 || width == 0 {
        return;
    }
    let pixel_count = src.len() / 4;
    let height = pixel_count / width;
    let ghost len = src@.len() as int;
    let ghost target = smoothed(src@, old(dst)@, width as int);
    let mut y: usize = 0;
    while y < height
        invariant
            src@.len() == dst@.len() == len,
            old(dst)@.len() == len,
            len <= usize::MAX,
            len > 0,
            width > 0,
            pixel_count == len / 4,
            height == (len / 4) / (width as int),
            y <= height,
            target == smoothed(src@, old(dst)@, width as int),
            forall|i: int|
                0 <= i < len ==> dst@[i] == (if i / 4 < y * width {
                    target[i]
                } else {
                    old(dst)@[i]
                }),
        decreases height - y,
    {
        let mut x: usize = 0;
        while x < width
            invariant
                src@.len() == dst@.len() == len,
                old(dst)@.len() == len,
                len <= usize::MAX,
                len > 0,
                width > 0,
                pixel_count == len / 4,
                height == (len / 4) / (width as int),
                y < height,
                x <= width,
                target == smoothed(src@, old(dst)@, width as int),
                forall|i: int|
                    0 <= i < len ==> dst@[i] == (if i / 4 < y * width + x {
                        target[i]
                    } else {
                        old(dst)@[i]
                    }),
            decreases width - x,
        {
            let x1 = if x + 1 < width {
                x + 1
            } else {
                width - 1
            };
            let y1 = if y + 1 < height {
                y + 1
            } else {
                height - 1
            };
            proof {
                lemma_pixel_inside(x as int, y as int, width as int, height as int, len);
                lemma_pixel_inside(x1 as int, y as int, width as int, height as int, len);
                lemma_pixel_inside(x as int, y1 as int, width as int, height as int, len);
                lemma_pixel_inside(x1 as int, y1 as int, width as int, height as int, len);
                assert((y * width + x) * 4 + 3 < len);
                assert((y * width + x1) * 4 + 3 < len);
                assert((y1 * width + x) * 4 + 3 < len);
                assert((y1 * width + x1) * 4 + 3 < len);
            }
            let i00 = (y * width + x) * 4;
            let i10 = (y * width + x1) * 4;
            let i01 = (y1 * width + x) * 4;
            let i11 = (y1 * width + x1) * 4;
            let ghost before = dst@;
            let mut c: usize = 0;
            while c < 4
                invariant
                    src@.len() == dst@.len() == len,
                    c <= 4,
                    x < width,
                    y < height,
                    x1 == (if x + 1 < width { x + 1 } else { width - 1 }),
                    y1 == (if y + 1 < height { y + 1 } else { height - 1 }),
                    i00 == (y * width + x) * 4,
                    i10 == (y * width + x1) * 4,
                    i01 == (y1 * width + x) * 4,
                    i11 == (y1 * width + x1) * 4,
                    i00 + 3 < len,
                    i10 + 3 < len,
                    i01 + 3 < len,
                    i11 + 3 < len,
                    forall|i: int|
                        0 <= i < len ==> dst@[i] == (if i00 <= i < i00 + c {
                            smooth_texel(src@, width as int, height as int, x as int, y as int, i - i00)
                        } else {
                            before[i]
                        }),
                decreases 4 - c,
            {
                let sum = src[i00 + c] as u32 + src[i10 + c] as u32 + src[i01 + c] as u32 + src[i11
                    + c] as u32;
                dst[i00 + c] = (sum / 4) as u8;
                c = c + 1;
            }
            proof {
                assert forall|i: int| 0 <= i < len implies dst@[i] == (if i / 4 < y * width + x + 1 {
                    target[i]
                } else {
                    old(dst)@[i]
                }) by {
                    if i00 <= i < i00 + 4 {
                        let p = (y * width + x) as int;
                        vstd::arithmetic::div_mod::lemma_fundamental_div_mod_converse(i, 4, p, i - i00);
                        lemma_pixel_inside(x as int, y as int, width as int, height as int, len);
                        assert(p % (width as int) == x && p / (width as int) == y);
                        assert(i / 4 < height * width);
                        assert(target[i] == smooth_texel(
                            src@,
                            width as int,
                            height as int,
                            x as int,
                            y as int,
                            i - i00,
                        ));
                    } else {
                        assert(i / 4 != y * width + x);
                    }
                }
            }
            x = x + 1;
        }
        assert(y * width + width == (y + 1) * width) by (nonlinear_arith);
        y = y + 1;
    }
    proof {
        assert forall|i: int| 0 <= i < len implies dst@[i] == target[i] by {
            if i / 4 >= height * width {
            }
        }
        assert(dst@ =~= target);
    }
}

/// Copies the rendered frame `src` to `dst` through `filter`, for a frame `width` pixels
/// wide; `scratch` holds the smoothed frame.
pub fn copy_frame_sized(src: &[u8], dst: &mut [u8], scratch: &mut [u8], filter: VideoFilter, width: usize)
    requires
        filter == VideoFilter::Sharp ==> old(dst)@.len() == src@.len(),
        filter == VideoFilter::Smooth ==> old(dst)@.len() == old(scratch)@.len(),
    ensures
        filter == VideoFilter::Sharp ==> final(dst)@ == src@ && final(scratch)@ == old(scratch)@,
        filter == VideoFilter::Smooth ==> final(scratch)@ == smoothed(src@, old(scratch)@, width as int)
            && final(dst)@ == final(scratch)@,
{
    match filter {
        VideoFilter::Sharp => copy_bytes(dst, src),
        VideoFilter::Smooth => {
            smooth_frame_rgba(src, scratch, width);
            copy_bytes(dst, scratch);
        },
    }
}

/// Copies a 160-pixel-wide frame through `filter` (see `copy_frame_sized`).
pub fn copy_frame(src: &[u8], dst: &mut [u8], scratch: &mut [u8], filter: VideoFilter)
    requires
        filter == VideoFilter::Sharp ==> old(dst)@.len() == src@.len(),
        filter == VideoFilter::Smooth ==> old(dst)@.len() == old(scratch)@.len(),
    ensures
        filter == VideoFilter::Sharp ==> final(dst)@ == src@ && final(scratch)@ == old(scratch)@,
        filter == VideoFilter::Smooth ==> final(scratch)@ == smoothed(src@, old(scratch)@, 160)
            && final(dst)@ == final(scratch)@,
{
    copy_frame_sized(src, dst, scratch, filter, 160);
}

/// `dst.copy_from_slice(src)` for slices of equal length.
fn copy_bytes(dst: &mut [u8], src: &[u8])
    requires
        old(dst)@.len() == src@.len(),
    ensures
        final(dst)@ == src@,
{
    let mut i: usize = 0;
    while i < src.len()
        invariant
            dst@.len() == src@.len(),
            i <= src@.len(),
            forall|k: int| 0 <= k < i ==> dst@[k] == src@[k],
        decreases src@.len() - i,
    {
        dst[i] = src[i];
        i = i + 1;
    }
    assert(dst@ =~= src@);
}

} // verus!
