//! Verified raster operations on a flat, row-major pixel buffer of
//! palette indices.
//!
//! Every operation's contract gives the exact new buffer contents as a
//! sequence transform, so whole compositing pipelines can be pinned
//! down byte for byte.

use vstd::prelude::*;

use crate::gif::spec_encodable;
use crate::text::{GlyphPixel, COVERAGE_FULL};

verus! {

/// `data` with `w` pixels from `start` set to `color`.
pub open spec fn spec_fill_row(data: Seq<u8>, start: int, w: int, color: u8) -> Seq<u8> {
    Seq::new(data.len(), |i: int| if start <= i < start + w { color } else { data[i] })
}

/// `data` with the `rows` x `w` rectangle at column `x0`, row `y`
/// (row-major, `stride` pixels per row) set to `color`.
pub open spec fn spec_fill_rect(
    data: Seq<u8>,
    stride: int,
    x0: int,
    y: int,
    w: int,
    rows: int,
    color: u8,
) -> Seq<u8>
    decreases rows,
{
    if rows <= 0 {
        data
    } else {
        spec_fill_rect(
            spec_fill_row(data, y * stride + x0, w, color),
            stride,
            x0,
            y + 1,
            w,
            rows - 1,
            color,
        )
    }
}

/// `data` with `w` pixels from `start` replaced by the `w` pixels of
/// `src` from `src_start`.
pub open spec fn spec_copy_row(
    data: Seq<u8>,
    start: int,
    src: Seq<u8>,
    src_start: int,
    w: int,
) -> Seq<u8> {
    Seq::new(
        data.len(),
        |i: int| if start <= i < start + w {
            src[src_start + (i - start)]
        } else {
            data[i]
        },
    )
}

/// `data` with the `rows` x `w` rectangle at (`x0`, `y`) replaced by
/// the equally sized rectangle of `src` at (`sx`, `sy`).
pub open spec fn spec_blit_rect(
    data: Seq<u8>,
    stride: int,
    x0: int,
    y: int,
    src: Seq<u8>,
    src_stride: int,
    sx: int,
    sy: int,
    w: int,
    rows: int,
) -> Seq<u8>
    decreases rows,
{
    if rows <= 0 {
        data
    } else {
        spec_blit_rect(
            spec_copy_row(data, y * stride + x0, src, sy * src_stride + sx, w),
            stride,
            x0,
            y + 1,
            src,
            src_stride,
            sx,
            sy + 1,
            w,
            rows - 1,
        )
    }
}

/// Where one glyph pixel lands and what it paints: shifted by the
/// layout offset, clipped to the `clip_w` x `clip_h` region whose top
/// left is at (`rx`, `ry`) in the buffer, dropped below `min_cov`,
/// medium shade below `COVERAGE_FULL`, full color otherwise.
pub open spec fn spec_draw_glyphs(
    data: Seq<u8>,
    stride: int,
    rx: int,
    ry: int,
    pixels: Seq<GlyphPixel>,
    ox: int,
    oy: int,
    clip_w: int,
    clip_h: int,
    min_cov: u8,
    med: u8,
    full: u8,
) -> Seq<u8>
    decreases pixels.len(),
{
    if pixels.len() == 0 {
        data
    } else {
        let p = pixels[0];
        let px = p.x + ox;
        let py = p.y + oy;
        let painted = if 0 <= px < clip_w && 0 <= py < clip_h && p.coverage >= min_cov {
            data.update(
                (ry + py) * stride + rx + px,
                if p.coverage >= COVERAGE_FULL {
                    full
                } else {
                    med
                },
            )
        } else {
            data
        };
        spec_draw_glyphs(
            painted,
            stride,
            rx,
            ry,
            pixels.drop_first(),
            ox,
            oy,
            clip_w,
            clip_h,
            min_cov,
            med,
            full,
        )
    }
}

/// Set one row segment to a color.
pub fn fill_row(data: &mut Vec<u8>, start: usize, w: usize, color: u8)
    requires
        start + w <= old(data)@.len(),
    ensures
        final(data)@ == spec_fill_row(old(data)@, start as int, w as int, color),
        spec_encodable(old(data)@) && color < 255 ==> spec_encodable(final(data)@),
{
    let n: usize = data.len();
    let mut c: usize = 0;
    while c < w
        invariant
            c <= w,
            start + w <= n,
            n == data@.len(),
            data@.len() == old(data)@.len(),
            forall|i: int|
                0 <= i < data@.len() ==> data@[i] == (if start <= i < start + c {
                    color
                } else {
                    old(data)@[i]
                }),
        decreases w - c,
    {
        data[start + c] = color;
        c = c + 1;
    }
    proof {
        assert(data@ =~= spec_fill_row(old(data)@, start as int, w as int, color));
    }
}

/// Fill a rectangle of the row-major buffer with a color.
pub fn fill_rect(
    data: &mut Vec<u8>,
    stride: usize,
    x0: usize,
    y0: usize,
    w: usize,
    h: usize,
    color: u8,
)
    requires
        1 <= stride,
        x0 + w <= stride,
        (y0 + h) * stride <= old(data)@.len(),
    ensures
        final(data)@.len() == old(data)@.len(),
        spec_encodable(old(data)@) && color < 255 ==> spec_encodable(final(data)@),
        final(data)@ == spec_fill_rect(
            old(data)@,
            stride as int,
            x0 as int,
            y0 as int,
            w as int,
            h as int,
            color,
        ),
{
    let ghost target = spec_fill_rect(
        old(data)@,
        stride as int,
        x0 as int,
        y0 as int,
        w as int,
        h as int,
        color,
    );
    let n: usize = data.len();
    proof {
        assert(y0 + h <= (y0 + h) * stride) by (nonlinear_arith)
            requires
                stride >= 1,
                y0 + h >= 0,
        ;
    }
    let mut r: usize = 0;
    while r < h
        invariant
            r <= h,
            1 <= stride,
            x0 + w <= stride,
            y0 + h <= n,
            (y0 + h) * stride <= n,
            n == data@.len(),
            data@.len() == old(data)@.len(),
            spec_encodable(old(data)@) && color < 255 ==> spec_encodable(data@),
            target == spec_fill_rect(
                data@,
                stride as int,
                x0 as int,
                (y0 + r) as int,
                w as int,
                (h - r) as int,
                color,
            ),
            target == spec_fill_rect(
                old(data)@,
                stride as int,
                x0 as int,
                y0 as int,
                w as int,
                h as int,
                color,
            ),
        decreases h - r,
    {
        proof {
            assert((y0 + r) * stride + stride == (y0 + r + 1) * stride) by (nonlinear_arith);
            assert((y0 + r + 1) * stride <= (y0 + h) * stride) by (nonlinear_arith)
                requires
                    r < h,
                    stride >= 0,
                    y0 + r + 1 <= y0 + h,
            ;
        }
        let start = (y0 + r) * stride + x0;
        fill_row(data, start, w, color);
        r = r + 1;
    }
}

/// Copy one row segment from `src`.
pub fn copy_row(data: &mut Vec<u8>, start: usize, src: &Vec<u8>, src_start: usize, w: usize)
    requires
        start + w <= old(data)@.len(),
        src_start + w <= src@.len(),
    ensures
        final(data)@ == spec_copy_row(old(data)@, start as int, src@, src_start as int, w as int),
        spec_encodable(old(data)@) && spec_encodable(src@) ==> spec_encodable(final(data)@),
{
    let n: usize = data.len();
    let ns: usize = src.len();
    let mut c: usize = 0;
    while c < w
        invariant
            c <= w,
            start + w <= n,
            n == data@.len(),
            src_start + w <= ns,
            ns == src@.len(),
            data@.len() == old(data)@.len(),
            forall|i: int|
                0 <= i < data@.len() ==> data@[i] == (if start <= i < start + c {
                    src@[src_start + (i - start)]
                } else {
                    old(data)@[i]
                }),
        decreases w - c,
    {
        data[start + c] = src[src_start + c];
        c = c + 1;
    }
    proof {
        assert(data@ =~= spec_copy_row(old(data)@, start as int, src@, src_start as int, w as int));
    }
}

/// Copy a rectangle of `src` into the row-major buffer.
pub fn blit_rect(
    data: &mut Vec<u8>,
    stride: usize,
    x0: usize,
    y0: usize,
    src: &Vec<u8>,
    src_stride: usize,
    sx: usize,
    sy: usize,
    w: usize,
    h: usize,
)
    requires
        1 <= stride,
        x0 + w <= stride,
        (y0 + h) * stride <= old(data)@.len(),
        1 <= src_stride,
        sx + w <= src_stride,
        (sy + h) * src_stride <= src@.len(),
    ensures
        final(data)@.len() == old(data)@.len(),
        spec_encodable(old(data)@) && spec_encodable(src@) ==> spec_encodable(final(data)@),
        final(data)@ == spec_blit_rect(
            old(data)@,
            stride as int,
            x0 as int,
            y0 as int,
            src@,
            src_stride as int,
            sx as int,
            sy as int,
            w as int,
            h as int,
        ),
{
    let ghost target = spec_blit_rect(
        old(data)@,
        stride as int,
        x0 as int,
        y0 as int,
        src@,
        src_stride as int,
        sx as int,
        sy as int,
        w as int,
        h as int,
    );
    let n: usize = data.len();
    let ns: usize = src.len();
    proof {
        assert(y0 + h <= (y0 + h) * stride) by (nonlinear_arith)
            requires
                stride >= 1,
                y0 + h >= 0,
        ;
        assert(sy + h <= (sy + h) * src_stride) by (nonlinear_arith)
            requires
                src_stride >= 1,
                sy + h >= 0,
        ;
    }
    let mut r: usize = 0;
    while r < h
        invariant
            r <= h,
            1 <= stride,
            x0 + w <= stride,
            y0 + h <= n,
            (y0 + h) * stride <= n,
            n == data@.len(),
            1 <= src_stride,
            sx + w <= src_stride,
            sy + h <= ns,
            (sy + h) * src_stride <= ns,
            ns == src@.len(),
            data@.len() == old(data)@.len(),
            spec_encodable(old(data)@) && spec_encodable(src@) ==> spec_encodable(data@),
            target == spec_blit_rect(
                data@,
                stride as int,
                x0 as int,
                (y0 + r) as int,
                src@,
                src_stride as int,
                sx as int,
                (sy + r) as int,
                w as int,
                (h - r) as int,
            ),
            target == spec_blit_rect(
                old(data)@,
                stride as int,
                x0 as int,
                y0 as int,
                src@,
                src_stride as int,
                sx as int,
                sy as int,
                w as int,
                h as int,
            ),
        decreases h - r,
    {
        proof {
            assert((y0 + r) * stride + stride == (y0 + r + 1) * stride) by (nonlinear_arith);
            assert((y0 + r + 1) * stride <= (y0 + h) * stride) by (nonlinear_arith)
                requires
                    r < h,
                    stride >= 0,
                    y0 + r + 1 <= y0 + h,
            ;
            assert((sy + r) * src_stride + src_stride == (sy + r + 1) * src_stride)
                by (nonlinear_arith);
            assert((sy + r + 1) * src_stride <= (sy + h) * src_stride) by (nonlinear_arith)
                requires
                    r < h,
                    src_stride >= 0,
                    sy + r + 1 <= sy + h,
            ;
        }
        let start = (y0 + r) * stride + x0;
        let src_start = (sy + r) * src_stride + sx;
        copy_row(data, start, src, src_start, w);
        r = r + 1;
    }
}

/// Draw laid-out glyph pixels into the `clip_w` x `clip_h` region
/// whose top left is at (`rx`, `ry`) in the row-major buffer, shifted
/// by (`ox`, `oy`): pixels outside the region or under `min_cov` are
/// dropped, pixels under `COVERAGE_FULL` paint `med`, the rest paint
/// `full`.
pub fn draw_glyphs(
    data: &mut Vec<u8>,
    stride: usize,
    rx: usize,
    ry: usize,
    pixels: &Vec<GlyphPixel>,
    ox: i64,
    oy: i64,
    clip_w: usize,
    clip_h: usize,
    min_cov: u8,
    med: u8,
    full: u8,
)
    requires
        1 <= stride,
        rx + clip_w <= stride,
        (ry + clip_h) * stride <= old(data)@.len(),
        clip_w <= 0x1_0000_0000,
        clip_h <= 0x1_0000_0000,
        -0x1_0000_0000 <= ox <= 0x1_0000_0000,
        -0x1_0000_0000 <= oy <= 0x1_0000_0000,
    ensures
        final(data)@.len() == old(data)@.len(),
        spec_encodable(old(data)@) && med < 255 && full < 255 ==> spec_encodable(final(data)@),
        final(data)@ == spec_draw_glyphs(
            old(data)@,
            stride as int,
            rx as int,
            ry as int,
            pixels@,
            ox as int,
            oy as int,
            clip_w as int,
            clip_h as int,
            min_cov,
            med,
            full,
        ),
{
    let ghost target = spec_draw_glyphs(
        old(data)@,
        stride as int,
        rx as int,
        ry as int,
        pixels@,
        ox as int,
        oy as int,
        clip_w as int,
        clip_h as int,
        min_cov,
        med,
        full,
    );
    let n: usize = data.len();
    proof {
        assert(pixels@.skip(0) =~= pixels@);
        assert(ry + clip_h <= (ry + clip_h) * stride) by (nonlinear_arith)
            requires
                stride >= 1,
                ry + clip_h >= 0,
        ;
    }
    let mut k: usize = 0;
    while k < pixels.len()
        invariant
            k <= pixels@.len(),
            1 <= stride,
            rx + clip_w <= stride,
            ry + clip_h <= n,
            (ry + clip_h) * stride <= n,
            n == data@.len(),
            clip_w <= 0x1_0000_0000,
            clip_h <= 0x1_0000_0000,
            -0x1_0000_0000 <= ox <= 0x1_0000_0000,
            -0x1_0000_0000 <= oy <= 0x1_0000_0000,
            data@.len() == old(data)@.len(),
            spec_encodable(old(data)@) && med < 255 && full < 255 ==> spec_encodable(data@),
            target == spec_draw_glyphs(
                data@,
                stride as int,
                rx as int,
                ry as int,
                pixels@.skip(k as int),
                ox as int,
                oy as int,
                clip_w as int,
                clip_h as int,
                min_cov,
                med,
                full,
            ),
        decreases pixels@.len() - k,
    {
        let ghost pre = data@;
        let ghost rest = pixels@.skip(k as int);
        let p = pixels[k];
        let px: i64 = p.x as i64 + ox;
        let py: i64 = p.y as i64 + oy;
        proof {
            assert(rest[0] == pixels@[k as int]);
            assert(rest.len() > 0);
        }
        if 0 <= px && px < clip_w as i64 && 0 <= py && py < clip_h as i64 && p.coverage >= min_cov {
            proof {
                assert((ry + py) * stride + stride == (ry + py + 1) * stride) by (nonlinear_arith);
                assert((ry + py + 1) * stride <= (ry + clip_h) * stride) by (nonlinear_arith)
                    requires
                        0 <= py < clip_h,
                        stride >= 0,
                        ry >= 0,
                ;
            }
            let idx: usize = (ry + py as usize) * stride + rx + (px as usize);
            let shade: u8 = if p.coverage >= COVERAGE_FULL {
                full
            } else {
                med
            };
            data[idx] = shade;
        }
        k = k + 1;
        proof {
            assert(rest.drop_first() =~= pixels@.skip(k as int));
            let painted = if 0 <= p.x + ox < clip_w && 0 <= p.y + oy < clip_h && p.coverage
                >= min_cov {
                pre.update(
                    (ry + (p.y + oy)) * stride + rx + (p.x + ox),
                    if p.coverage >= COVERAGE_FULL {
                        full
                    } else {
                        med
                    },
                )
            } else {
                pre
            };
            assert(data@ =~= painted);
        }
    }
    proof {
        assert(pixels@.skip(pixels@.len() as int) =~= Seq::<GlyphPixel>::empty());
    }
}

/// The first `n` pixels of the buffer, as their own vector.
pub fn copy_prefix(data: &Vec<u8>, n: usize) -> (r: Vec<u8>)
    requires
        n <= data@.len(),
    ensures
        r@ == data@.take(n as int),
        spec_encodable(data@) ==> spec_encodable(r@),
{
    let mut out: Vec<u8> = Vec::new();
    let mut i: usize = 0;
    while i < n
        invariant
            i <= n,
            n <= data@.len(),
            out@ == data@.take(i as int),
        decreases n - i,
    {
        out.push(data[i]);
        i = i + 1;
        proof {
            assert(data@.take(i as int) =~= data@.take(i - 1 as int).push(data@[i - 1 as int]));
        }
    }
    out
}

} // verus!
