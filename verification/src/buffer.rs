use vstd::prelude::*;

verus! {

/// An owned 8-bit RGB raster: `data` holds three bytes per pixel (red, green,
/// blue), row-major, origin at the top-left corner.
#[derive(Debug, Clone, PartialEq, Eq)]
pub struct Image {
    pub width: u32,
    pub height: u32,
    pub data: Vec<u8>,
}

impl Image {
    /// A well-formed image has positive dimensions and exactly three bytes
    /// per pixel.
    pub open spec fn wf(&self) -> bool {
        &&& 1 <= self.width
        &&& 1 <= self.height
        &&& self.data@.len() == 3 * self.width * self.height
    }
}

/// Byte `c` (0 red, 1 green, 2 blue) of the pixel in column `x` of row `y` of
/// a `w`-pixel-wide row-major buffer.
pub open spec fn pix(d: Seq<u8>, w: int, x: int, y: int, c: int) -> u8 {
    d[3 * (y * w + x) + c]
}

/// Whether `(x, y)` lies in the `w`-by-`h` rectangle whose top-left corner is
/// `(ox, oy)`.
pub open spec fn in_rect(x: int, y: int, ox: int, oy: int, w: int, h: int) -> bool {
    &&& ox <= x < ox + w
    &&& oy <= y < oy + h
}

/// The byte at offset `i` of a framed buffer: `i` names byte `c` of the pixel
/// in column `x` of row `y` of a `cw`-wide canvas; inside the placed-source
/// rectangle that is the corresponding source byte, elsewhere solid white.
pub open spec fn framed_byte(
    src: Seq<u8>,
    sw: int,
    sh: int,
    cw: int,
    ox: int,
    oy: int,
    i: int,
) -> u8 {
    let y = i / (3 * cw);
    let r = i % (3 * cw);
    let x = r / 3;
    let c = r % 3;
    if in_rect(x, y, ox, oy, sw, sh) {
        pix(src, sw, x - ox, y - oy, c)
    } else {
        255u8
    }
}

/// The whole framed buffer: a `cw`-by-`ch` white canvas with the `sw`-by-`sh`
/// source `src` placed at `(ox, oy)`.
pub open spec fn framed_data(
    src: Seq<u8>,
    sw: int,
    sh: int,
    cw: int,
    ch: int,
    ox: int,
    oy: int,
) -> Seq<u8> {
    Seq::new((3 * cw * ch) as nat, |i: int| framed_byte(src, sw, sh, cw, ox, oy, i))
}

/// Every pixel coordinate of a `w`-by-`h` buffer addresses a byte inside it.
pub proof fn lemma_index_bound(w: int, h: int, x: int, y: int, c: int)
    by (nonlinear_arith)
    requires
        1 <= w,
        1 <= h,
        0 <= x < w,
        0 <= y < h,
        0 <= c < 3,
    ensures
        0 <= y * w,
        0 <= 3 * (y * w + x) + c < 3 * w * h,
{
}

/// Distinct pixel coordinates address distinct bytes: the row-major byte
/// offset determines the column, the row and the channel.
pub proof fn lemma_index_injective(
    w: int,
    x1: int,
    y1: int,
    c1: int,
    x2: int,
    y2: int,
    c2: int,
)
    by (nonlinear_arith)
    requires
        1 <= w,
        0 <= x1 < w,
        0 <= x2 < w,
        0 <= y1,
        0 <= y2,
        0 <= c1 < 3,
        0 <= c2 < 3,
        3 * (y1 * w + x1) + c1 == 3 * (y2 * w + x2) + c2,
    ensures
        x1 == x2,
        y1 == y2,
        c1 == c2,
{
}

/// Splitting a byte offset of a `w`-by-`h` buffer back into a coordinate
/// inverts the row-major layout.
pub proof fn lemma_index_decomp(w: int, h: int, i: int)
    by (nonlinear_arith)
    requires
        1 <= w,
        1 <= h,
        0 <= i < 3 * w * h,
    ensures
        ({
            let y = i / (3 * w);
            let r = i % (3 * w);
            let x = r / 3;
            let c = r % 3;
            0 <= y < h && 0 <= x < w && 0 <= c < 3 && i == 3 * (y * w + x) + c
        }),
{
}

/// What `framed_data` holds at a pixel coordinate: the source byte inside the
/// placed-source rectangle, solid white strictly outside it.
pub proof fn lemma_framed_data_pix(
    src: Seq<u8>,
    sw: int,
    sh: int,
    cw: int,
    ch: int,
    ox: int,
    oy: int,
    x: int,
    y: int,
    c: int,
)
    requires
        1 <= sw,
        1 <= sh,
        0 <= ox,
        0 <= oy,
        ox + sw <= cw,
        oy + sh <= ch,
        0 <= x < cw,
        0 <= y < ch,
        0 <= c < 3,
    ensures
        pix(framed_data(src, sw, sh, cw, ch, ox, oy), cw, x, y, c) == (if in_rect(
            x,
            y,
            ox,
            oy,
            sw,
            sh,
        ) {
            pix(src, sw, x - ox, y - oy, c)
        } else {
            255u8
        }),
{
    let i = 3 * (y * cw + x) + c;
    lemma_index_bound(cw, ch, x, y, c);
    lemma_index_decomp(cw, ch, i);
    let y2 = i / (3 * cw);
    let r2 = i % (3 * cw);
    let x2 = r2 / 3;
    let c2 = r2 % 3;
    lemma_index_injective(cw, x, y, c, x2, y2, c2);
}

/// Framing that adds no border is the identity on the pixel bytes: a canvas
/// that coincides with the source holds exactly the source.
pub proof fn lemma_borderless_framed_data(src: Seq<u8>, sw: int, sh: int)
    requires
        1 <= sw,
        1 <= sh,
        src.len() == 3 * sw * sh,
    ensures
        framed_data(src, sw, sh, sw, sh, 0, 0) == src,
{
    let framed = framed_data(src, sw, sh, sw, sh, 0, 0);
    assert forall|i: int| 0 <= i < 3 * sw * sh implies framed[i] == src[i] by {
        lemma_index_decomp(sw, sh, i);
    }
    assert(framed =~= src);
}

/// A solid white canvas of the given dimensions.
pub fn white_canvas(w: u32, h: u32) -> (img: Image)
    requires
        1 <= w,
        1 <= h,
        3 * w * h <= usize::MAX,
    ensures
        img.wf(),
        img.width == w,
        img.height == h,
        forall|i: int| 0 <= i < img.data@.len() ==> img.data@[i] == 255u8,
{
    proof {
        assert((w * h) <= 3 * (w * h) && 3 * (w as int) * (h as int) == 3 * ((w * h) as int))
            by (nonlinear_arith);
    }
    let len: usize = 3 * ((w as usize) * (h as usize));
    let mut data: Vec<u8> = Vec::new();
    let mut i: usize = 0;
    while i < len
        invariant
            i <= len,
            data@.len() == i,
            forall|j: int| 0 <= j < i ==> data@[j] == 255u8,
        decreases len - i,
    {
        data.push(255u8);
        i = i + 1;
    }
    Image { width: w, height: h, data }
}

/// Overlay `src` onto `canvas` with its top-left corner at
/// `(off_x, off_y)`: every canvas pixel covered by the source is overwritten
/// with the source pixel, every other canvas pixel keeps its value.
#[verifier::loop_isolation(false)]
pub fn composite(canvas: &mut Image, src: &Image, off_x: u32, off_y: u32)
    requires
        old(canvas).wf(),
        src.wf(),
        off_x + src.width <= old(canvas).width,
        off_y + src.height <= old(canvas).height,
    ensures
        final(canvas).wf(),
        final(canvas).width == old(canvas).width,
        final(canvas).height == old(canvas).height,
        forall|x: int, y: int, c: int|
            0 <= x < old(canvas).width && 0 <= y < old(canvas).height && 0 <= c < 3
                ==> #[trigger] pix(
                final(canvas).data@,
                old(canvas).width as int,
                x,
                y,
                c,
            ) == (if in_rect(x, y, off_x as int, off_y as int, src.width as int,
            src.height as int) {
                pix(src.data@, src.width as int, x - off_x, y - off_y, c)
            } else {
                pix(old(canvas).data@, old(canvas).width as int, x, y, c)
            }),
{
    let cw = canvas.width;
    let ch = canvas.height;
    let sw = src.width;
    let sh = src.height;
    let mut y: u32 = 0;
    while y < sh
        invariant
            y <= sh,
            canvas.width == cw,
            canvas.height == ch,
            canvas.data@.len() == old(canvas).data@.len(),
            forall|xx: int, yy: int, cc: int|
                0 <= xx < cw && 0 <= yy < ch && 0 <= cc < 3 ==> #[trigger] pix(
                    canvas.data@,
                    cw as int,
                    xx,
                    yy,
                    cc,
                ) == (if in_rect(xx, yy, off_x as int, off_y as int, sw as int, y as int) {
                    pix(src.data@, sw as int, xx - off_x, yy - off_y, cc)
                } else {
                    pix(old(canvas).data@, cw as int, xx, yy, cc)
                }),
        decreases sh - y,
    {
        let mut x: u32 = 0;
        while x < sw
            invariant
                x <= sw,
                y < sh,
                canvas.width == cw,
                canvas.height == ch,
                canvas.data@.len() == old(canvas).data@.len(),
                forall|xx: int, yy: int, cc: int|
                    0 <= xx < cw && 0 <= yy < ch && 0 <= cc < 3 ==> #[trigger] pix(
                        canvas.data@,
                        cw as int,
                        xx,
                        yy,
                        cc,
                    ) == (if in_rect(xx, yy, off_x as int, off_y as int, sw as int, y as int) || (
                    yy == off_y + y && off_x <= xx < off_x + x) {
                        pix(src.data@, sw as int, xx - off_x, yy - off_y, cc)
                    } else {
                        pix(old(canvas).data@, cw as int, xx, yy, cc)
                    }),
            decreases sw - x,
        {
            let yy: usize = off_y as usize + y as usize;
            let xx: usize = off_x as usize + x as usize;
            proof {
                lemma_index_bound(cw as int, ch as int, xx as int, yy as int, 0);
                lemma_index_bound(cw as int, ch as int, xx as int, yy as int, 2);
                lemma_index_bound(sw as int, sh as int, x as int, y as int, 0);
                lemma_index_bound(sw as int, sh as int, x as int, y as int, 2);
                assert(canvas.data.len() == canvas.data@.len());
                assert(src.data.len() == src.data@.len());
                assert(canvas.data@.len() == 3 * (cw as int) * (ch as int));
                assert(src.data@.len() == 3 * (sw as int) * (sh as int));
            }
            let ghost before: Seq<u8> = canvas.data@;
            let cbase: usize = 3 * (yy * (cw as usize) + xx);
            let sbase: usize = 3 * ((y as usize) * (sw as usize) + (x as usize));
            let b0 = src.data[sbase];
            let b1 = src.data[sbase + 1];
            let b2 = src.data[sbase + 2];
            canvas.data.set(cbase, b0);
            canvas.data.set(cbase + 1, b1);
            canvas.data.set(cbase + 2, b2);
            proof {
                assert forall|xx2: int, yy2: int, cc2: int|
                    0 <= xx2 < cw && 0 <= yy2 < ch && 0 <= cc2 < 3 implies #[trigger] pix(
                    canvas.data@,
                    cw as int,
                    xx2,
                    yy2,
                    cc2,
                ) == (if in_rect(xx2, yy2, off_x as int, off_y as int, sw as int, y as int) || (yy2
                    == off_y + y && off_x <= xx2 < off_x + x + 1) {
                    pix(src.data@, sw as int, xx2 - off_x, yy2 - off_y, cc2)
                } else {
                    pix(old(canvas).data@, cw as int, xx2, yy2, cc2)
                }) by {
                    let idx = 3 * (yy2 * (cw as int) + xx2) + cc2;
                    lemma_index_bound(cw as int, ch as int, xx2, yy2, cc2);
                    if xx2 == xx && yy2 == yy {
                        assert(idx == cbase + cc2);
                        assert(sbase + cc2 == 3 * ((y as int) * (sw as int) + x) + cc2);
                    } else {
                        if idx == cbase {
                            lemma_index_injective(cw as int, xx2, yy2, cc2, xx as int, yy as int, 0);
                        }
                        if idx == cbase + 1 {
                            lemma_index_injective(cw as int, xx2, yy2, cc2, xx as int, yy as int, 1);
                        }
                        if idx == cbase + 2 {
                            lemma_index_injective(cw as int, xx2, yy2, cc2, xx as int, yy as int, 2);
                        }
                        assert(canvas.data@[idx] == before[idx]);
                        assert(pix(before, cw as int, xx2, yy2, cc2) == before[idx]);
                    }
                }
            }
            x = x + 1;
        }
        y = y + 1;
    }
}

} // verus!
